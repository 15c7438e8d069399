use vibedev::dock_view::{
    file_pane, render_plan_panel, DockBody, ExecutionView, PlanView, Symbol, Tint,
};
use vibedev::fanout::{SelectedSubagent, SubagentProgress, SubagentStatus, SubagentStep};
use vibedev::right_dock::{
    ActiveThread, DockModule, PanelLoad, PlanEntry, PlanEntryStatus, ThreadEntry,
    VibedevRightDock,
};

fn progress(id: &str, status: SubagentStatus, stream: Option<&str>) -> ThreadEntry {
    ThreadEntry::SubagentProgress(SubagentProgress {
        subagent_id: id.to_string(),
        agent_type: "Explore".to_string(),
        title: format!("task {id}"),
        status,
        tokens_used: Some(1200),
        parent_id: if id == "child" { Some("a".to_string()) } else { None },
        step: stream.map(|s| SubagentStep {
            label: "reading".to_string(),
            sub: None,
            status: "running".to_string(),
            stream: Some(s.to_string()),
        }),
        tool_calls: Vec::new(),
        reply: None,
    })
}

fn thread(id: u64, entries: Vec<ThreadEntry>, plan: Vec<PlanEntry>) -> ActiveThread {
    ActiveThread { id, entries, plan }
}

fn step(status: PlanEntryStatus, content: &str) -> PlanEntry {
    PlanEntry { status, content: content.to_string() }
}

#[test]
fn dock_begins_with_the_files() {
    let (dock, load) = VibedevRightDock::new(70, 71);
    assert_eq!(dock.enabled, vec![DockModule::Files, DockModule::File]);
    assert!(dock.collapsed.is_empty());
    assert_eq!(load, Some(PanelLoad::Files));
    let titles: Vec<&str> = DockModule::all_modules().into_iter().map(|m| m.title()).collect();
    assert_eq!(titles, vec!["Files", "File", "Changes", "Execution", "Plan", "Terminal"]);
    assert_eq!(DockModule::File.element_id(), "vibedev-dpanel-preview");
    assert_eq!(DockModule::Terminal.index(), 5);
}

#[test]
fn modules_stay_in_order() {
    let (mut dock, _) = VibedevRightDock::new(70, 71);
    assert_eq!(dock.enable_module(DockModule::Terminal), Some(PanelLoad::Terminal));
    assert_eq!(dock.enable_module(DockModule::Changes), None);
    assert_eq!(
        dock.enabled,
        vec![DockModule::Files, DockModule::File, DockModule::Changes, DockModule::Terminal]
    );
    // switched on again it is not loaded again
    assert_eq!(dock.toggle_module(DockModule::Terminal), None);
    assert_eq!(dock.toggle_module(DockModule::Terminal), None);
    assert!(dock.is_enabled(DockModule::Terminal));
    dock.disable_module(DockModule::Files);
    assert_eq!(dock.enable_module(DockModule::Files), Some(PanelLoad::Files));
    dock.project_panel_loaded();
    dock.disable_module(DockModule::Files);
    assert_eq!(dock.enable_module(DockModule::Files), None);
    assert_eq!(dock.enabled[0], DockModule::Files);
}

#[test]
fn opening_something_unfolds_its_panel() {
    let (mut dock, _) = VibedevRightDock::new(70, 71);
    dock.toggle_collapsed(DockModule::File);
    dock.handle_center_pane_event(false);
    assert!(dock.is_collapsed(DockModule::File));
    dock.handle_center_pane_event(true);
    assert!(!dock.is_collapsed(DockModule::File));
    dock.disable_module(DockModule::File);
    dock.handle_center_pane_event(true);
    assert!(dock.is_enabled(DockModule::File));
    dock.handle_changes_pane_event(true);
    assert!(dock.is_enabled(DockModule::Changes));
}

#[test]
fn toggling_twice_restores() {
    let (mut dock, _) = VibedevRightDock::new(70, 71);
    dock.toggle_collapsed(DockModule::File);
    dock.toggle_collapsed(DockModule::File);
    assert!(dock.collapsed.is_empty());
    dock.toggle_module(DockModule::File);
    dock.toggle_module(DockModule::File);
    assert_eq!(dock.enabled, vec![DockModule::Files, DockModule::File]);
}

#[test]
fn panels_come_up_once_for_a_conversation() {
    let (mut dock, _) = VibedevRightDock::new(70, 71);
    let mut selected = SelectedSubagent::default();
    selected.set(Some("a".to_string()));
    let first = thread(
        1,
        vec![ThreadEntry::Other, progress("a", SubagentStatus::Running, None)],
        vec![step(PlanEntryStatus::Pending, "x")],
    );
    dock.refresh_active_thread(Some(&first), &mut selected);
    assert!(dock.is_enabled(DockModule::Execution));
    assert!(dock.is_enabled(DockModule::Plan));
    // another conversation: nothing of it is looked at
    assert_eq!(selected.get(), None);
    // closed, it stays closed while the conversation goes on
    dock.disable_module(DockModule::Execution);
    dock.on_thread_updated(&first);
    assert!(!dock.is_enabled(DockModule::Execution));
    selected.set(Some("a".to_string()));
    dock.refresh_active_thread(Some(&first), &mut selected);
    assert!(!dock.is_enabled(DockModule::Execution));
    assert_eq!(selected.get(), Some("a".to_string()));
    // and comes up for the next one
    let second = thread(2, vec![progress("b", SubagentStatus::Done, None)], vec![]);
    dock.refresh_active_thread(Some(&second), &mut selected);
    assert!(dock.is_enabled(DockModule::Execution));
    assert_eq!(selected.get(), None);
    dock.refresh_active_thread(None, &mut selected);
    assert_eq!(dock.active_thread, None);
}

#[test]
fn subscribes_once() {
    let (mut dock, _) = VibedevRightDock::new(70, 71);
    assert!(!dock.subscribe(false));
    assert!(dock.subscribe(true));
    assert!(!dock.subscribe(true));
}

#[test]
fn execution_shows_the_subagents() {
    let (mut dock, _) = VibedevRightDock::new(70, 71);
    let mut selected = SelectedSubagent::default();
    let view = dock.render_execution_panel(None, &selected);
    assert!(matches!(view, ExecutionView::Empty(why) if why == "无活跃会话"));
    let empty = thread(1, vec![ThreadEntry::Other], vec![]);
    let view = dock.render_execution_panel(Some(&empty), &selected);
    assert!(matches!(view, ExecutionView::Empty(why) if why == "暂无子任务执行"));

    let t = thread(
        1,
        vec![
            progress("a", SubagentStatus::Running, Some("hello")),
            progress("child", SubagentStatus::Failed, None),
        ],
        vec![],
    );
    match dock.render_execution_panel(Some(&t), &selected) {
        ExecutionView::List { header, rows } => {
            assert_eq!(header, "1/2 运行中");
            assert_eq!(rows.len(), 2);
            assert_eq!((rows[0].symbol, rows[0].tint), (Symbol::ArrowCircle, Tint::Accent));
            assert_eq!(rows[0].tokens.as_deref(), Some("1200 tok"));
            assert!(rows[0].border && !rows[0].indented);
            assert_eq!((rows[1].symbol, rows[1].tint), (Symbol::XCircle, Tint::Failure));
            assert!(!rows[1].border && rows[1].indented);
        }
        _ => panic!("the list is shown"),
    }

    selected.set(Some("a".to_string()));
    match dock.render_execution_panel(Some(&t), &selected) {
        ExecutionView::Detail(d) => {
            assert_eq!(d.status, "运行中");
            assert_eq!(d.step, "reading");
            assert_eq!(d.stream.as_deref(), Some("hello"));
            assert!(d.rebuild);
        }
        _ => panic!("the detail is shown"),
    }
    // the same text is not set again
    match dock.render_execution_panel(Some(&t), &selected) {
        ExecutionView::Detail(d) => assert!(!d.rebuild),
        _ => panic!("the detail is shown"),
    }
    selected.set(Some("child".to_string()));
    match dock.render_execution_panel(Some(&t), &selected) {
        ExecutionView::Detail(d) => {
            assert_eq!(d.step, "暂无步骤详情");
            assert_eq!(d.stream, None);
            assert!(!d.rebuild);
        }
        _ => panic!("the detail is shown"),
    }
    // one that is gone shows the list
    selected.set(Some("gone".to_string()));
    assert!(matches!(
        dock.render_execution_panel(Some(&t), &selected),
        ExecutionView::List { .. }
    ));
}

#[test]
fn plan_shows_its_steps() {
    assert!(matches!(render_plan_panel(None), PlanView::Empty(why) if why == "无活跃会话"));
    let empty = thread(1, vec![], vec![]);
    assert!(matches!(render_plan_panel(Some(&empty)), PlanView::Empty(why) if why == "暂无计划"));
    let t = thread(
        1,
        vec![],
        vec![
            step(PlanEntryStatus::Completed, "one"),
            step(PlanEntryStatus::InProgress, "two"),
            step(PlanEntryStatus::Pending, "three"),
        ],
    );
    match render_plan_panel(Some(&t)) {
        PlanView::List { header, rows } => {
            assert_eq!(header, "1/3 完成");
            let symbols: Vec<Symbol> = rows.iter().map(|r| r.symbol).collect();
            assert_eq!(
                symbols,
                vec![Symbol::TodoComplete, Symbol::TodoProgress, Symbol::TodoPending]
            );
            let borders: Vec<bool> = rows.iter().map(|r| r.border).collect();
            assert_eq!(borders, vec![true, true, false]);
            assert_eq!(rows[2].content, "three");
        }
        PlanView::Empty(_) => panic!("the plan is shown"),
    }
}

#[test]
fn stack_shows_each_panel() {
    let (mut dock, _) = VibedevRightDock::new(70, 71);
    dock.enable_module(DockModule::Terminal);
    dock.toggle_collapsed(DockModule::File);
    let selected = SelectedSubagent::default();
    let panels = dock.render(None, None, &selected);
    assert_eq!(panels.len(), 3);
    assert!(matches!(panels[0].body, DockBody::Loading));
    assert_eq!(panels[0].fold_symbol, Symbol::ChevronUp);
    assert_eq!(panels[0].fold_id, "vibedev-dpanel-collapse");
    assert!(matches!(panels[1].body, DockBody::FilePane { pane: 70 }));
    // a split has made another pane the one in which files are opened
    assert!(matches!(
        dock.render(Some(72), None, &selected)[1].body,
        DockBody::FilePane { pane: 72 }
    ));
    assert_eq!((file_pane(None, 70), file_pane(Some(72), 70)), (70, 72));
    assert_eq!(dock.changes_pane(), 71);
    assert!(matches!(
        dock.render_dpanel(DockModule::Changes, Some(72), None, &selected).body,
        DockBody::ChangesPane { pane: 71 }
    ));
    assert!(panels[1].collapsed);
    assert_eq!(panels[1].fold_symbol, Symbol::ChevronDown);
    assert_eq!(panels[1].fold_id, "vibedev-dpanel-expand");
    assert!(panels[2].new_terminal && !panels[1].new_terminal);
    assert!(!dock.can_spawn_terminal());
    dock.terminal_panel_loaded();
    assert!(dock.can_spawn_terminal());
    assert!(matches!(dock.render(None, None, &selected)[2].body, DockBody::Terminal));

    let menu = dock.render_panels_menu();
    let checked: Vec<bool> = menu.iter().map(|e| e.checked).collect();
    assert_eq!(checked, vec![true, true, false, false, false, true]);
    assert_eq!(menu[2].title, "Changes");
}
