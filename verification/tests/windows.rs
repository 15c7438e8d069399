use vibedev::agent_home::{
    after_account_attempt, open_recent, AccountStep, HomeAccount, HomeUsage, OpenRecent,
    ProjectPath, ProjectSymbol, RecentWorkspace, VibedevAgentHome, ACCOUNT_ATTEMPTS,
    RECENT_LIMIT,
};
use vibedev::agent_panel::{
    position_is_valid, split_taken_item, DockPosition, PaneEvent, PaneReaction, SplitDirection,
    SplitMode, VibedevAgentPanel,
};
use vibedev::agent_window::{
    configure_agent_mode, open_agent_app_window, open_ide_window, AgentWindow, AgentWorkspace,
    Surface, WindowAction, WindowInfo,
};
use vibedev::session_sidebar::{
    open_conversation, redraws, render_session_list, Folder, FolderList, ProjectEvent,
    SessionList, ThreadMetadata, VibedevSessionSidebar,
};

#[test]
fn windows_do_not_pile_up() {
    let editor = WindowInfo { id: 1, is_agent_app: Some(false) };
    let agent = WindowInfo { id: 2, is_agent_app: Some(true) };
    let settings = WindowInfo { id: 3, is_agent_app: None };
    assert_eq!(open_agent_app_window(&vec![editor, settings], Some(1)), WindowAction::OpenNew);
    assert_eq!(
        open_agent_app_window(&vec![editor, settings, agent], Some(1)),
        WindowAction::Activate { id: 2 }
    );
    assert_eq!(
        open_ide_window(&vec![agent, editor], Some(2)),
        WindowAction::Activate { id: 1 }
    );
    // the window that asks does not count
    assert_eq!(open_ide_window(&vec![editor], Some(1)), WindowAction::OpenNew);
    assert_eq!(open_ide_window(&vec![], None), WindowAction::OpenNew);
}

#[test]
fn only_an_editor_opens_the_agent_window() {
    let own = WindowInfo { id: 1, is_agent_app: Some(false) };
    let agent = WindowInfo { id: 2, is_agent_app: Some(true) };
    let editor = AgentWorkspace { agent_mode: false };
    assert_eq!(editor.on_open_agent_app(&vec![own], 1), Some(WindowAction::OpenNew));
    assert_eq!(
        editor.on_open_agent_app(&vec![own, agent], 1),
        Some(WindowAction::Activate { id: 2 })
    );
    let surface = AgentWorkspace { agent_mode: true };
    assert_eq!(surface.on_open_agent_app(&vec![own, agent], 2), None);
}

#[test]
fn a_workspace_is_turned_once() {
    let mut workspace = AgentWorkspace { agent_mode: false };
    assert_eq!(workspace.apply_agent_surface(false), Surface::Home);
    assert!(workspace.agent_mode);
    assert_eq!(workspace.apply_agent_surface(true), Surface::Unchanged);
    let mut other = AgentWorkspace { agent_mode: false };
    assert_eq!(other.apply_agent_surface(true), Surface::Conversation);
    let mut window = AgentWindow { agent_app: false, sidebar_open: false };
    let mut fresh = AgentWorkspace { agent_mode: false };
    assert_eq!(configure_agent_mode(&mut window, &mut fresh, false), Surface::Home);
    assert!(window.agent_app && window.sidebar_open && fresh.agent_mode);
}

#[test]
fn the_panel_closes_with_its_last_pane() {
    let mut panel = VibedevAgentPanel::new(1);
    let remove = |focus_on_pane| PaneEvent::Remove { focus_on_pane };
    assert_eq!(panel.handle_pane_event(1, remove(None), 1, &vec![1]), PaneReaction::Close);
    assert_eq!(
        panel.handle_pane_event(1, remove(None), 3, &vec![2, 3]),
        PaneReaction::FocusPane { pane: 3 }
    );
    assert_eq!(
        panel.handle_pane_event(1, remove(Some(2)), 3, &vec![2, 3]),
        PaneReaction::FocusPane { pane: 2 }
    );
    assert_eq!(panel.handle_pane_event(1, remove(None), 0, &vec![]), PaneReaction::Nothing);
}

#[test]
fn panes_are_zoomed_split_and_focused() {
    let mut panel = VibedevAgentPanel::new(1);
    assert_eq!(
        panel.handle_pane_event(1, PaneEvent::ZoomIn, 2, &vec![]),
        PaneReaction::ZoomAll { zoomed: true }
    );
    assert_eq!(
        panel.handle_pane_event(1, PaneEvent::ZoomOut, 2, &vec![]),
        PaneReaction::ZoomAll { zoomed: false }
    );
    let split = |mode| PaneEvent::Split { direction: SplitDirection::Left, mode };
    assert_eq!(
        panel.handle_pane_event(1, split(SplitMode::MovePane), 2, &vec![]),
        PaneReaction::TakeItem { direction: SplitDirection::Left }
    );
    assert_eq!(
        panel.handle_pane_event(1, split(SplitMode::ClonePane), 2, &vec![]),
        PaneReaction::Nothing
    );
    assert_eq!(
        split_taken_item(SplitDirection::Left, true, true),
        PaneReaction::SplitOff { direction: SplitDirection::Left }
    );
    assert_eq!(split_taken_item(SplitDirection::Left, false, true), PaneReaction::Nothing);
    assert_eq!(panel.active_pane, 1);
    assert_eq!(panel.handle_pane_event(5, PaneEvent::Focus, 2, &vec![]), PaneReaction::Nothing);
    assert_eq!(panel.active_pane, 5);
    panel.set_active(true);
    assert!(panel.active);
    assert!(position_is_valid(DockPosition::Left) && !position_is_valid(DockPosition::Bottom));
}

fn project(path: &str, name: Option<&str>, is_remote: bool) -> RecentWorkspace {
    RecentWorkspace {
        identity_paths: vec![ProjectPath {
            path: path.to_string(),
            file_name: name.map(|n| n.to_string()),
        }],
        is_remote,
    }
}

#[test]
fn the_home_page_lists_a_few_projects() {
    let mut home = VibedevAgentHome::new();
    let empty = home.render();
    assert!(empty.recents.is_empty() && empty.heading.is_none());
    assert_eq!(empty.title, "VibeDev");
    assert_eq!(empty.hint, "Open a project to start a conversation");
    assert_eq!(empty.open_project.label, "Open Project");
    let mut recents: Vec<RecentWorkspace> = vec![
        project("/w/a", Some("a"), false),
        project("/", None, true),
        RecentWorkspace { identity_paths: vec![], is_remote: false },
    ];
    for _ in 0..9 {
        recents.push(project("/w/b", Some("b"), false));
    }
    home.recent_workspaces = Some(recents);
    assert_eq!(home.render().heading, Some("Recent Projects"));
    let rows = home.render().recents;
    assert_eq!(rows.len(), RECENT_LIMIT);
    assert_eq!((rows[0].name.as_str(), rows[0].path.as_str()), ("a", "/w/a"));
    assert_eq!(rows[0].symbol, ProjectSymbol::Folder);
    assert_eq!((rows[1].name.as_str(), rows[1].symbol), ("Project", ProjectSymbol::Server));
    assert_eq!((rows[2].name.as_str(), rows[2].path.as_str()), ("Project", ""));
    assert_eq!(open_recent(false, true), OpenRecent::InWindow);
    assert_eq!(open_recent(false, false), OpenRecent::Nothing);
    assert_eq!(open_recent(true, true), OpenRecent::FromList);
}

#[test]
fn the_home_page_shows_figures_to_signed_in_users() {
    let usage = || HomeUsage {
        tokens: "1.2M".to_string(),
        requests: "3".to_string(),
        cost: "$0.10".to_string(),
        latency: "120ms".to_string(),
    };
    let mut home = VibedevAgentHome::new();
    home.account = Some(HomeAccount { signed_in: false, usage: Some(usage()) });
    assert!(home.render().figures.is_none());
    home.account = Some(HomeAccount { signed_in: true, usage: None });
    assert!(home.render().figures.is_none());
    home.account = Some(HomeAccount { signed_in: true, usage: Some(usage()) });
    let figures = home.render().figures.unwrap();
    let shown: Vec<(&str, &str)> = figures.iter().map(|f| (f.label, f.value.as_str())).collect();
    assert_eq!(
        shown,
        vec![("Tokens", "1.2M"), ("Requests", "3"), ("Cost", "$0.10"), ("Latency", "120ms")]
    );
}

#[test]
fn the_account_is_asked_for_a_few_times() {
    assert_eq!(after_account_attempt(0, true), AccountStep::Show);
    assert_eq!(after_account_attempt(0, false), AccountStep::Retry { attempt: 1 });
    assert_eq!(after_account_attempt(ACCOUNT_ATTEMPTS - 1, false), AccountStep::GiveUp);
}

fn thread(id: Option<&str>, updated_at: i128, interacted_at: Option<i128>) -> ThreadMetadata {
    ThreadMetadata {
        session_id: id.map(|s| s.to_string()),
        title: id.unwrap_or("draft").to_string(),
        updated_at,
        interacted_at,
    }
}

#[test]
fn latest_conversation_comes_first() {
    let every = vec![
        thread(Some("old"), 10, None),
        thread(Some("used"), 1, Some(30)),
        thread(None, 20, None),
        thread(Some("same"), 10, None),
    ];
    let scoped = vec![thread(Some("here"), 1, None)];
    let open = || Folder { id: 1, path: "/w".to_string(), file_name: Some("w".to_string()) };
    let entries = VibedevSessionSidebar::new(Some(vec![])).session_entries(&scoped, &every);
    let titles: Vec<&str> = entries.iter().map(|e| e.title.as_str()).collect();
    assert_eq!(titles, vec!["used", "draft", "old", "same"]);
    let project = VibedevSessionSidebar::new(Some(vec![open()]));
    assert_eq!(project.session_entries(&scoped, &every).len(), 1);
    assert!(VibedevSessionSidebar::new(None).session_entries(&scoped, &every).is_empty());
    match render_session_list(&entries) {
        SessionList::Rows(rows) => {
            assert_eq!(rows[0].element_id, "vibedev-session-used");
            assert_eq!(rows[0].resumes.as_deref(), Some("used"));
            assert_eq!(rows[1].element_id, "vibedev-session-draft-1");
            assert_eq!(rows[1].resumes, None);
        }
        SessionList::Empty(_) => panic!("there are conversations"),
    }
    assert!(matches!(
        render_session_list(&vec![]),
        SessionList::Empty(label) if label == "No conversations yet"
    ));
}

#[test]
fn folders_are_listed_by_name() {
    let folders = vec![
        Folder { id: 7, path: "/w/a".to_string(), file_name: Some("a".to_string()) },
        Folder { id: 8, path: "/".to_string(), file_name: None },
    ];
    match VibedevSessionSidebar::new(Some(folders)).render_folders() {
        FolderList::Rows(rows) => {
            assert_eq!(rows[0].element_id, "vibedev-folder-7");
            assert_eq!(rows[0].remove_id, "vibedev-remove-folder-7");
            assert_eq!((rows[0].name.as_str(), rows[0].tooltip.as_str()), ("a", "/w/a"));
            assert_eq!(rows[1].name, "/");
            assert_eq!(rows[1].folder, 8);
        }
        FolderList::Empty(_) => panic!("there are folders"),
    }
    assert!(matches!(
        VibedevSessionSidebar::new(Some(vec![])).render_folders(),
        FolderList::Empty(label) if label == "No folder — add one"
    ));
    assert!(redraws(ProjectEvent::WorktreeAdded) && !redraws(ProjectEvent::Other));
}

#[test]
fn an_opened_conversation_stands_alone() {
    let bar = VibedevSessionSidebar::new(Some(vec![]));
    assert!(bar.can_open_conversation(true) && !bar.can_open_conversation(false));
    assert!(!VibedevSessionSidebar::new(None).can_open_conversation(true));
    assert_eq!(open_conversation(&vec![1, 2, 3], 2), vec![1, 3]);
    assert!(open_conversation(&vec![2], 2).is_empty());
}
