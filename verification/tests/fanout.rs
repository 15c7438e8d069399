use vibedev::fanout::{
    SelectedSubagent, SubagentFanoutModel, SubagentProgress, SubagentStatus, SubagentStep,
};

#[test]
fn fanout_groups_by_subagent_and_marks_running() {
    let progresses = vec![
        SubagentProgress {
            subagent_id: "a".into(),
            agent_type: "Explore".into(),
            title: "UI".into(),
            status: SubagentStatus::Done,
            tokens_used: Some(52000),
            parent_id: None,
            step: None,
            tool_calls: Vec::new(),
            reply: None,
        },
        SubagentProgress {
            subagent_id: "b".into(),
            agent_type: "Explore".into(),
            title: "i18n".into(),
            status: SubagentStatus::Running,
            tokens_used: Some(44000),
            parent_id: None,
            step: Some(SubagentStep {
                label: "读 app_menus.rs".into(),
                sub: None,
                status: "running".into(),
                stream: Some("发现 About Zed…".into()),
            }),
            tool_calls: Vec::new(),
            reply: None,
        },
    ];
    let model = SubagentFanoutModel::from_entries(&progresses);
    assert_eq!(model.nodes.len(), 2);
    assert_eq!(model.running_count(), 1);
    assert!(model.node("b").unwrap().has_live_stream());
}

#[test]
fn same_subagent_id_collapses_to_latest() {
    let progresses = vec![
        SubagentProgress {
            subagent_id: "a".into(),
            agent_type: "Explore".into(),
            title: "UI".into(),
            status: SubagentStatus::Running,
            tokens_used: Some(1000),
            parent_id: None,
            step: None,
            tool_calls: Vec::new(),
            reply: None,
        },
        SubagentProgress {
            subagent_id: "a".into(),
            agent_type: "Explore".into(),
            title: "UI".into(),
            status: SubagentStatus::Done,
            tokens_used: Some(2000),
            parent_id: None,
            step: None,
            tool_calls: Vec::new(),
            reply: None,
        },
    ];
    let model = SubagentFanoutModel::from_entries(&progresses);
    assert_eq!(model.nodes.len(), 1);
    assert_eq!(model.running_count(), 0);
    assert_eq!(model.node("a").unwrap().status, SubagentStatus::Done);
    assert_eq!(model.node("a").unwrap().tokens_used, Some(2000));
}

#[test]
fn child_nodes_report_parentage_and_no_live_stream_when_done() {
    let progresses = vec![SubagentProgress {
        subagent_id: "child".into(),
        agent_type: "Code".into(),
        title: "patch".into(),
        status: SubagentStatus::Done,
        tokens_used: None,
        parent_id: Some("root".into()),
        step: Some(SubagentStep {
            label: "wrote file".into(),
            sub: None,
            status: "done".into(),
            stream: Some("…".into()),
        }),
        tool_calls: Vec::new(),
        reply: None,
    }];
    let model = SubagentFanoutModel::from_entries(&progresses);
    let node = model.node("child").unwrap();
    assert!(node.is_child());
    // Done node never reports a live stream even with a stream payload.
    assert!(!node.has_live_stream());
}

fn report(id: &str, title: &str) -> SubagentProgress {
    SubagentProgress {
        subagent_id: id.to_string(),
        agent_type: "t".to_string(),
        title: title.to_string(),
        status: SubagentStatus::Queued,
        tokens_used: None,
        parent_id: None,
        step: None,
        tool_calls: Vec::new(),
        reply: None,
    }
}

#[test]
fn subagents_keep_their_places() {
    let model = SubagentFanoutModel::from_entries(&[
        report("a", "1"),
        report("b", "2"),
        report("a", "3"),
        report("c", "4"),
        report("b", "5"),
    ]);
    let shown: Vec<(&str, &str)> =
        model.nodes.iter().map(|n| (n.subagent_id.as_str(), n.title.as_str())).collect();
    assert_eq!(shown, vec![("a", "3"), ("b", "5"), ("c", "4")]);
    assert_eq!(model.total_count(), 3);
    assert!(model.node("d").is_none());
    assert_eq!(SubagentFanoutModel::default().total_count(), 0);
}

#[test]
fn selection_is_what_was_set() {
    let mut selected = SelectedSubagent::default();
    assert_eq!(selected.get(), None);
    selected.set(Some("a".to_string()));
    assert_eq!(selected.get(), Some("a".to_string()));
    selected.set(None);
    assert_eq!(selected.get(), None);
}
