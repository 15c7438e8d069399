use vibedev::account::Endpoint;
use vibedev::launcher::{
    agent_file_name, agent_program, await_ready, configure_fim, configure_inline_assistant,
    health_timeout, health_url, kill_process_tree, kill_stray_agents, race_child_or_restart,
    AgentProgram, ReadyStep, RestartChannel, SuperviseAction, SuperviseEvent, Supervisor, Wait,
    HEALTH_POLL_MILLIS, RESTART_BACKOFF_MAX_MILLIS, RESTART_BACKOFF_MIN_MILLIS,
    SIDECAR_HEALTH_TIMEOUT_MILLIS, WATCH_MILLIS,
};

#[test]
fn restart_wins_over_pending_child() {
    let outcome = race_child_or_restart(None, RestartChannel::Queued);
    assert!(
        matches!(outcome, Some(Wait::RestartRequested)),
        "a queued restart signal must win over a never-exiting child"
    );
}

#[test]
fn exit_wins_when_no_restart_queued() {
    let outcome = race_child_or_restart(Some(false), RestartChannel::Empty);
    assert!(
        matches!(outcome, Some(Wait::Exited { .. })),
        "with no restart queued, the child-exit must win"
    );
}

#[test]
fn closed_channel_parks_instead_of_restarting() {
    let outcome = race_child_or_restart(None, RestartChannel::Closed);
    assert!(outcome.is_none(), "a closed restart channel must park, never resolve the race");
}

/// Goes through the actions until the exit is waited for.
fn run_to_exit(s: &mut Supervisor) {
    while s.action() != SuperviseAction::AwaitExit {
        s.supervise(SuperviseEvent::Done);
    }
}

/// The same, for a sidecar that is not ready in time.
fn run_to_exit_unready(s: &mut Supervisor) {
    while s.action() != SuperviseAction::AwaitExit {
        let event = match s.action() {
            SuperviseAction::AwaitReady(_) => SuperviseEvent::Failed,
            _ => SuperviseEvent::Done,
        };
        s.supervise(event);
    }
}

/// The pause that follows a crash.
fn pause_after_crash(s: &mut Supervisor) -> u64 {
    s.supervise(SuperviseEvent::Exited { success: false });
    match s.action() {
        SuperviseAction::Sleep(millis) => {
            s.supervise(SuperviseEvent::Done);
            millis
        }
        other => panic!("a pause follows a crash, not {other:?}"),
    }
}

#[test]
fn a_crash_is_followed_by_growing_pauses() {
    let mut s = Supervisor::new(SIDECAR_HEALTH_TIMEOUT_MILLIS);
    let mut pauses: Vec<u64> = Vec::new();
    for _ in 0..9 {
        run_to_exit_unready(&mut s);
        pauses.push(pause_after_crash(&mut s));
    }
    assert_eq!(pauses, vec![500, 1000, 2000, 4000, 8000, 16000, 30000, 30000, 30000]);
    assert_eq!((pauses[0], pauses[8]), (RESTART_BACKOFF_MIN_MILLIS, RESTART_BACKOFF_MAX_MILLIS));
    // once it was ready the pause is the shortest again
    run_to_exit(&mut s);
    assert_eq!(pause_after_crash(&mut s), RESTART_BACKOFF_MIN_MILLIS);
}

#[test]
fn a_requested_restart_does_not_pause() {
    let mut s = Supervisor::new(SIDECAR_HEALTH_TIMEOUT_MILLIS);
    run_to_exit(&mut s);
    s.supervise(SuperviseEvent::RestartRequested);
    let mut actions = vec![s.action()];
    while s.action() != SuperviseAction::Spawn {
        s.supervise(SuperviseEvent::Done);
        actions.push(s.action());
    }
    assert!(actions.contains(&SuperviseAction::KillAndReap));
    assert!(actions.contains(&SuperviseAction::ApplyStaged));
    assert!(!actions.iter().any(|a| matches!(a, SuperviseAction::Sleep(_))));
}

#[test]
fn a_clean_exit_only_watches() {
    let mut s = Supervisor::new(SIDECAR_HEALTH_TIMEOUT_MILLIS);
    run_to_exit(&mut s);
    s.supervise(SuperviseEvent::Exited { success: true });
    while !matches!(s.action(), SuperviseAction::Sleep(_)) {
        s.supervise(SuperviseEvent::Done);
    }
    assert_eq!(s.action(), SuperviseAction::Sleep(WATCH_MILLIS));
}

#[test]
fn readiness_is_waited_for() {
    assert_eq!(await_ready(true, true, 0, 5_000), ReadyStep::Ready);
    assert_eq!(await_ready(true, false, 0, 5_000), ReadyStep::Again(HEALTH_POLL_MILLIS));
    assert_eq!(await_ready(false, true, 5_000, 5_000), ReadyStep::TimedOut);
    assert!(health_timeout(true) > health_timeout(false));
    assert!(health_url(52001).starts_with("http://127.0.0.1:52001/"));
}

#[test]
fn the_program_depends_on_what_is_there() {
    assert_eq!(agent_file_name(true), "vibedev-agent.exe");
    assert_eq!(agent_file_name(false), "vibedev-agent");
    assert_eq!(agent_program(true, true), AgentProgram::Override);
    assert_eq!(agent_program(false, true), AgentProgram::Bundled);
    assert_eq!(agent_program(false, false), AgentProgram::Development);
    let (program, args) = kill_process_tree(4711, true);
    assert_eq!(program, "taskkill");
    assert!(args.contains(&"4711".to_string()));
    assert!(kill_stray_agents(false).is_none());
    assert!(kill_stray_agents(true).is_some());
}

#[test]
fn a_new_port_is_configured_once() {
    let endpoint = Endpoint { port: 52001, token: "t".to_string() };
    let mut port: Option<u16> = None;
    assert!(configure_fim(&mut port, Some(&endpoint)));
    assert!(!configure_fim(&mut port, Some(&endpoint)));
    assert!(!configure_fim(&mut port, None));
    assert_eq!(port, Some(52001));
    let mut configured: Option<(u16, usize)> = None;
    let models = vec!["m".to_string()];
    assert!(configure_inline_assistant(&mut configured, Some(&endpoint), &models));
    assert!(!configure_inline_assistant(&mut configured, Some(&endpoint), &models));
}
