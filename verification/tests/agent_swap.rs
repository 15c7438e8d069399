use vibedev::agent_swap::{
    advance, begin, SwapAction, SwapEvent, SwapOutcome, MOVE_ATTEMPTS, MOVE_RETRY_MILLIS,
};

/// A directory with a build: its VERSION file, and what tells it from another.
#[derive(Clone, Debug, PartialEq, Eq)]
struct Build {
    version: Option<String>,
    marker: String,
}

/// The directory of the program, in memory.
#[derive(Default)]
struct Root {
    agent: Option<Build>,
    agent_new: Option<Build>,
    agent_old: Option<Build>,
    /// How many times the agent's directory is still held open.
    locked: u32,
    /// The staged build cannot be moved in.
    move_in_fails: bool,
    /// The backup cannot be moved back.
    restore_fails: bool,
    /// The backup cannot be removed.
    remove_fails: bool,
    paused: Vec<u64>,
}

fn build(version: Option<&str>, tag: &str) -> Option<Build> {
    Some(Build { version: version.map(|v| v.to_string()), marker: tag.to_string() })
}

fn outcome(ok: bool) -> SwapEvent {
    if ok {
        SwapEvent::Done
    } else {
        SwapEvent::Failed
    }
}

impl Root {
    fn marker(&self) -> Option<&str> {
        self.agent.as_ref().map(|b| b.marker.as_str())
    }

    fn apply(&mut self) -> SwapOutcome {
        let (mut state, mut action) = begin();
        loop {
            let event = match action {
                SwapAction::Stop(end) => return end,
                SwapAction::Inspect => SwapEvent::Found {
                    agent: self.agent.is_some(),
                    pending: self.agent_new.is_some(),
                    backup: self.agent_old.is_some(),
                },
                SwapAction::ReadVersions => SwapEvent::Versions {
                    staged: self.agent_new.as_ref().and_then(|b| b.version.clone()),
                    current: self.agent.as_ref().and_then(|b| b.version.clone()),
                },
                SwapAction::RestoreBackup => {
                    if self.restore_fails {
                        SwapEvent::Failed
                    } else {
                        self.agent = self.agent_old.take();
                        SwapEvent::Done
                    }
                }
                SwapAction::RemoveBackup => {
                    if !self.remove_fails {
                        self.agent_old = None;
                    }
                    outcome(!self.remove_fails)
                }
                SwapAction::KillStrays => SwapEvent::Done,
                SwapAction::MoveOut => {
                    if self.locked > 0 {
                        self.locked -= 1;
                        SwapEvent::Failed
                    } else {
                        self.agent_old = self.agent.take();
                        SwapEvent::Done
                    }
                }
                SwapAction::Pause(millis) => {
                    self.paused.push(millis);
                    SwapEvent::Done
                }
                SwapAction::MoveIn => {
                    if self.move_in_fails {
                        SwapEvent::Failed
                    } else {
                        self.agent = self.agent_new.take();
                        SwapEvent::Done
                    }
                }
            };
            (state, action) = advance(state, &event);
        }
    }
}

#[test]
fn staged_newer_swaps_in_and_cleans_up() {
    let mut root = Root {
        agent: build(Some("1.0.0"), "OLD"),
        agent_new: build(Some("1.1.0"), "NEW"),
        ..Root::default()
    };
    root.apply();
    assert_eq!(root.marker(), Some("NEW"), "the staged (newer) dist must now be at agent/");
    assert!(root.agent_new.is_none(), "agent.new/ must be consumed by the swap");
    assert!(root.agent_old.is_none(), "agent.old/ must be deleted after a successful swap");
}

#[test]
fn staged_older_does_not_swap() {
    let mut root = Root {
        agent: build(Some("2.0.0"), "CURRENT"),
        agent_new: build(Some("1.0.0"), "STAGED_OLD"),
        ..Root::default()
    };
    root.apply();
    assert_eq!(root.marker(), Some("CURRENT"));
    assert!(root.agent_old.is_none(), "no backup should be created when no swap happens");
}

#[test]
fn staged_equal_does_not_swap() {
    let mut root = Root {
        agent: build(Some("1.2.3"), "CURRENT"),
        agent_new: build(Some("1.2.3"), "STAGED_EQUAL"),
        ..Root::default()
    };
    assert_eq!(root.apply(), SwapOutcome::NotNewer);
    assert_eq!(root.marker(), Some("CURRENT"));
}

#[test]
fn no_staged_dir_is_noop() {
    let mut root = Root { agent: build(Some("1.0.0"), "CURRENT"), ..Root::default() };
    assert_eq!(root.apply(), SwapOutcome::NothingStaged);
    assert_eq!(root.marker(), Some("CURRENT"));
    assert!(root.agent_old.is_none());
}

#[test]
fn crash_recovery_restores_backup() {
    let mut root = Root { agent_old: build(Some("1.0.0"), "RECOVERED"), ..Root::default() };
    root.apply();
    assert_eq!(root.marker(), Some("RECOVERED"));
    assert!(root.agent_old.is_none(), "agent.old/ must be consumed by the recovery rename");
}

#[test]
fn crash_recovery_then_applies_newer_stage() {
    let mut root = Root {
        agent_old: build(Some("1.0.0"), "RECOVERED"),
        agent_new: build(Some("1.1.0"), "NEW"),
        ..Root::default()
    };
    root.apply();
    assert_eq!(root.marker(), Some("NEW"));
    assert!(root.agent_new.is_none());
    assert!(root.agent_old.is_none());
}

#[test]
fn current_version_missing_treats_staged_as_newer() {
    let mut root = Root {
        agent: build(None, "OLD_NO_VERSION"),
        agent_new: build(Some("1.0.0"), "NEW"),
        ..Root::default()
    };
    root.apply();
    assert_eq!(root.marker(), Some("NEW"));
    assert!(root.agent_new.is_none());
    assert!(root.agent_old.is_none());
}

#[test]
fn staged_version_missing_aborts_swap() {
    let mut root = Root {
        agent: build(Some("1.0.0"), "CURRENT"),
        agent_new: build(None, "STAGED_NO_VERSION"),
        ..Root::default()
    };
    assert_eq!(root.apply(), SwapOutcome::StagedVersionUnknown);
    assert_eq!(root.marker(), Some("CURRENT"));
    assert!(root.agent_new.is_some(), "the unparseable stage is left in place");
    assert!(root.agent_old.is_none());
}

#[test]
fn stale_backup_is_cleared_then_swaps_in() {
    let mut root = Root {
        agent: build(Some("1.0.0"), "CURRENT"),
        agent_new: build(Some("1.1.0"), "NEW"),
        agent_old: build(Some("0.9.0"), "STALE_DEBRIS"),
        ..Root::default()
    };
    assert_eq!(root.apply(), SwapOutcome::Applied);
    assert_eq!(root.marker(), Some("NEW"));
    assert!(root.agent_new.is_none());
    assert!(root.agent_old.is_none());
}

#[test]
fn versions_are_trimmed() {
    let mut root = Root {
        agent: build(Some("1.0.0\n"), "OLD"),
        agent_new: build(Some(" 1.0.1 \r\n"), "NEW"),
        ..Root::default()
    };
    assert_eq!(root.apply(), SwapOutcome::Applied);
}

#[test]
fn a_lock_is_waited_for() {
    let mut root = Root {
        agent: build(Some("1.0.0"), "OLD"),
        agent_new: build(Some("1.1.0"), "NEW"),
        locked: MOVE_ATTEMPTS - 1,
        ..Root::default()
    };
    assert_eq!(root.apply(), SwapOutcome::Applied);
    assert_eq!(root.paused, vec![MOVE_RETRY_MILLIS; (MOVE_ATTEMPTS - 1) as usize]);
}

#[test]
fn a_lock_that_stays_keeps_the_agent() {
    let mut root = Root {
        agent: build(Some("1.0.0"), "OLD"),
        agent_new: build(Some("1.1.0"), "NEW"),
        locked: 1000,
        ..Root::default()
    };
    assert_eq!(root.apply(), SwapOutcome::AgentLocked);
    assert_eq!(root.marker(), Some("OLD"));
    assert!(root.agent_new.is_some());
}

#[test]
fn a_failed_move_in_is_rolled_back() {
    let mut root = Root {
        agent: build(Some("1.0.0"), "OLD"),
        agent_new: build(Some("1.1.0"), "NEW"),
        move_in_fails: true,
        ..Root::default()
    };
    assert_eq!(root.apply(), SwapOutcome::RolledBack);
    assert_eq!(root.marker(), Some("OLD"));
    assert!(root.agent_old.is_none());
    root.restore_fails = true;
    assert_eq!(root.apply(), SwapOutcome::RollbackFailed);
    assert!(root.agent.is_none());
    assert_eq!(root.agent_old.as_ref().map(|b| b.marker.as_str()), Some("OLD"));
    // a later launch recovers, or says that it cannot
    assert_eq!(root.apply(), SwapOutcome::RecoveryFailed);
    root.restore_fails = false;
    root.move_in_fails = false;
    assert_eq!(root.apply(), SwapOutcome::Applied);
    assert_eq!(root.marker(), Some("NEW"));
}

#[test]
fn a_stuck_backup_stops_the_swap() {
    let mut root = Root {
        agent: build(Some("1.0.0"), "OLD"),
        agent_new: build(Some("1.1.0"), "NEW"),
        agent_old: build(Some("0.9.0"), "STALE"),
        remove_fails: true,
        ..Root::default()
    };
    assert_eq!(root.apply(), SwapOutcome::BackupStuck);
    assert_eq!(root.marker(), Some("OLD"));
}
