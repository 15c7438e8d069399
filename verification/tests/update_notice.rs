use vibedev::update_notice::{should_show, AgentUpdateNotice};
use vibedev::version::Version;

#[test]
fn no_staged_version_never_shows() {
    assert!(!should_show(None, None));
    assert!(!should_show(None, Some(&Version::new(1, 0, 0))));
}

#[test]
fn first_staged_version_shows() {
    assert!(should_show(Some(&Version::new(1, 1, 0)), None));
}

#[test]
fn same_version_does_not_reshow() {
    let v = Version::new(1, 1, 0);
    assert!(!should_show(Some(&v), Some(&v)));
}

#[test]
fn newer_staged_version_shows_again() {
    let prev = Version::new(1, 1, 0);
    let next = Version::new(1, 2, 0);
    assert!(should_show(Some(&next), Some(&prev)));
}

#[test]
fn a_build_is_announced_once() {
    let mut notice = AgentUpdateNotice::new();
    let v = Version::new(1, 1, 0);
    assert!(!notice.maybe_show_agent_update_notice(None));
    assert!(notice.maybe_show_agent_update_notice(Some(&v)));
    assert!(!notice.maybe_show_agent_update_notice(Some(&v)));
    assert!(!notice.maybe_show_agent_update_notice(None));
    assert!(notice.maybe_show_agent_update_notice(Some(&Version::new(1, 2, 0))));
}
