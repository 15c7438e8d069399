use vibedev::update_check::{after_poll, compare, LatestJson, UpdateStatus};
use vibedev::version::Version;

fn make_latest(version: &str) -> LatestJson {
    LatestJson {
        version: version.to_string(),
        released_at: None,
        download_url: format!("https://aitoken.bigopen.cn/downloads/VibeDev-{version}-x86_64.exe"),
        release_notes: Some("notes".into()),
    }
}

#[test]
fn newer_remote_surfaces_update() {
    let status = compare(&Version::new(1, 0, 0), &make_latest("1.5.0"));
    assert!(status.available);
    assert_eq!(status.latest_version.as_deref(), Some("1.5.0"));
    assert!(status.download_url.is_some());
}

#[test]
fn same_or_older_remote_is_silent() {
    let same = compare(&Version::new(1, 5, 0), &make_latest("1.5.0"));
    assert!(!same.available);
    let older = compare(&Version::new(1, 5, 0), &make_latest("1.4.9"));
    assert!(!older.available);
}

#[test]
fn invalid_remote_version_is_silent_not_panic() {
    let status = compare(
        &Version::new(1, 0, 0),
        &LatestJson {
            version: "not-a-version".into(),
            released_at: None,
            download_url: "x".into(),
            release_notes: None,
        },
    );
    assert!(!status.available);
}

#[test]
fn an_announcement_is_complete() {
    let mut latest = make_latest("1.5.0");
    latest.release_notes = None;
    let status = compare(&Version::new(1, 0, 0), &latest);
    assert!(status.available);
    assert_eq!(status.latest_version.as_deref(), Some("1.5.0"));
    assert!(status.download_url.is_some());
    assert_eq!(status.release_notes.as_deref(), Some(""));
    let status = compare(&Version::new(1, 0, 0), &make_latest("1.5.0"));
    assert_eq!(status.release_notes.as_deref(), Some("notes"));
}

#[test]
fn build_metadata_is_no_update() {
    let status = compare(&Version::new(1, 5, 0), &make_latest("1.5.0+build.7"));
    assert_eq!(status, UpdateStatus::default());
    let pre = compare(&Version::new(1, 5, 0), &make_latest("1.5.0-rc.1"));
    assert!(!pre.available);
}

#[test]
fn a_release_follows_its_candidates() {
    let candidate = Version::parse("1.5.0-rc").unwrap();
    assert!(compare(&candidate, &make_latest("1.5.0")).available);
    assert!(Version::new(1, 5, 0).newer_than(&candidate));
    assert!(!candidate.newer_than(&Version::new(1, 5, 0)));
    assert!(Version::new(1, 5, 0).outranks(&candidate));
    assert!(!candidate.outranks(&Version::new(1, 5, 0)));
}

#[test]
fn a_failed_poll_keeps_the_announcement() {
    let current = Version::new(1, 0, 0);
    let shown = compare(&current, &make_latest("1.5.0"));
    let kept = after_poll(shown, &current, None);
    assert!(kept.available);
    let gone = after_poll(kept, &current, Some(make_latest("0.9.0")));
    assert_eq!(gone, UpdateStatus::default());
}
