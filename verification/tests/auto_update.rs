use vibedev::agent_stage::{
    bad_version_message, check_and_stage_agent_update, extract_args, first_step,
    missing_file_message, next_step, should_stage_agent, StageDecision, StageStep,
};
use vibedev::auto_update::{
    asset_query, check, may_poll, on_setting, pairs_of, release_asset_url, release_notes_url,
    AutoUpdateStatus, AutoUpdater, CheckAction, NoteChange, PollingChange, ReleaseAsset,
    ReleaseChannel, ReleaseNotes, Telemetry, UpdateCheckType, UpdateError, UpdateEvent,
    UpdateState, VersionCheckType, NIGHTLY_POLL_INTERVAL_SECS, POLL_INTERVAL_SECS,
    RELEASES_BASE,
};
use vibedev::version::Version;

fn with_build(build: &str) -> Version {
    let mut v = Version::new(1, 0, 0);
    v.build = build.to_string();
    v
}

fn newer(
    channel: ReleaseChannel,
    sha: Option<&str>,
    installed: Version,
    fetched: &str,
    status: AutoUpdateStatus,
) -> Option<VersionCheckType> {
    AutoUpdater::check_if_fetched_version_is_newer(
        channel,
        &sha.map(|s| s.to_string()),
        &installed,
        fetched,
        &status,
    )
    .unwrap()
}

fn updated_to(v: Version) -> AutoUpdateStatus {
    AutoUpdateStatus::Updated { version: VersionCheckType::Semantic(v) }
}

fn updated_to_sha(sha: &str) -> AutoUpdateStatus {
    AutoUpdateStatus::Updated { version: VersionCheckType::Sha(sha.to_string()) }
}

#[test]
fn test_stable_does_not_update_when_fetched_version_is_not_higher() {
    let r = newer(
        ReleaseChannel::Stable,
        Some("a"),
        Version::new(1, 0, 0),
        "1.0.0",
        AutoUpdateStatus::Idle,
    );
    assert_eq!(r, None);
}

#[test]
fn test_stable_does_update_when_fetched_version_is_higher() {
    let r = newer(
        ReleaseChannel::Stable,
        Some("a"),
        Version::new(1, 0, 0),
        "1.0.1",
        AutoUpdateStatus::Idle,
    );
    assert_eq!(r, Some(VersionCheckType::Semantic(Version::new(1, 0, 1))));
}

#[test]
fn test_stable_does_not_update_when_fetched_version_is_not_higher_than_cached() {
    let r = newer(
        ReleaseChannel::Stable,
        Some("a"),
        Version::new(1, 0, 0),
        "1.0.1",
        updated_to(Version::new(1, 0, 1)),
    );
    assert_eq!(r, None);
}

#[test]
fn test_stable_does_update_when_fetched_version_is_higher_than_cached() {
    let r = newer(
        ReleaseChannel::Stable,
        Some("a"),
        Version::new(1, 0, 0),
        "1.0.2",
        updated_to(Version::new(1, 0, 1)),
    );
    assert_eq!(r, Some(VersionCheckType::Semantic(Version::new(1, 0, 2))));
}

#[test]
fn test_nightly_does_not_update_when_fetched_sha_is_same() {
    let r = newer(
        ReleaseChannel::Nightly,
        Some("a"),
        with_build("a"),
        "1.0.0+a",
        AutoUpdateStatus::Idle,
    );
    assert_eq!(r, None);
}

#[test]
fn test_nightly_does_update_when_fetched_sha_is_not_same() {
    let r = newer(
        ReleaseChannel::Nightly,
        Some("a"),
        Version::new(1, 0, 0),
        "b",
        AutoUpdateStatus::Idle,
    );
    assert_eq!(r, Some(VersionCheckType::Sha("b".to_string())));
}

#[test]
fn test_nightly_does_not_update_when_fetched_version_is_same_as_cached() {
    let r = newer(
        ReleaseChannel::Nightly,
        Some("a"),
        with_build("a"),
        "1.0.0+b",
        updated_to_sha("b"),
    );
    assert_eq!(r, None);
}

#[test]
fn test_nightly_does_update_when_fetched_sha_is_not_same_as_cached() {
    let r = newer(
        ReleaseChannel::Nightly,
        Some("a"),
        with_build("a"),
        "1.0.0+c",
        updated_to_sha("b"),
    );
    assert_eq!(r, Some(VersionCheckType::Sha("1.0.0+c".to_string())));
}

#[test]
fn test_nightly_does_update_when_installed_versions_sha_cannot_be_retrieved() {
    let r = newer(
        ReleaseChannel::Nightly,
        None,
        Version::new(1, 0, 0),
        "a",
        AutoUpdateStatus::Idle,
    );
    assert_eq!(r, Some(VersionCheckType::Sha("a".to_string())));
}

#[test]
fn test_nightly_does_not_update_when_cached_update_is_same_as_fetched_and_installed_versions_sha_cannot_be_retrieved(
) {
    let r = newer(
        ReleaseChannel::Nightly,
        None,
        Version::new(1, 0, 0),
        "1.0.0+b",
        updated_to_sha("b"),
    );
    assert_eq!(r, None);
}

#[test]
fn test_nightly_does_update_when_cached_update_is_not_same_as_fetched_and_installed_versions_sha_cannot_be_retrieved(
) {
    let r = newer(
        ReleaseChannel::Nightly,
        None,
        Version::new(1, 0, 0),
        "c",
        updated_to_sha("b"),
    );
    assert_eq!(r, Some(VersionCheckType::Sha("c".to_string())));
}

#[test]
fn test_should_stage_agent_when_manifest_is_newer() {
    let manifest = Version::new(1, 0, 1);
    let local = Version::new(1, 0, 0);
    assert!(should_stage_agent(&manifest, Some(&local)));
}

#[test]
fn test_should_not_stage_agent_when_manifest_is_older() {
    let manifest = Version::new(1, 0, 0);
    let local = Version::new(1, 0, 1);
    assert!(!should_stage_agent(&manifest, Some(&local)));
}

#[test]
fn test_should_not_stage_agent_when_versions_are_equal() {
    let manifest = Version::new(1, 2, 3);
    let local = Version::new(1, 2, 3);
    assert!(!should_stage_agent(&manifest, Some(&local)));
}

#[test]
fn test_should_stage_agent_when_local_is_missing() {
    let manifest = Version::new(1, 0, 0);
    assert!(should_stage_agent(&manifest, None));
}

#[test]
fn test_should_stage_agent_when_local_is_unparseable() {
    let manifest = Version::new(1, 0, 0);
    let unparseable_local = Version::parse("not-a-semver");
    assert!(unparseable_local.is_none());
    assert!(should_stage_agent(&manifest, unparseable_local.as_ref()));
}

/// Goes on to the look at the published release.
fn up_to_release(updater: &mut AutoUpdater) -> UpdateState {
    let channel = Some(ReleaseChannel::Stable);
    let state = updater.begin_update();
    assert!(matches!(state, UpdateState::CheckingDependencies { .. }));
    let state = updater.update(channel, &None, state, UpdateEvent::Done);
    assert_eq!(updater.status(), AutoUpdateStatus::Checking);
    assert!(matches!(state, UpdateState::StagingAgent { .. }));
    let failed = UpdateEvent::Failed(UpdateError {
        missing_dependency: false,
        message: "agent".to_string(),
    });
    let state = updater.update(channel, &None, state, failed);
    assert!(matches!(state, UpdateState::FetchingRelease { .. }));
    state
}

fn published(version: &str) -> UpdateEvent {
    UpdateEvent::Published(version.to_string())
}

#[test]
fn test_auto_update_downloads() {
    let channel = Some(ReleaseChannel::Stable);
    let mut updater = AutoUpdater::new(Version::new(0, 100, 0));

    // the first poll finds the running version
    assert!(updater.poll(UpdateCheckType::Automatic));
    let state = up_to_release(&mut updater);
    let state = updater.update(channel, &None, state, published("0.100.0"));
    assert_eq!(state, UpdateState::Ended { installed: false, result: Ok(()) });
    updater.finish_poll(UpdateCheckType::Automatic, Ok(()));
    assert_eq!(updater.status(), AutoUpdateStatus::Idle);
    assert_eq!(updater.current_version(), Version::new(0, 100, 0));

    // the next one finds a release
    assert!(updater.poll(UpdateCheckType::Automatic));
    let state = up_to_release(&mut updater);
    let state = updater.update(channel, &None, state, published("0.100.1"));
    assert_eq!(
        updater.status(),
        AutoUpdateStatus::Downloading {
            version: VersionCheckType::Semantic(Version::new(0, 100, 1))
        }
    );
    let state = updater.update(channel, &None, state, UpdateEvent::Done);
    assert!(matches!(updater.status(), AutoUpdateStatus::Installing { .. }));
    let state = updater.update(channel, &None, state, UpdateEvent::Done);
    assert_eq!(state, UpdateState::Ended { installed: true, result: Ok(()) });
    updater.finish_poll(UpdateCheckType::Automatic, Ok(()));
    assert_eq!(
        updater.status(),
        AutoUpdateStatus::Updated {
            version: VersionCheckType::Semantic(Version::new(0, 100, 1))
        }
    );
    assert!(updater.status().is_updated());

    // what is in place stays shown
    assert!(updater.poll(UpdateCheckType::Automatic));
    let state = up_to_release(&mut updater);
    let state = updater.update(channel, &None, state, published("0.100.1"));
    assert_eq!(state, UpdateState::Ended { installed: false, result: Ok(()) });
    assert!(updater.status().is_updated());
}

#[test]
fn a_missing_program_is_told_unasked() {
    let error = || UpdateError { missing_dependency: true, message: "rsync".to_string() };
    let mut updater = AutoUpdater::new(Version::new(1, 0, 0));
    assert!(updater.poll(UpdateCheckType::Automatic));
    let state = updater.begin_update();
    let state = updater.update(None, &None, state, UpdateEvent::Failed(error()));
    assert_eq!(state, UpdateState::Ended { installed: false, result: Err(error()) });
    assert_eq!(updater.status(), AutoUpdateStatus::Idle);
    updater.finish_poll(UpdateCheckType::Automatic, Err(error()));
    assert_eq!(updater.status(), AutoUpdateStatus::Errored { error: "rsync".to_string() });
}

#[test]
fn a_failure_ends_an_update() {
    let error = || UpdateError { missing_dependency: false, message: "disk".to_string() };
    let ended = UpdateState::Ended { installed: false, result: Err(error()) };
    let mut updater = AutoUpdater::new(Version::new(1, 0, 0));
    // while the release is looked up
    let state = up_to_release(&mut updater);
    assert_eq!(updater.update(None, &None, state, UpdateEvent::Failed(error())), ended);
    // while it is downloaded
    let state = up_to_release(&mut updater);
    let state = updater.update(None, &None, state, published("1.0.1"));
    assert_eq!(updater.update(None, &None, state, UpdateEvent::Failed(error())), ended);
    // while it is installed
    let state = up_to_release(&mut updater);
    let state = updater.update(None, &None, state, published("1.0.1"));
    let state = updater.update(None, &None, state, UpdateEvent::Done);
    assert_eq!(updater.update(None, &None, state, UpdateEvent::Failed(error())), ended);
    // or where its version cannot be read
    let state = up_to_release(&mut updater);
    let state = updater.update(None, &None, state, published("latest"));
    assert!(matches!(
        state,
        UpdateState::Ended { installed: false, result: Err(e) } if e.message.contains("unexpected character 'l'")
    ));
}

#[test]
fn an_unreadable_stable_version_is_an_error() {
    let r = AutoUpdater::check_if_fetched_version_is_newer(
        ReleaseChannel::Stable,
        &None,
        &Version::new(1, 0, 0),
        "latest",
        &AutoUpdateStatus::Idle,
    );
    match r {
        Err(e) => assert_eq!(
            e.message,
            "unexpected character 'l' while parsing major version number"
        ),
        Ok(_) => panic!("no version was published"),
    }
    assert_eq!(Version::parse_strictly("1.2.3"), Ok(Version::new(1, 2, 3)));
}

#[test]
fn a_running_check_is_not_doubled() {
    let mut updater = AutoUpdater::new(Version::new(1, 0, 0));
    assert!(updater.poll(UpdateCheckType::Automatic));
    assert!(!updater.poll(UpdateCheckType::Manual));
    assert!(updater.update_check_type().is_manual());
    assert!(!UpdateCheckType::Automatic.is_manual());
}

#[test]
fn errors_are_shown_on_request_only() {
    let error = || UpdateError { missing_dependency: false, message: "offline".to_string() };
    let mut updater = AutoUpdater::new(Version::new(1, 0, 0));
    assert!(updater.poll(UpdateCheckType::Automatic));
    updater.finish_poll(UpdateCheckType::Automatic, Err(error()));
    assert_eq!(updater.status(), AutoUpdateStatus::Idle);
    assert!(!updater.dismiss());
    assert!(updater.poll(UpdateCheckType::Manual));
    updater.finish_poll(UpdateCheckType::Manual, Err(error()));
    assert_eq!(updater.status(), AutoUpdateStatus::Errored { error: "offline".to_string() });
    assert!(updater.dismiss());
    assert_eq!(updater.status(), AutoUpdateStatus::Idle);
}

#[test]
fn releases_come_from_our_own_server() {
    let query = asset_query(
        "vibedev agent",
        "linux",
        "x86_64",
        Some(Telemetry { metrics_id: Some("m&1".to_string()), system_id: None, is_staff: Some(false) }),
    );
    assert_eq!(
        pairs_of(&query),
        vec![
            ("asset".to_string(), "vibedev agent".to_string()),
            ("os".to_string(), "linux".to_string()),
            ("arch".to_string(), "x86_64".to_string()),
            ("metrics_id".to_string(), "m&1".to_string()),
            ("is_staff".to_string(), "false".to_string()),
        ]
    );
    let url = release_asset_url(ReleaseChannel::Stable, None, &query);
    assert_eq!(
        url,
        format!(
            "{RELEASES_BASE}/releases/stable/latest/asset?asset=vibedev+agent&os=linux&arch=x86_64&metrics_id=m%261&is_staff=false"
        )
    );
    let pinned = release_asset_url(
        ReleaseChannel::Preview,
        Some(&Version::new(1, 2, 3)),
        &asset_query("a", "o", "x", None),
    );
    assert!(pinned.starts_with(&format!("{RELEASES_BASE}/releases/preview/1.2.3/asset?")));
}

#[test]
fn polling_depends_on_the_channel() {
    assert!(!may_poll(false, None));
    assert!(!may_poll(true, None));
    assert!(!may_poll(false, Some(ReleaseChannel::Dev)));
    assert!(may_poll(false, Some(ReleaseChannel::Stable)));
    let updater = AutoUpdater::new(Version::new(1, 0, 0));
    let nightly = updater.start_polling(Some(ReleaseChannel::Nightly), true);
    assert_eq!(nightly.interval_secs, NIGHTLY_POLL_INTERVAL_SECS);
    assert!(nightly.cleans_up_first);
    let stable = updater.start_polling(Some(ReleaseChannel::Stable), false);
    assert_eq!(stable.interval_secs, POLL_INTERVAL_SECS);
    assert!(!stable.cleans_up_first);
    assert_eq!(updater.start_polling(None, false), stable);
    assert_eq!(on_setting(false, true), PollingChange::Start);
    assert_eq!(on_setting(true, false), PollingChange::Stop);
}

#[test]
fn a_check_that_cannot_be_made_says_so() {
    assert_eq!(check(Some("by apt".to_string()), None, true), CheckAction::Explain("by apt".to_string()));
    assert_eq!(check(None, Some(ReleaseChannel::Stable), true), CheckAction::Poll);
    assert_eq!(check(None, Some(ReleaseChannel::Stable), false), CheckAction::Unavailable);
    assert_eq!(check(None, Some(ReleaseChannel::Dev), true), CheckAction::Nothing);
}

#[test]
fn release_notes_belong_to_the_channel() {
    let notes = release_notes_url(Some(ReleaseChannel::Stable), Some(&Version::new(1, 2, 3)));
    assert!(matches!(notes, Some(ReleaseNotes::ServerPath(p)) if p.contains("1.2.3")));
    assert!(matches!(
        release_notes_url(Some(ReleaseChannel::Nightly), None),
        Some(ReleaseNotes::Url(_))
    ));
}

#[test]
fn the_notification_is_noted_and_forgotten() {
    let key = || "auto-updater-should-show-updated-notification".to_string();
    let updater = AutoUpdater::new(Version::new(1, 0, 0));
    assert_eq!(
        updater.set_should_show_update_notification(true),
        NoteChange::Write { key: key(), value: String::new() }
    );
    assert_eq!(
        updater.set_should_show_update_notification(false),
        NoteChange::Delete { key: key() }
    );
    assert!(updater.should_show_update_notification(&Some(String::new())));
    assert!(!updater.should_show_update_notification(&None));
}

fn asset(version: &str) -> ReleaseAsset {
    ReleaseAsset { version: version.to_string(), url: "https://x".to_string() }
}

#[test]
fn staging_is_decided_by_the_versions() {
    assert_eq!(
        check_and_stage_agent_update(true, Some(&asset("9.0.0")), &None),
        StageDecision::AlreadyStaged
    );
    assert_eq!(check_and_stage_agent_update(false, None, &None), StageDecision::NoAsset);
    assert_eq!(check_and_stage_agent_update(false, Some(&asset("x")), &None), StageDecision::BadVersion);
    assert_eq!(
        check_and_stage_agent_update(false, Some(&asset("1.1.0")), &Some("1.0.0\n".to_string())),
        StageDecision::Stage(Version::new(1, 1, 0))
    );
    assert_eq!(
        check_and_stage_agent_update(false, Some(&asset("1.1.0")), &Some("1.1.0".to_string())),
        StageDecision::UpToDate
    );
    assert_eq!(
        check_and_stage_agent_update(false, Some(&asset("1.1.0")), &Some("?".to_string())),
        StageDecision::Stage(Version::new(1, 1, 0))
    );
    assert_eq!(
        bad_version_message("a\"b"),
        "agent-OTA: bad manifest agent version \"a\\\"b\""
    );
}

/// The steps that staging takes where one of them fails.
fn steps(failing: Option<StageStep>) -> Vec<StageStep> {
    let mut step = first_step();
    let mut taken = vec![step];
    while !matches!(step, StageStep::Ended { .. }) {
        step = next_step(step, failing != Some(step));
        taken.push(step);
    }
    taken
}

#[test]
fn staging_clears_away_after_itself() {
    let good = steps(None);
    assert_eq!(good.len(), 10);
    assert_eq!(good[7], StageStep::Publish);
    assert_eq!(good[8], StageStep::CleanUp { failed: false });
    assert_eq!(good[9], StageStep::Ended { failed: false });
    for failing in &good[1..8] {
        let bad = steps(Some(*failing));
        let n = bad.len();
        assert_eq!(bad[n - 3], StageStep::CleanUp { failed: true });
        assert_eq!(bad[n - 2], StageStep::CleanPartial);
        assert_eq!(bad[n - 1], StageStep::Ended { failed: true });
    }
    // debris that cannot be removed does not stop it
    assert_eq!(steps(Some(StageStep::PreClean)), good);
    assert_eq!(missing_file_message("VERSION"), "agent-OTA: staged agent missing VERSION");
    assert_eq!(extract_args(), ["-xzf", "agent.dl.tar.gz", "-C", "agent.new.extract"].map(String::from).to_vec());
}
