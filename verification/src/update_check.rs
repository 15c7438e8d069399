//! The passive update check: whether the published version is newer than the
//! running one.

use vstd::prelude::*;
use vstd::string::*;

use crate::lists;
use crate::version;
use crate::version::Version;

verus! {

/// Where the published version is described.
pub const LATEST_JSON_URL: &'static str = "https://aitoken.bigopen.cn/vibedev/latest.json";

/// How often it is looked up.
pub const UPDATE_CHECK_INTERVAL_SECS: u64 = 86_400;

/// What is published.
#[derive(Debug, PartialEq, Eq)]
pub struct LatestJson {
    pub version: String,
    pub released_at: Option<String>,
    pub download_url: String,
    pub release_notes: Option<String>,
}

/// What the panel shows of an update. The rest is there exactly where an update is
/// available.
#[derive(Debug, PartialEq, Eq)]
pub struct UpdateStatus {
    pub available: bool,
    pub latest_version: Option<String>,
    pub download_url: Option<String>,
    pub release_notes: Option<String>,
}

/// The status says that there is no update, and nothing else.
pub open spec fn is_silent(s: UpdateStatus) -> bool {
    !s.available && s.latest_version is None && s.download_url is None && s.release_notes is None
}

/// The status announces what is published; its notes are empty where none are.
pub open spec fn announces(s: UpdateStatus, latest: LatestJson) -> bool {
    &&& s.available
    &&& lists::text_of(s.latest_version) == Some(latest.version@)
    &&& lists::text_of(s.download_url) == Some(latest.download_url@)
    &&& lists::text_of(s.release_notes) == Some(
        match latest.release_notes {
            Some(notes) => notes@,
            None => ""@,
        },
    )
}

impl Default for UpdateStatus {
    fn default() -> (r: UpdateStatus)
        ensures
            is_silent(r),
    {
        UpdateStatus {
            available: false,
            latest_version: None,
            download_url: None,
            release_notes: None,
        }
    }
}

/// The published version outranks the running one. Build metadata does not count.
pub open spec fn is_update(running: version::VersionModel, published: Seq<char>) -> bool {
    match version::parsed_version(published) {
        Some(v) => version::higher(v, running),
        None => false,
    }
}

/// The status that follows from the published version, once that is parsed.
pub fn compare_parsed(current_version: &Version, parsed: Option<Version>, latest: &LatestJson) -> (r:
    UpdateStatus)
    ensures
        if parsed is Some && version::higher((parsed->0)@, current_version@) {
            announces(r, *latest)
        } else {
            is_silent(r)
        },
{
    match parsed {
        Some(v) => if v.outranks(current_version) {
            UpdateStatus {
                available: true,
                latest_version: Some(latest.version.clone()),
                download_url: Some(latest.download_url.clone()),
                release_notes: match &latest.release_notes {
                    Some(notes) => Some(notes.clone()),
                    None => Some("".to_owned()),
                },
            }
        } else {
            UpdateStatus::default()
        },
        None => UpdateStatus::default(),
    }
}

/// An update is announced exactly when the published version is a semantic
/// version that outranks the running one.
pub fn compare(current_version: &Version, latest: &LatestJson) -> (r: UpdateStatus)
    ensures
        if is_update(current_version@, latest.version@) {
            announces(r, *latest)
        } else {
            is_silent(r)
        },
{
    compare_parsed(current_version, Version::parse(latest.version.as_str()), latest)
}

/// The status after one look-up: what it found, or the status as it was where the
/// look-up failed.
pub fn after_poll(
    previous: UpdateStatus,
    current_version: &Version,
    fetched: Option<LatestJson>,
) -> (r: UpdateStatus)
    ensures
        match fetched {
            Some(latest) => if is_update(current_version@, latest.version@) {
                announces(r, latest)
            } else {
                is_silent(r)
            },
            None => r == previous,
        },
{
    match fetched {
        Some(latest) => compare(current_version, &latest),
        None => previous,
    }
}

/// Whether a version outranks another does not depend on the build metadata of either.
pub proof fn law_build_metadata_does_not_count(
    published: version::VersionModel,
    running: version::VersionModel,
    one: Seq<char>,
    other: Seq<char>,
)
    ensures
        version::higher(
            version::VersionModel { build: one, ..published },
            version::VersionModel { build: other, ..running },
        ) == version::higher(published, running),
{
}

/// A status tells the version, where to download it and the release notes exactly when
/// it announces an update.
pub proof fn law_announcement_is_all_or_nothing(s: UpdateStatus, latest: LatestJson)
    requires
        is_silent(s) || announces(s, latest),
    ensures
        s.available <==> s.latest_version is Some,
        s.available <==> s.download_url is Some,
        s.available <==> s.release_notes is Some,
{
}

/// What is published is announced, with its version, its address and its notes, where its
/// numbers are higher than those of the running version; where they are lower, or the
/// versions are the same, nothing is said.
pub proof fn law_higher_version_is_announced(
    s: UpdateStatus,
    latest: LatestJson,
    running: version::VersionModel,
    published: version::VersionModel,
)
    requires
        if is_update(running, latest.version@) {
            announces(s, latest)
        } else {
            is_silent(s)
        },
        version::parsed_version(latest.version@) == Some(published),
    ensures
        published.major > running.major || (published.major == running.major && (published.minor
            > running.minor || (published.minor == running.minor && published.patch
            > running.patch))) ==> s.available && (s.latest_version matches Some(v) && v@
            == latest.version@) && (s.download_url matches Some(u) && u@ == latest.download_url@)
            && (s.release_notes matches Some(n) && match latest.release_notes {
            Some(notes) => n@ == notes@,
            None => n@ == ""@,
        }),
        published.major < running.major || (published.major == running.major && (published.minor
            < running.minor || (published.minor == running.minor && published.patch
            < running.patch))) ==> !s.available && s.latest_version is None && s.download_url
            is None && s.release_notes is None,
        published.major == running.major && published.minor == running.minor && published.patch
            == running.patch && published.pre == running.pre ==> !s.available && s.latest_version
            is None,
{
}

/// A text that is no version is never announced.
pub proof fn law_unreadable_version_is_not_announced(
    s: UpdateStatus,
    latest: LatestJson,
    running: version::VersionModel,
)
    requires
        if is_update(running, latest.version@) {
            announces(s, latest)
        } else {
            is_silent(s)
        },
        version::parsed_version(latest.version@) is None,
    ensures
        !s.available,
{
}

} // verus!
