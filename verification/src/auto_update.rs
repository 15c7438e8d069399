//! Self-update: when to look for a release, which release is newer, and what the
//! updater shows of it.

use vstd::prelude::*;
use vstd::string::*;

use crate::lists;
use crate::text;
use crate::version;
use crate::version::Version;

verus! {

/// Where releases are published.
pub const RELEASES_BASE: &'static str = "https://aitoken.bigopen.cn/vibedev";

/// Where the history of unreleased builds is shown.
pub const COMMITS_URL: &'static str = "https://github.com/CrisLIUning/Vibedev-ide/commits/main/";

/// The key under which it is noted that an update is to be announced.
pub const SHOULD_SHOW_UPDATE_NOTIFICATION_KEY: &'static str = "auto-updater-should-show-updated-notification";

/// The time between two checks.
pub const POLL_INTERVAL_SECS: u64 = 3_600;

/// The same for nightly builds.
pub const NIGHTLY_POLL_INTERVAL_SECS: u64 = 900;

// ---------------------------------------------------------------------------
// Channels
// ---------------------------------------------------------------------------

/// The kind of build that runs.
#[derive(Clone, Copy, Debug, PartialEq, Eq, Structural)]
pub enum ReleaseChannel {
    Dev,
    Nightly,
    Preview,
    Stable,
}

pub open spec fn channel_name(channel: ReleaseChannel) -> Seq<char> {
    match channel {
        ReleaseChannel::Dev => "dev"@,
        ReleaseChannel::Nightly => "nightly"@,
        ReleaseChannel::Preview => "preview"@,
        ReleaseChannel::Stable => "stable"@,
    }
}

impl ReleaseChannel {
    /// The name of the channel in addresses.
    pub fn dev_name(self) -> (r: String)
        ensures
            r@ == channel_name(self),
    {
        match self {
            ReleaseChannel::Dev => "dev".to_owned(),
            ReleaseChannel::Nightly => "nightly".to_owned(),
            ReleaseChannel::Preview => "preview".to_owned(),
            ReleaseChannel::Stable => "stable".to_owned(),
        }
    }

    /// Whether builds of the channel look for updates.
    pub fn poll_for_updates(self) -> (r: bool)
        ensures
            r == (self != ReleaseChannel::Dev),
    {
        match self {
            ReleaseChannel::Dev => false,
            _ => true,
        }
    }
}

pub open spec fn polls(channel: Option<ReleaseChannel>) -> bool {
    channel is Some && channel->0 != ReleaseChannel::Dev
}

fn channel_polls(channel: Option<ReleaseChannel>) -> (r: bool)
    ensures
        r == polls(channel),
{
    match channel {
        Some(c) => c.poll_for_updates(),
        None => false,
    }
}

/// Whether the updater may poll at all: not where a package manager brings the
/// updates, and not in a build whose channel has none.
pub fn may_poll(managed_elsewhere: bool, channel: Option<ReleaseChannel>) -> (r: bool)
    ensures
        r == (!managed_elsewhere && polls(channel)),
{
    !managed_elsewhere && channel_polls(channel)
}

/// What a change of the settings means for polling.
#[derive(Clone, Copy, Debug, PartialEq, Eq, Structural)]
pub enum PollingChange {
    Start,
    Stop,
    Keep,
}

/// What the setting means for polling that is or is not going on.
pub open spec fn polling_change(polling: bool, auto_update: bool) -> PollingChange {
    if auto_update == polling {
        PollingChange::Keep
    } else if auto_update {
        PollingChange::Start
    } else {
        PollingChange::Stop
    }
}

/// What the setting means for polling that is or is not going on: it starts where
/// it is allowed and does not run, and stops where it is not allowed and runs.
pub fn on_setting(polling: bool, auto_update: bool) -> (r: PollingChange)
    ensures
        r == polling_change(polling, auto_update),
        r == (if auto_update && !polling {
            PollingChange::Start
        } else if !auto_update && polling {
            PollingChange::Stop
        } else {
            PollingChange::Keep
        }),
{
    if auto_update && !polling {
        PollingChange::Start
    } else if !auto_update && polling {
        PollingChange::Stop
    } else {
        PollingChange::Keep
    }
}

/// What follows when the user asks for a check.
#[derive(Debug, PartialEq, Eq)]
pub enum CheckAction {
    /// Say why updates come from elsewhere.
    Explain(String),
    Nothing,
    /// Check now.
    Poll,
    /// Say that this program is not updated.
    Unavailable,
}

/// What follows when the user asks for a check: the explanation of a package
/// manager comes first, then the channel, then whether there is an updater.
pub fn check(explanation: Option<String>, channel: Option<ReleaseChannel>, has_updater: bool) -> (r:
    CheckAction)
    ensures
        match explanation {
            Some(message) => r == CheckAction::Explain(message),
            None => r == (if !polls(channel) {
                CheckAction::Nothing
            } else if has_updater {
                CheckAction::Poll
            } else {
                CheckAction::Unavailable
            }),
        },
{
    match explanation {
        Some(message) => CheckAction::Explain(message),
        None => if !channel_polls(channel) {
            CheckAction::Nothing
        } else if has_updater {
            CheckAction::Poll
        } else {
            CheckAction::Unavailable
        },
    }
}

// ---------------------------------------------------------------------------
// Addresses
// ---------------------------------------------------------------------------

/// Where release notes are.
#[derive(Debug, PartialEq, Eq)]
pub enum ReleaseNotes {
    /// A path on the server.
    ServerPath(String),
    Url(String),
}

/// Where the release notes of the running version are: under its version without
/// suffixes for a released build, in the history for the others; nowhere where the
/// channel, or the version of a released build, is not known.
pub fn release_notes_url(channel: Option<ReleaseChannel>, running: Option<&Version>) -> (r: Option<
    ReleaseNotes,
>)
    ensures
        match channel {
            None => r is None,
            Some(c) => if c == ReleaseChannel::Stable || c == ReleaseChannel::Preview {
                match running {
                    None => r is None,
                    Some(v) => r matches Some(ReleaseNotes::ServerPath(p)) && p@ == "/releases/"@
                        + channel_name(c) + "/"@ + version::notation(version::bare(v@)),
                }
            } else {
                r matches Some(ReleaseNotes::Url(u)) && u@ == COMMITS_URL@
            },
        },
{
    match channel {
        None => None,
        Some(c) => match c {
            ReleaseChannel::Stable | ReleaseChannel::Preview => match running {
                None => None,
                Some(v) => {
                    let mut s = text::join("/releases/", c.dev_name().as_str());
                    s.append("/");
                    s.append(v.without_suffixes().to_text().as_str());
                    Some(ReleaseNotes::ServerPath(s))
                },
            },
            _ => Some(ReleaseNotes::Url(COMMITS_URL.to_owned())),
        },
    }
}

/// What a request for a release tells of itself.
#[derive(Debug, PartialEq, Eq)]
pub struct AssetQuery {
    pub asset: String,
    pub os: String,
    pub arch: String,
    pub metrics_id: Option<String>,
    pub system_id: Option<String>,
    pub is_staff: Option<bool>,
}

/// What the telemetry knows of an installation.
#[derive(Debug, PartialEq, Eq)]
pub struct Telemetry {
    pub metrics_id: Option<String>,
    pub system_id: Option<String>,
    pub is_staff: Option<bool>,
}

/// A published file.
#[derive(Debug, PartialEq, Eq)]
pub struct ReleaseAsset {
    pub version: String,
    pub url: String,
}

/// The query for an asset. Nothing is told of the installation where telemetry is
/// off.
pub fn asset_query(asset: &str, os: &str, arch: &str, telemetry: Option<Telemetry>) -> (r:
    AssetQuery)
    ensures
        r.asset@ == asset@,
        r.os@ == os@,
        r.arch@ == arch@,
        match telemetry {
            Some(t) => r.metrics_id == t.metrics_id && r.system_id == t.system_id && r.is_staff
                == t.is_staff,
            None => r.metrics_id is None && r.system_id is None && r.is_staff is None,
        },
{
    let (metrics_id, system_id, is_staff) = match telemetry {
        Some(t) => (t.metrics_id, t.system_id, t.is_staff),
        None => (None, None, None),
    };
    AssetQuery {
        asset: asset.to_owned(),
        os: os.to_owned(),
        arch: arch.to_owned(),
        metrics_id,
        system_id,
        is_staff,
    }
}

pub open spec fn optional_pair(name: Seq<char>, value: Option<Seq<char>>) -> Seq<
    (Seq<char>, Seq<char>),
> {
    match value {
        Some(v) => seq![(name, v)],
        None => Seq::empty(),
    }
}

pub open spec fn bool_text(b: Option<bool>) -> Option<Seq<char>> {
    match b {
        Some(b) => Some(
            if b {
                "true"@
            } else {
                "false"@
            },
        ),
        None => None,
    }
}

/// The names and values of a query, in order; what is not known is left out.
pub open spec fn query_pairs(q: AssetQuery) -> Seq<(Seq<char>, Seq<char>)> {
    seq![("asset"@, q.asset@), ("os"@, q.os@), ("arch"@, q.arch@)] + optional_pair(
        "metrics_id"@,
        lists::text_of(q.metrics_id),
    ) + optional_pair("system_id"@, lists::text_of(q.system_id)) + optional_pair(
        "is_staff"@,
        bool_text(q.is_staff),
    )
}

pub open spec fn pair_texts(pairs: Seq<(String, String)>) -> Seq<(Seq<char>, Seq<char>)> {
    pairs.map_values(|p: (String, String)| (p.0@, p.1@))
}

/// What `serde_urlencoded::to_string` makes of a list of names and values.
pub uninterp spec fn form_encoded(pairs: Seq<(Seq<char>, Seq<char>)>) -> Seq<char>;

/// The text stands for itself in an encoded query.
pub open spec fn is_unreserved(s: Seq<char>) -> bool {
    forall|i: int|
        0 <= i < s.len() ==> ('a' <= #[trigger] s[i] <= 'z' || 'A' <= s[i] <= 'Z' || '0' <= s[i]
            <= '9' || s[i] == '*' || s[i] == '-' || s[i] == '.' || s[i] == '_')
}

/// The names and values with an equals sign between them and ampersands between
/// the pairs.
pub open spec fn plainly_encoded(pairs: Seq<(Seq<char>, Seq<char>)>) -> Seq<char> {
    text::joined(
        pairs.map_values(|p: (Seq<char>, Seq<char>)| p.0 + seq!['='] + p.1),
        seq!['&'],
    )
}

/// `serde_urlencoded::to_string` of a list of pairs: the encoded query. How
/// characters are escaped is left to the crate; a list of texts that need no
/// escape is written plainly.
#[verifier::external_body]
fn encode_form(pairs: &Vec<(String, String)>) -> (r: String)
    ensures
        r@ == form_encoded(pair_texts(pairs@)),
        (forall|i: int|
            0 <= i < pairs@.len() ==> is_unreserved((#[trigger] pairs@[i]).0@) && is_unreserved(
                pairs@[i].1@,
            )) ==> r@ == plainly_encoded(pair_texts(pairs@)),
{
    serde_urlencoded::to_string(pairs).unwrap_or_default()
}

fn push_pair(out: &mut Vec<(String, String)>, name: &str, value: &str)
    ensures
        pair_texts(final(out)@) == pair_texts(old(out)@).push((name@, value@)),
{
    out.push((name.to_owned(), value.to_owned()));
    assert(pair_texts(out@) =~= pair_texts(old(out)@).push((name@, value@)));
}

/// The names and values of a query, in order.
pub fn pairs_of(q: &AssetQuery) -> (r: Vec<(String, String)>)
    ensures
        pair_texts(r@) == query_pairs(*q),
{
    let mut out: Vec<(String, String)> = Vec::new();
    push_pair(&mut out, "asset", q.asset.as_str());
    push_pair(&mut out, "os", q.os.as_str());
    push_pair(&mut out, "arch", q.arch.as_str());
    if let Some(v) = &q.metrics_id {
        push_pair(&mut out, "metrics_id", v.as_str());
    }
    if let Some(v) = &q.system_id {
        push_pair(&mut out, "system_id", v.as_str());
    }
    if let Some(b) = q.is_staff {
        if b {
            push_pair(&mut out, "is_staff", "true");
        } else {
            push_pair(&mut out, "is_staff", "false");
        }
    }
    assert(pair_texts(out@) =~= query_pairs(*q));
    out
}

/// The version in the address of a release: the version without suffixes, or the
/// latest one.
pub open spec fn wanted_version(v: Option<version::VersionModel>) -> Seq<char> {
    match v {
        Some(v) => version::notation(version::bare(v)),
        None => "latest"@,
    }
}

pub open spec fn version_model(v: Option<&Version>) -> Option<version::VersionModel> {
    match v {
        Some(v) => Some(v@),
        None => None,
    }
}

/// The address of a release, but for its query.
pub open spec fn release_path(channel: ReleaseChannel, v: Option<version::VersionModel>) -> Seq<
    char,
> {
    RELEASES_BASE@ + "/releases/"@ + channel_name(channel) + "/"@ + wanted_version(v) + "/asset?"@
}

/// The address at which a release is looked up.
pub fn release_asset_url(channel: ReleaseChannel, v: Option<&Version>, query: &AssetQuery) -> (r:
    String)
    ensures
        r@ == release_path(channel, version_model(v)) + form_encoded(query_pairs(*query)),
        (forall|i: int|
            0 <= i < query_pairs(*query).len() ==> is_unreserved(
                (#[trigger] query_pairs(*query)[i]).0,
            ) && is_unreserved(query_pairs(*query)[i].1)) ==> r@ == release_path(
            channel,
            version_model(v),
        ) + plainly_encoded(query_pairs(*query)),
{
    let pairs = pairs_of(query);
    let encoded = encode_form(&pairs);
    proof {
        if forall|i: int|
            0 <= i < query_pairs(*query).len() ==> is_unreserved(
                (#[trigger] query_pairs(*query)[i]).0,
            ) && is_unreserved(query_pairs(*query)[i].1) {
            assert forall|i: int| 0 <= i < pairs@.len() implies is_unreserved(
                (#[trigger] pairs@[i]).0@,
            ) && is_unreserved(pairs@[i].1@) by {
                assert(query_pairs(*query)[i] == (pairs@[i].0@, pairs@[i].1@));
            }
        }
    }
    let mut s = text::join(RELEASES_BASE, "/releases/");
    s.append(channel.dev_name().as_str());
    s.append("/");
    match v {
        Some(v) => {
            s.append(v.without_suffixes().to_text().as_str());
        },
        None => {
            s.append("latest");
        },
    }
    s.append("/asset?");
    s.append(encoded.as_str());
    s
}

/// Every release is looked up on the project's own server.
pub proof fn law_releases_come_from_own_server(
    channel: ReleaseChannel,
    v: Option<version::VersionModel>,
    query: Seq<char>,
)
    ensures
        text::begins_with(release_path(channel, v) + query, RELEASES_BASE@ + "/releases/"@),
{
    let s = release_path(channel, v) + query;
    let p = RELEASES_BASE@ + "/releases/"@;
    assert(s.take(p.len() as int) =~= p);
}

// ---------------------------------------------------------------------------
// Which release is newer
// ---------------------------------------------------------------------------

/// What identifies a downloaded release: the text that was fetched, for a nightly
/// build, or a version.
#[derive(Debug, PartialEq, Eq)]
pub enum VersionCheckType {
    Sha(String),
    Semantic(Version),
}

pub ghost enum CheckModel {
    Sha(Seq<char>),
    Semantic(version::VersionModel),
}

impl View for VersionCheckType {
    type V = CheckModel;

    open spec fn view(&self) -> CheckModel {
        match *self {
            VersionCheckType::Sha(s) => CheckModel::Sha(s@),
            VersionCheckType::Semantic(v) => CheckModel::Semantic(v@),
        }
    }
}

impl VersionCheckType {
    pub fn duplicate(&self) -> (r: VersionCheckType)
        ensures
            r@ == self@,
    {
        match self {
            VersionCheckType::Sha(s) => VersionCheckType::Sha(s.clone()),
            VersionCheckType::Semantic(v) => VersionCheckType::Semantic(v.duplicate()),
        }
    }

    pub fn same_as(&self, other: &VersionCheckType) -> (r: bool)
        ensures
            r == (self@ == other@),
    {
        match (self, other) {
            (VersionCheckType::Sha(a), VersionCheckType::Sha(b)) => text::same(
                a.as_str(),
                b.as_str(),
            ),
            (VersionCheckType::Semantic(a), VersionCheckType::Semantic(b)) => a.same_as(b),
            _ => false,
        }
    }
}

/// What the updater shows.
#[derive(Debug, PartialEq, Eq)]
pub enum AutoUpdateStatus {
    Idle,
    Checking,
    Downloading { version: VersionCheckType },
    Installing { version: VersionCheckType },
    Updated { version: VersionCheckType },
    Errored { error: String },
}

pub ghost enum StatusModel {
    Idle,
    Checking,
    Downloading(CheckModel),
    Installing(CheckModel),
    Updated(CheckModel),
    Errored(Seq<char>),
}

impl View for AutoUpdateStatus {
    type V = StatusModel;

    open spec fn view(&self) -> StatusModel {
        match *self {
            AutoUpdateStatus::Idle => StatusModel::Idle,
            AutoUpdateStatus::Checking => StatusModel::Checking,
            AutoUpdateStatus::Downloading { version } => StatusModel::Downloading(version@),
            AutoUpdateStatus::Installing { version } => StatusModel::Installing(version@),
            AutoUpdateStatus::Updated { version } => StatusModel::Updated(version@),
            AutoUpdateStatus::Errored { error } => StatusModel::Errored(error@),
        }
    }
}

impl AutoUpdateStatus {
    /// Whether an update is in place.
    pub fn is_updated(&self) -> (r: bool)
        ensures
            r == (self@ is Updated),
    {
        matches!(self, AutoUpdateStatus::Updated { .. })
    }

    pub fn duplicate(&self) -> (r: AutoUpdateStatus)
        ensures
            r@ == self@,
    {
        match self {
            AutoUpdateStatus::Idle => AutoUpdateStatus::Idle,
            AutoUpdateStatus::Checking => AutoUpdateStatus::Checking,
            AutoUpdateStatus::Downloading { version } => AutoUpdateStatus::Downloading {
                version: version.duplicate(),
            },
            AutoUpdateStatus::Installing { version } => AutoUpdateStatus::Installing {
                version: version.duplicate(),
            },
            AutoUpdateStatus::Updated { version } => AutoUpdateStatus::Updated {
                version: version.duplicate(),
            },
            AutoUpdateStatus::Errored { error } => AutoUpdateStatus::Errored {
                error: error.clone(),
            },
        }
    }

    /// Whether two statuses show the same; errors are the same where their texts
    /// are.
    pub fn same_as(&self, other: &AutoUpdateStatus) -> (r: bool)
        ensures
            r == (self@ == other@),
    {
        match (self, other) {
            (AutoUpdateStatus::Idle, AutoUpdateStatus::Idle) => true,
            (AutoUpdateStatus::Checking, AutoUpdateStatus::Checking) => true,
            (
                AutoUpdateStatus::Downloading { version: a },
                AutoUpdateStatus::Downloading { version: b },
            ) => a.same_as(b),
            (
                AutoUpdateStatus::Installing { version: a },
                AutoUpdateStatus::Installing { version: b },
            ) => a.same_as(b),
            (
                AutoUpdateStatus::Updated { version: a },
                AutoUpdateStatus::Updated { version: b },
            ) => a.same_as(b),
            (AutoUpdateStatus::Errored { error: a }, AutoUpdateStatus::Errored { error: b }) =>
                text::same(a.as_str(), b.as_str()),
            _ => false,
        }
    }
}

/// What follows the last dot of a text; the whole text where there is none.
pub open spec fn last_segment(s: Seq<char>) -> Seq<char>
    decreases s.len(),
{
    if s.len() == 0 || s.last() == '.' {
        Seq::empty()
    } else {
        last_segment(s.drop_last()).push(s.last())
    }
}

fn last_segment_is(s: &str, segment: &str) -> (r: bool)
    ensures
        r == (last_segment(s@) == segment@),
{
    let v = text::chars_of(s);
    let mut i: usize = v.len();
    assert(last_segment(v@.take(i as int)) + v@.skip(i as int) =~= last_segment(v@)) by {
        assert(v@.take(i as int) =~= v@);
    }
    while i > 0 && v[i - 1] != '.'
        invariant
            i <= v.len(),
            last_segment(v@) == last_segment(v@.take(i as int)) + v@.skip(i as int),
        decreases i,
    {
        let ghost t = v@.take(i as int);
        assert(t.drop_last() =~= v@.take(i - 1));
        assert(last_segment(t) + v@.skip(i as int) =~= last_segment(v@.take(i - 1)) + v@.skip(
            i - 1,
        ));
        i -= 1;
    }
    assert(last_segment(v@.take(i as int)) =~= Seq::empty());
    assert(last_segment(v@) =~= v@.skip(i as int));
    let tail = text::string_of(&v, i, v.len());
    assert(tail@ =~= v@.skip(i as int));
    text::same(tail.as_str(), segment)
}

/// A fetched version comes from another commit: it is no version, or the last
/// segment of its build metadata is not the commit.
pub open spec fn other_commit(parsed: Option<version::VersionModel>, sha: Seq<char>) -> bool {
    match parsed {
        Some(v) => last_segment(v.build) != sha,
        None => true,
    }
}

/// What a check of versions comes to: an error where the fetched text is no version
/// and one is needed.
pub ghost enum Verdict {
    Unreadable,
    UpToDate,
    Newer(CheckModel),
}

/// The fetched version against one that is in place: suffixes of the latter do not
/// count.
pub open spec fn by_version(
    in_place: version::VersionModel,
    parsed: Option<version::VersionModel>,
) -> Verdict {
    match parsed {
        None => Verdict::Unreadable,
        Some(v) => if version::newer(v, version::bare(in_place)) {
            Verdict::Newer(CheckModel::Semantic(v))
        } else {
            Verdict::UpToDate
        },
    }
}

/// The fetched version against a commit that is in place.
pub open spec fn by_commit(
    in_place: Seq<char>,
    parsed: Option<version::VersionModel>,
    fetched: Seq<char>,
) -> Verdict {
    if other_commit(parsed, in_place) {
        Verdict::Newer(CheckModel::Sha(fetched))
    } else {
        Verdict::UpToDate
    }
}

/// Whether a fetched version is newer: than an update that is in place already,
/// where there is one; else, on the nightly channel, than the running commit, which
/// counts as older where it is not known; else than the running version.
pub open spec fn verdict(
    channel: ReleaseChannel,
    sha: Option<Seq<char>>,
    installed: version::VersionModel,
    fetched: Seq<char>,
    parsed: Option<version::VersionModel>,
    status: StatusModel,
) -> Verdict {
    match status {
        StatusModel::Updated(CheckModel::Sha(cached)) => by_commit(cached, parsed, fetched),
        StatusModel::Updated(CheckModel::Semantic(cached)) => by_version(cached, parsed),
        _ => if channel == ReleaseChannel::Nightly {
            match sha {
                Some(s) => by_commit(s, parsed, fetched),
                None => Verdict::Newer(CheckModel::Sha(fetched)),
            }
        } else {
            by_version(installed, parsed)
        },
    }
}

/// The fetched text is no version.
#[derive(Debug, PartialEq, Eq)]
pub struct UnreadableVersion {
    /// What is wrong with it.
    pub message: String,
}

/// The result is what the verdict says; an error comes with this complaint.
pub open spec fn says(
    r: Result<Option<VersionCheckType>, UnreadableVersion>,
    v: Verdict,
    complaint: Seq<char>,
) -> bool {
    match v {
        Verdict::Unreadable => r matches Err(e) && e.message@ == complaint,
        Verdict::UpToDate => r matches Ok(None),
        Verdict::Newer(c) => r matches Ok(Some(x)) && x@ == c,
    }
}

pub open spec fn parsed_model(v: Option<Version>) -> Option<version::VersionModel> {
    match v {
        Some(v) => Some(v@),
        None => None,
    }
}

/// The version that was read, where one was.
pub open spec fn read_model(v: Result<Version, String>) -> Option<version::VersionModel> {
    match v {
        Ok(v) => Some(v@),
        Err(_) => None,
    }
}

/// What was said of a text that is no version.
pub open spec fn complaint_of(v: Result<Version, String>) -> Seq<char> {
    match v {
        Ok(_) => Seq::empty(),
        Err(m) => m@,
    }
}

fn check_commit(in_place: &str, parsed: &Result<Version, String>, fetched: &str) -> (r: Result<
    Option<VersionCheckType>,
    UnreadableVersion,
>)
    ensures
        says(r, by_commit(in_place@, read_model(*parsed), fetched@), complaint_of(*parsed)),
{
    let other = match parsed {
        Ok(v) => !last_segment_is(v.build.as_str(), in_place),
        Err(_) => true,
    };
    if other {
        Ok(Some(VersionCheckType::Sha(fetched.to_owned())))
    } else {
        Ok(None)
    }
}

impl AutoUpdater {
    /// Whether a fetched version is newer than one that is in place.
    pub fn check_if_fetched_version_is_newer_non_nightly(
        installed_version: &Version,
        fetched_version: Result<Version, String>,
    ) -> (r: Result<Option<VersionCheckType>, UnreadableVersion>)
        ensures
            says(
                r,
                by_version(installed_version@, read_model(fetched_version)),
                complaint_of(fetched_version),
            ),
    {
        match fetched_version {
            Err(message) => Err(UnreadableVersion { message }),
            Ok(v) => if v.newer_than(&installed_version.without_suffixes()) {
                Ok(Some(VersionCheckType::Semantic(v)))
            } else {
                Ok(None)
            },
        }
    }

    /// Whether a fetched version is newer, once it is parsed.
    pub fn newer_version(
        channel: ReleaseChannel,
        app_commit_sha: &Option<String>,
        installed_version: &Version,
        fetched_version: &str,
        parsed: Result<Version, String>,
        status: &AutoUpdateStatus,
    ) -> (r: Result<Option<VersionCheckType>, UnreadableVersion>)
        ensures
            says(
                r,
                verdict(
                    channel,
                    lists::text_of(*app_commit_sha),
                    installed_version@,
                    fetched_version@,
                    read_model(parsed),
                    status@,
                ),
                complaint_of(parsed),
            ),
    {
        if let AutoUpdateStatus::Updated { version } = status {
            return match version {
                VersionCheckType::Sha(cached) => check_commit(
                    cached.as_str(),
                    &parsed,
                    fetched_version,
                ),
                VersionCheckType::Semantic(cached) =>
                    AutoUpdater::check_if_fetched_version_is_newer_non_nightly(cached, parsed),
            };
        }
        match channel {
            ReleaseChannel::Nightly => match app_commit_sha {
                Some(sha) => check_commit(sha.as_str(), &parsed, fetched_version),
                None => Ok(Some(VersionCheckType::Sha(fetched_version.to_owned()))),
            },
            _ => AutoUpdater::check_if_fetched_version_is_newer_non_nightly(
                installed_version,
                parsed,
            ),
        }
    }

    /// Whether a fetched version is newer than what is in place.
    pub fn check_if_fetched_version_is_newer(
        channel: ReleaseChannel,
        app_commit_sha: &Option<String>,
        installed_version: &Version,
        fetched_version: &str,
        status: &AutoUpdateStatus,
    ) -> (r: Result<Option<VersionCheckType>, UnreadableVersion>)
        ensures
            says(
                r,
                verdict(
                    channel,
                    lists::text_of(*app_commit_sha),
                    installed_version@,
                    fetched_version@,
                    version::parsed_version(fetched_version@),
                    status@,
                ),
                version::parse_complaint(fetched_version@),
            ),
    {
        let parsed = Version::parse_strictly(fetched_version);
        AutoUpdater::newer_version(
            channel,
            app_commit_sha,
            installed_version,
            fetched_version,
            parsed,
            status,
        )
    }
}

// ---------------------------------------------------------------------------
// The updater
// ---------------------------------------------------------------------------

/// Who asked for a check.
#[derive(Clone, Copy, Debug, PartialEq, Eq, Structural)]
pub enum UpdateCheckType {
    Automatic,
    Manual,
}

impl UpdateCheckType {
    pub fn is_manual(self) -> (r: bool)
        ensures
            r == (self == UpdateCheckType::Manual),
    {
        match self {
            UpdateCheckType::Automatic => false,
            UpdateCheckType::Manual => true,
        }
    }
}

/// Why a check failed.
#[derive(Debug, PartialEq, Eq)]
pub struct UpdateError {
    /// A program that updates need is not installed.
    pub missing_dependency: bool,
    pub message: String,
}

pub ghost struct ErrorModel {
    pub missing_dependency: bool,
    pub message: Seq<char>,
}

impl View for UpdateError {
    type V = ErrorModel;

    open spec fn view(&self) -> ErrorModel {
        ErrorModel { missing_dependency: self.missing_dependency, message: self.message@ }
    }
}

/// The error of an outcome, where it is one.
pub open spec fn error_of(result: Result<(), UpdateError>) -> Option<ErrorModel> {
    match result {
        Ok(_) => None,
        Err(e) => Some(e@),
    }
}

/// The updater.
#[derive(Debug, PartialEq, Eq)]
pub struct AutoUpdater {
    pub status: AutoUpdateStatus,
    pub current_version: Version,
    /// A check is going on.
    pub polling: bool,
    pub update_check_type: UpdateCheckType,
    /// The version of the agent that was staged last.
    pub staged_agent_version: Option<Version>,
}

pub ghost struct UpdaterModel {
    pub status: StatusModel,
    pub current_version: version::VersionModel,
    pub polling: bool,
    pub update_check_type: UpdateCheckType,
    pub staged_agent_version: Option<version::VersionModel>,
}

impl View for AutoUpdater {
    type V = UpdaterModel;

    open spec fn view(&self) -> UpdaterModel {
        UpdaterModel {
            status: self.status@,
            current_version: self.current_version@,
            polling: self.polling,
            update_check_type: self.update_check_type,
            staged_agent_version: parsed_model(self.staged_agent_version),
        }
    }
}

/// The updater after a check is asked for: one that is going on is not doubled, and
/// only an automatic one takes on another kind.
pub open spec fn polled(u: UpdaterModel, check_type: UpdateCheckType) -> UpdaterModel {
    if u.polling {
        UpdaterModel {
            update_check_type: if u.update_check_type == UpdateCheckType::Automatic {
                check_type
            } else {
                u.update_check_type
            },
            ..u
        }
    } else {
        UpdaterModel { polling: true, update_check_type: check_type, ..u }
    }
}

/// The status after a failed check of a kind: an automatic one is quiet, unless a
/// program is missing.
pub open spec fn failed_status(check_type: UpdateCheckType, e: ErrorModel) -> StatusModel {
    if check_type == UpdateCheckType::Automatic && !e.missing_dependency {
        StatusModel::Idle
    } else {
        StatusModel::Errored(e.message)
    }
}

/// The updater after a check has ended.
pub open spec fn poll_ended(
    u: UpdaterModel,
    started_as: UpdateCheckType,
    error: Option<ErrorModel>,
) -> UpdaterModel {
    UpdaterModel {
        polling: false,
        status: match error {
            None => u.status,
            Some(e) => failed_status(started_as, e),
        },
        ..u
    }
}

/// The status after a look at the published release.
pub open spec fn looked_up(previous: StatusModel, v: Verdict) -> StatusModel {
    match v {
        Verdict::Newer(c) => StatusModel::Downloading(c),
        _ => if previous is Updated {
            previous
        } else {
            StatusModel::Idle
        },
    }
}

impl AutoUpdater {
    /// An updater that has done nothing yet.
    pub fn new(current_version: Version) -> (r: AutoUpdater)
        ensures
            r@ == (UpdaterModel {
                status: StatusModel::Idle,
                current_version: current_version@,
                polling: false,
                update_check_type: UpdateCheckType::Automatic,
                staged_agent_version: None,
            }),
    {
        AutoUpdater {
            status: AutoUpdateStatus::Idle,
            current_version,
            polling: false,
            update_check_type: UpdateCheckType::Automatic,
            staged_agent_version: None,
        }
    }

    pub fn status(&self) -> (r: AutoUpdateStatus)
        ensures
            r@ == self@.status,
    {
        self.status.duplicate()
    }

    pub fn current_version(&self) -> (r: Version)
        ensures
            r@ == self@.current_version,
    {
        self.current_version.duplicate()
    }

    pub fn update_check_type(&self) -> (r: UpdateCheckType)
        ensures
            r == self@.update_check_type,
    {
        self.update_check_type
    }

    /// The version of the agent that was staged last.
    pub fn staged_agent_version(&self) -> (r: Option<&Version>)
        ensures
            version_model(r) == self@.staged_agent_version,
    {
        match &self.staged_agent_version {
            Some(v) => Some(v),
            None => None,
        }
    }

    /// Records the version of an agent that was just staged.
    pub fn set_staged_agent_version(&mut self, v: Version)
        ensures
            final(self)@ == (UpdaterModel { staged_agent_version: Some(v@), ..old(self)@ }),
    {
        self.staged_agent_version = Some(v);
    }

    /// Asks for a check. The result tells whether one is to be started.
    pub fn poll(&mut self, check_type: UpdateCheckType) -> (r: bool)
        ensures
            final(self)@ == polled(old(self)@, check_type),
            r == !old(self)@.polling,
    {
        if self.polling {
            if !self.update_check_type.is_manual() {
                self.update_check_type = check_type;
            }
            return false;
        }
        self.update_check_type = check_type;
        self.polling = true;
        true
    }

    /// Takes the end of a check that was started as `started_as`.
    pub fn finish_poll(&mut self, started_as: UpdateCheckType, result: Result<(), UpdateError>)
        ensures
            final(self)@ == poll_ended(old(self)@, started_as, error_of(result)),
    {
        self.polling = false;
        if let Err(e) = result {
            if !started_as.is_manual() && !e.missing_dependency {
                self.status = AutoUpdateStatus::Idle;
            } else {
                self.status = AutoUpdateStatus::Errored { error: e.message };
            }
        }
    }

    /// Clears what is shown. The result tells whether there was anything.
    pub fn dismiss(&mut self) -> (r: bool)
        ensures
            final(self)@ == (UpdaterModel { status: StatusModel::Idle, ..old(self)@ }),
            r == !(old(self)@.status is Idle),
    {
        if matches!(self.status, AutoUpdateStatus::Idle) {
            return false;
        }
        self.status = AutoUpdateStatus::Idle;
        true
    }

    /// How often to poll on a channel, and whether to clear away first what an update
    /// has left behind.
    pub fn start_polling(&self, channel: Option<ReleaseChannel>, windows: bool) -> (r: Polling)
        ensures
            r.interval_secs == pause_between_polls(channel),
            r.interval_secs == (if channel == Some(ReleaseChannel::Nightly) {
                NIGHTLY_POLL_INTERVAL_SECS
            } else {
                POLL_INTERVAL_SECS
            }),
            r.cleans_up_first == windows,
    {
        Polling {
            interval_secs: match channel {
                Some(ReleaseChannel::Nightly) => NIGHTLY_POLL_INTERVAL_SECS,
                _ => POLL_INTERVAL_SECS,
            },
            cleans_up_first: windows,
        }
    }

    /// Notes that an update is to be announced, or no more.
    pub fn set_should_show_update_notification(&self, should_show: bool) -> (r: NoteChange)
        ensures
            match r {
                NoteChange::Write { key, value } => should_show && key@
                    == SHOULD_SHOW_UPDATE_NOTIFICATION_KEY@ && value@.len() == 0,
                NoteChange::Delete { key } => !should_show && key@
                    == SHOULD_SHOW_UPDATE_NOTIFICATION_KEY@,
            },
    {
        if should_show {
            NoteChange::Write {
                key: SHOULD_SHOW_UPDATE_NOTIFICATION_KEY.to_owned(),
                value: String::new(),
            }
        } else {
            NoteChange::Delete { key: SHOULD_SHOW_UPDATE_NOTIFICATION_KEY.to_owned() }
        }
    }

    /// Whether an update is to be announced, from what is noted.
    pub fn should_show_update_notification(&self, noted: &Option<String>) -> (r: bool)
        ensures
            r == noted is Some,
    {
        noted.is_some()
    }
}

/// What is done to the note that an update is to be announced.
#[derive(Debug, PartialEq, Eq)]
pub enum NoteChange {
    /// Write this value under this key.
    Write { key: String, value: String },
    /// Delete this key.
    Delete { key: String },
}

/// How polling goes on.
#[derive(Clone, Copy, Debug, PartialEq, Eq, Structural)]
pub struct Polling {
    /// The time between two checks.
    pub interval_secs: u64,
    /// Clear away first what an update has left behind.
    pub cleans_up_first: bool,
}

// ---------------------------------------------------------------------------
// An update, step by step
// ---------------------------------------------------------------------------

/// Where an update stands: the operation it waits for, with what was shown before it
/// began, or with the version that is coming.
#[derive(Debug, PartialEq, Eq)]
pub enum UpdateState {
    /// Tell whether what an update needs is installed.
    CheckingDependencies { previous: AutoUpdateStatus },
    /// Stage a newer agent, where there is one.
    StagingAgent { previous: AutoUpdateStatus },
    /// Look up the published release.
    FetchingRelease { previous: AutoUpdateStatus },
    /// Download it into a fresh directory.
    Downloading { version: VersionCheckType },
    /// Install the download, and note the program to restart with where it is another.
    Installing { version: VersionCheckType },
    /// The end. An update that was installed is to be announced.
    Ended { installed: bool, result: Result<(), UpdateError> },
}

/// What came of an operation.
#[derive(Debug, PartialEq, Eq)]
pub enum UpdateEvent {
    Done,
    /// This version is published.
    Published(String),
    Failed(UpdateError),
}

pub ghost enum UpdateStage {
    CheckingDependencies(StatusModel),
    StagingAgent(StatusModel),
    FetchingRelease(StatusModel),
    Downloading(CheckModel),
    Installing(CheckModel),
    Ended { installed: bool, error: Option<ErrorModel> },
}

pub ghost enum UpdateReply {
    Done,
    Published(Seq<char>),
    Failed(ErrorModel),
}

impl View for UpdateState {
    type V = UpdateStage;

    open spec fn view(&self) -> UpdateStage {
        match *self {
            UpdateState::CheckingDependencies { previous } => UpdateStage::CheckingDependencies(
                previous@,
            ),
            UpdateState::StagingAgent { previous } => UpdateStage::StagingAgent(previous@),
            UpdateState::FetchingRelease { previous } => UpdateStage::FetchingRelease(previous@),
            UpdateState::Downloading { version } => UpdateStage::Downloading(version@),
            UpdateState::Installing { version } => UpdateStage::Installing(version@),
            UpdateState::Ended { installed, result } => UpdateStage::Ended {
                installed,
                error: error_of(result),
            },
        }
    }
}

impl View for UpdateEvent {
    type V = UpdateReply;

    open spec fn view(&self) -> UpdateReply {
        match *self {
            UpdateEvent::Done => UpdateReply::Done,
            UpdateEvent::Published(v) => UpdateReply::Published(v@),
            UpdateEvent::Failed(e) => UpdateReply::Failed(e@),
        }
    }
}

/// The reply is one to the operation that the update waits for.
pub open spec fn fits(stage: UpdateStage, reply: UpdateReply) -> bool {
    match stage {
        UpdateStage::FetchingRelease(_) => reply is Published || reply is Failed,
        UpdateStage::Ended { .. } => false,
        _ => reply is Done || reply is Failed,
    }
}

pub open spec fn failed(e: ErrorModel) -> UpdateStage {
    UpdateStage::Ended { installed: false, error: Some(e) }
}

/// The updater, showing this.
pub open spec fn showing(u: UpdaterModel, status: StatusModel) -> UpdaterModel {
    UpdaterModel { status, ..u }
}

/// What follows a look at the published release: a newer one is downloaded; else an
/// update that is in place stays shown. A version that cannot be read ends the update.
pub open spec fn on_published(
    u: UpdaterModel,
    previous: StatusModel,
    v: Verdict,
    complaint: Seq<char>,
) -> (UpdaterModel, UpdateStage) {
    match v {
        Verdict::Unreadable => (
            u,
            failed(ErrorModel { missing_dependency: false, message: complaint }),
        ),
        Verdict::UpToDate => (
            showing(u, looked_up(previous, v)),
            UpdateStage::Ended { installed: false, error: None },
        ),
        Verdict::Newer(c) => (showing(u, looked_up(previous, v)), UpdateStage::Downloading(c)),
    }
}

/// The updater and the update after a reply. A failure ends the update, but for a
/// failure to stage an agent, which does not matter.
pub open spec fn stepped(
    u: UpdaterModel,
    channel: ReleaseChannel,
    sha: Option<Seq<char>>,
    stage: UpdateStage,
    reply: UpdateReply,
) -> (UpdaterModel, UpdateStage) {
    match (stage, reply) {
        (UpdateStage::StagingAgent(previous), _) => (u, UpdateStage::FetchingRelease(previous)),
        (_, UpdateReply::Failed(e)) => (u, failed(e)),
        (UpdateStage::CheckingDependencies(previous), _) => (
            showing(u, StatusModel::Checking),
            UpdateStage::StagingAgent(previous),
        ),
        (UpdateStage::FetchingRelease(previous), UpdateReply::Published(fetched)) => on_published(
            u,
            previous,
            verdict(
                channel,
                sha,
                u.current_version,
                fetched,
                version::parsed_version(fetched),
                previous,
            ),
            version::parse_complaint(fetched),
        ),
        (UpdateStage::Downloading(c), _) => (
            showing(u, StatusModel::Installing(c)),
            UpdateStage::Installing(c),
        ),
        (UpdateStage::Installing(c), _) => (
            showing(u, StatusModel::Updated(c)),
            UpdateStage::Ended { installed: true, error: None },
        ),
        _ => (u, stage),
    }
}

fn failure(e: UpdateError) -> (r: UpdateState)
    ensures
        r@ == failed(e@),
{
    UpdateState::Ended { installed: false, result: Err(e) }
}

impl AutoUpdater {
    /// The first operation of an update.
    pub fn begin_update(&self) -> (r: UpdateState)
        ensures
            r@ == UpdateStage::CheckingDependencies(self@.status),
    {
        UpdateState::CheckingDependencies { previous: self.status.duplicate() }
    }

    fn take_published(
        &mut self,
        channel: ReleaseChannel,
        app_commit_sha: &Option<String>,
        previous: AutoUpdateStatus,
        fetched: &str,
    ) -> (r: UpdateState)
        ensures
            (final(self)@, r@) == stepped(
                old(self)@,
                channel,
                lists::text_of(*app_commit_sha),
                UpdateStage::FetchingRelease(previous@),
                UpdateReply::Published(fetched@),
            ),
    {
        let found = AutoUpdater::check_if_fetched_version_is_newer(
            channel,
            app_commit_sha,
            &self.current_version,
            fetched,
            &previous,
        );
        match found {
            Err(e) => failure(UpdateError { missing_dependency: false, message: e.message }),
            Ok(None) => {
                self.status = if previous.is_updated() {
                    previous
                } else {
                    AutoUpdateStatus::Idle
                };
                UpdateState::Ended { installed: false, result: Ok(()) }
            },
            Ok(Some(version)) => {
                self.status = AutoUpdateStatus::Downloading { version: version.duplicate() };
                UpdateState::Downloading { version }
            },
        }
    }

    /// Takes what came of the operation, and goes on. A build whose channel is not known
    /// counts as stable.
    pub fn update(
        &mut self,
        channel: Option<ReleaseChannel>,
        app_commit_sha: &Option<String>,
        state: UpdateState,
        event: UpdateEvent,
    ) -> (r: UpdateState)
        requires
            fits(state@, event@),
        ensures
            (final(self)@, r@) == stepped(
                old(self)@,
                match channel {
                    Some(c) => c,
                    None => ReleaseChannel::Stable,
                },
                lists::text_of(*app_commit_sha),
                state@,
                event@,
            ),
    {
        let channel = match channel {
            Some(c) => c,
            None => ReleaseChannel::Stable,
        };
        match state {
            UpdateState::StagingAgent { previous } => UpdateState::FetchingRelease { previous },
            UpdateState::CheckingDependencies { previous } => match event {
                UpdateEvent::Failed(e) => failure(e),
                _ => {
                    self.status = AutoUpdateStatus::Checking;
                    UpdateState::StagingAgent { previous }
                },
            },
            UpdateState::FetchingRelease { previous } => match event {
                UpdateEvent::Failed(e) => failure(e),
                UpdateEvent::Published(fetched) => self.take_published(
                    channel,
                    app_commit_sha,
                    previous,
                    fetched.as_str(),
                ),
                UpdateEvent::Done => UpdateState::FetchingRelease { previous },
            },
            UpdateState::Downloading { version } => match event {
                UpdateEvent::Failed(e) => failure(e),
                _ => {
                    self.status = AutoUpdateStatus::Installing { version: version.duplicate() };
                    UpdateState::Installing { version }
                },
            },
            UpdateState::Installing { version } => match event {
                UpdateEvent::Failed(e) => failure(e),
                _ => {
                    self.status = AutoUpdateStatus::Updated { version };
                    UpdateState::Ended { installed: true, result: Ok(()) }
                },
            },
            UpdateState::Ended { installed, result } => UpdateState::Ended { installed, result },
        }
    }
}

// ---------------------------------------------------------------------------
// Laws
// ---------------------------------------------------------------------------

/// A check that is going on is never doubled, and a manual one stays manual.
pub proof fn law_running_check_is_not_doubled(u: UpdaterModel, check_type: UpdateCheckType)
    requires
        u.polling,
    ensures
        polled(u, check_type).polling,
        polled(u, check_type).status == u.status,
        u.update_check_type == UpdateCheckType::Manual ==> polled(u, check_type) == u,
        check_type == UpdateCheckType::Manual ==> polled(u, check_type).update_check_type
            == UpdateCheckType::Manual,
{
}

/// A release that was installed under a version without suffixes is not downloaded
/// again while nothing else is published.
pub proof fn law_release_is_not_downloaded_twice(
    channel: ReleaseChannel,
    sha: Option<Seq<char>>,
    installed: version::VersionModel,
    fetched: Seq<char>,
    v: version::VersionModel,
    previous: StatusModel,
)
    requires
        version::bare(v) == v,
        verdict(channel, sha, installed, fetched, Some(v), previous) == Verdict::Newer(
            CheckModel::Semantic(v),
        ),
    ensures
        verdict(
            channel,
            sha,
            installed,
            fetched,
            Some(v),
            StatusModel::Updated(CheckModel::Semantic(v)),
        ) == Verdict::UpToDate,
        looked_up(
            StatusModel::Updated(CheckModel::Semantic(v)),
            verdict(
                channel,
                sha,
                installed,
                fetched,
                Some(v),
                StatusModel::Updated(CheckModel::Semantic(v)),
            ),
        ) == StatusModel::Updated(CheckModel::Semantic(v)),
{
}

/// On every channel but the nightly one, a version whose numbers are lower than
/// those in place, or the same and without suffixes, is never downloaded.
pub proof fn law_lower_version_is_not_downloaded(
    channel: ReleaseChannel,
    sha: Option<Seq<char>>,
    installed: version::VersionModel,
    fetched: Seq<char>,
    v: version::VersionModel,
    previous: StatusModel,
)
    requires
        channel != ReleaseChannel::Nightly,
        !(previous is Updated),
        version::number_order(v, installed) == version::Order::Less || v == version::bare(
            installed,
        ),
    ensures
        verdict(channel, sha, installed, fetched, Some(v), previous) == Verdict::UpToDate,
{
}

/// An update whose dependencies are missing changes nothing that is shown; the end of
/// the check tells what is missing, even where nobody asked for the check.
pub proof fn law_missing_dependency_is_told(
    u: UpdaterModel,
    channel: ReleaseChannel,
    sha: Option<Seq<char>>,
    message: Seq<char>,
    started_as: UpdateCheckType,
)
    ensures
        ({
            let e = ErrorModel { missing_dependency: true, message };
            let (after, end) = stepped(
                u,
                channel,
                sha,
                UpdateStage::CheckingDependencies(u.status),
                UpdateReply::Failed(e),
            );
            &&& after == u
            &&& end == failed(e)
            &&& poll_ended(after, started_as, Some(e)).status == StatusModel::Errored(message)
        }),
{
}

/// Whatever comes of staging an agent, the update goes on as if nothing had happened.
pub proof fn law_agent_does_not_hold_up_update(
    u: UpdaterModel,
    channel: ReleaseChannel,
    sha: Option<Seq<char>>,
    previous: StatusModel,
    reply: UpdateReply,
)
    ensures
        stepped(u, channel, sha, UpdateStage::StagingAgent(previous), reply) == (
            u,
            UpdateStage::FetchingRelease(previous),
        ),
{
}

/// A newer release that is downloaded and installed is shown as such, and its version
/// is the one that the next check compares with.
pub proof fn law_newer_release_is_installed(
    u: UpdaterModel,
    channel: ReleaseChannel,
    sha: Option<Seq<char>>,
    previous: StatusModel,
    fetched: Seq<char>,
    c: CheckModel,
)
    requires
        verdict(
            channel,
            sha,
            u.current_version,
            fetched,
            version::parsed_version(fetched),
            previous,
        ) == Verdict::Newer(c),
    ensures
        ({
            let (u1, s1) = stepped(
                u,
                channel,
                sha,
                UpdateStage::FetchingRelease(previous),
                UpdateReply::Published(fetched),
            );
            let (u2, s2) = stepped(u1, channel, sha, s1, UpdateReply::Done);
            let (u3, s3) = stepped(u2, channel, sha, s2, UpdateReply::Done);
            &&& u1.status == StatusModel::Downloading(c)
            &&& u2.status == StatusModel::Installing(c)
            &&& u3 == showing(u, StatusModel::Updated(c))
            &&& s3 == (UpdateStage::Ended { installed: true, error: None })
        }),
{
}

/// Nothing is shown as updated but by an installation that has ended well, or because
/// it was before.
pub proof fn law_only_installations_update(
    u: UpdaterModel,
    channel: ReleaseChannel,
    sha: Option<Seq<char>>,
    stage: UpdateStage,
    reply: UpdateReply,
)
    requires
        fits(stage, reply),
        stepped(u, channel, sha, stage, reply).0.status is Updated,
    ensures
        ({
            let status = stepped(u, channel, sha, stage, reply).0.status;
            ||| status == u.status
            ||| stage matches UpdateStage::FetchingRelease(previous) && status == previous
            ||| stage matches UpdateStage::Installing(c) && reply is Done && status
                == StatusModel::Updated(c)
        }),
{
}

/// On every channel but the nightly one, a published version with higher numbers than the
/// running one is downloaded; suffixes of the running version do not matter.
pub proof fn law_higher_release_is_downloaded(
    u: UpdaterModel,
    channel: ReleaseChannel,
    sha: Option<Seq<char>>,
    previous: StatusModel,
    fetched: Seq<char>,
    v: version::VersionModel,
)
    requires
        channel != ReleaseChannel::Nightly,
        !(previous is Updated),
        version::parsed_version(fetched) == Some(v),
        v.major > u.current_version.major || (v.major == u.current_version.major && (v.minor
            > u.current_version.minor || (v.minor == u.current_version.minor && v.patch
            > u.current_version.patch))),
    ensures
        verdict(channel, sha, u.current_version, fetched, Some(v), previous) == Verdict::Newer(
            CheckModel::Semantic(v),
        ),
        stepped(
            u,
            channel,
            sha,
            UpdateStage::FetchingRelease(previous),
            UpdateReply::Published(fetched),
        ) == (
            UpdaterModel { status: StatusModel::Downloading(CheckModel::Semantic(v)), ..u },
            UpdateStage::Downloading(CheckModel::Semantic(v)),
        ),
{
}

/// Where an update with a version is in place, that version is the measure on every
/// channel, whatever is running: higher numbers are downloaded, lower ones and the same
/// ones without suffixes are not.
pub proof fn law_update_in_place_is_the_measure(
    channel: ReleaseChannel,
    sha: Option<Seq<char>>,
    installed: version::VersionModel,
    fetched: Seq<char>,
    v: version::VersionModel,
    in_place: version::VersionModel,
)
    ensures
        ({
            let found = verdict(
                channel,
                sha,
                installed,
                fetched,
                Some(v),
                StatusModel::Updated(CheckModel::Semantic(in_place)),
            );
            let higher = v.major > in_place.major || (v.major == in_place.major && (v.minor
                > in_place.minor || (v.minor == in_place.minor && v.patch > in_place.patch)));
            let lower = v.major < in_place.major || (v.major == in_place.major && (v.minor
                < in_place.minor || (v.minor == in_place.minor && v.patch < in_place.patch)));
            let plain = v.pre.len() == 0 && v.build.len() == 0;
            &&& higher ==> found == Verdict::Newer(CheckModel::Semantic(v))
            &&& lower || (!higher && plain) ==> found == Verdict::UpToDate
        }),
{
    if v.major == in_place.major && v.minor == in_place.minor && v.patch == in_place.patch
        && v.pre.len() == 0 && v.build.len() == 0 {
        assert(v.pre =~= Seq::empty());
        assert(v.build =~= Seq::empty());
        assert(v == version::bare(in_place));
    }
}

/// On every channel but the nightly one, a running version is not replaced by lower
/// numbers, nor by its own without suffixes, and a text that is no version is an error.
pub proof fn law_running_version_is_the_measure(
    u: UpdaterModel,
    channel: ReleaseChannel,
    sha: Option<Seq<char>>,
    previous: StatusModel,
    fetched: Seq<char>,
)
    requires
        channel != ReleaseChannel::Nightly,
        !(previous is Updated),
    ensures
        ({
            let (after, stage) = stepped(
                u,
                channel,
                sha,
                UpdateStage::FetchingRelease(previous),
                UpdateReply::Published(fetched),
            );
            match version::parsed_version(fetched) {
                None => after == u && stage == (UpdateStage::Ended {
                    installed: false,
                    error: Some(
                        ErrorModel {
                            missing_dependency: false,
                            message: version::parse_complaint(fetched),
                        },
                    ),
                }),
                Some(v) => {
                    let c = u.current_version;
                    let lower = v.major < c.major || (v.major == c.major && (v.minor < c.minor || (
                    v.minor == c.minor && v.patch < c.patch)));
                    let same = v.major == c.major && v.minor == c.minor && v.patch == c.patch
                        && v.pre.len() == 0 && v.build.len() == 0;
                    lower || same ==> after == (UpdaterModel { status: StatusModel::Idle, ..u })
                        && stage == (UpdateStage::Ended { installed: false, error: None })
                },
            }
        }),
{
    if version::parsed_version(fetched) is Some {
        let v = version::parsed_version(fetched)->0;
        if v.pre.len() == 0 && v.build.len() == 0 {
            assert(v.pre =~= Seq::empty());
            assert(v.build =~= Seq::empty());
        }
    }
}

proof fn lemma_last_segment(front: Seq<char>, s: Seq<char>)
    requires
        front.len() == 0 || front.last() == '.',
        forall|i: int| 0 <= i < s.len() ==> s[i] != '.',
    ensures
        last_segment(front + s) == s,
    decreases s.len(),
{
    let all = front + s;
    if s.len() == 0 {
        assert(all =~= front);
        assert(s =~= Seq::empty());
    } else {
        assert(all.last() == s[s.len() - 1]);
        assert(all.drop_last() =~= front + s.drop_last());
        lemma_last_segment(front, s.drop_last());
        assert(s.drop_last().push(s.last()) =~= s);
    }
}

/// A nightly build is compared by commits: one whose build metadata ends in the running
/// commit, or in that of an update in place, is not downloaded; one that ends in another
/// is, and so is a text that is no version. Where the running commit is not known, any is.
pub proof fn law_nightly_builds_are_told_apart_by_commit(
    installed: version::VersionModel,
    fetched: Seq<char>,
    parsed: Option<version::VersionModel>,
    front: Seq<char>,
    theirs: Seq<char>,
    ours: Seq<char>,
    channel: ReleaseChannel,
    previous: StatusModel,
)
    requires
        front.len() == 0 || front.last() == '.',
        forall|i: int| 0 <= i < theirs.len() ==> theirs[i] != '.',
        parsed matches Some(v) ==> v.build == front + theirs,
        !(previous is Updated),
    ensures
        ({
            let nightly = verdict(
                ReleaseChannel::Nightly,
                Some(ours),
                installed,
                fetched,
                parsed,
                previous,
            );
            let in_place = verdict(
                channel,
                Some(theirs),
                installed,
                fetched,
                parsed,
                StatusModel::Updated(CheckModel::Sha(ours)),
            );
            &&& nightly == in_place
            &&& nightly == (if parsed is Some && theirs == ours {
                Verdict::UpToDate
            } else {
                Verdict::Newer(CheckModel::Sha(fetched))
            })
            &&& verdict(ReleaseChannel::Nightly, None, installed, fetched, parsed, previous)
                == Verdict::Newer(CheckModel::Sha(fetched))
        }),
{
    lemma_last_segment(front, theirs);
}

/// An update goes through its steps in order. A failure of any step but the staging of an
/// agent ends it with that error, with nothing installed and nothing shown anew; and
/// nothing but an installation that has ended well counts as installed.
pub proof fn law_update_goes_step_by_step(
    u: UpdaterModel,
    channel: ReleaseChannel,
    sha: Option<Seq<char>>,
    stage: UpdateStage,
    reply: UpdateReply,
)
    requires
        fits(stage, reply),
    ensures
        ({
            let (after, next) = stepped(u, channel, sha, stage, reply);
            &&& reply is Failed && !(stage is StagingAgent) ==> after == u && next == (
            UpdateStage::Ended { installed: false, error: Some(reply->Failed_0) })
            &&& stage is CheckingDependencies && reply is Done ==> next
                == UpdateStage::StagingAgent(stage->CheckingDependencies_0) && after.status
                == StatusModel::Checking
            &&& stage is Downloading && reply is Done ==> next == UpdateStage::Installing(
                stage->Downloading_0,
            ) && after.status == StatusModel::Installing(stage->Downloading_0)
            &&& stage is Installing && reply is Done ==> next == (UpdateStage::Ended {
                installed: true,
                error: None,
            }) && after.status == StatusModel::Updated(stage->Installing_0)
            &&& next is Ended && next->installed ==> stage is Installing && reply is Done
                && next->error is None
            &&& after.current_version == u.current_version
            &&& after.polling == u.polling
            &&& after.update_check_type == u.update_check_type
            &&& after.staged_agent_version == u.staged_agent_version
        }),
{
}

/// Where nothing newer is published an update that is in place stays shown, and anything
/// else that was shown is cleared.
pub proof fn law_update_in_place_stays_shown(
    u: UpdaterModel,
    channel: ReleaseChannel,
    sha: Option<Seq<char>>,
    previous: StatusModel,
    fetched: Seq<char>,
)
    requires
        stepped(
            u,
            channel,
            sha,
            UpdateStage::FetchingRelease(previous),
            UpdateReply::Published(fetched),
        ).1 == (UpdateStage::Ended { installed: false, error: None }),
    ensures
        ({
            let status = stepped(
                u,
                channel,
                sha,
                UpdateStage::FetchingRelease(previous),
                UpdateReply::Published(fetched),
            ).0.status;
            if previous is Updated {
                status == previous
            } else {
                status == StatusModel::Idle
            }
        }),
{
}

/// The end of a check makes room for the next one. A failure is shown where somebody asked
/// for the check, or where a program is missing, and is passed over else; a success leaves
/// what is shown.
pub proof fn law_failures_are_shown_to_who_asked(
    u: UpdaterModel,
    e: ErrorModel,
    started_as: UpdateCheckType,
    check_type: UpdateCheckType,
)
    ensures
        poll_ended(u, UpdateCheckType::Manual, Some(e)).status == StatusModel::Errored(e.message),
        e.missing_dependency ==> poll_ended(u, started_as, Some(e)).status
            == StatusModel::Errored(e.message),
        !e.missing_dependency ==> poll_ended(u, UpdateCheckType::Automatic, Some(e)).status
            == StatusModel::Idle,
        poll_ended(u, started_as, None) == (UpdaterModel { polling: false, ..u }),
        !poll_ended(u, started_as, Some(e)).polling,
        polled(poll_ended(u, started_as, Some(e)), check_type).polling,
        polled(poll_ended(u, started_as, Some(e)), check_type).update_check_type == check_type,
{
}

/// Whether polling goes on after a change of the setting is what the setting says.
pub proof fn law_polling_follows_the_setting(polling: bool, auto_update: bool)
    ensures
        ({
            let after = match polling_change(polling, auto_update) {
                PollingChange::Start => true,
                PollingChange::Stop => false,
                PollingChange::Keep => polling,
            };
            after == auto_update
        }),
        polling_change(polling, polling) == PollingChange::Keep,
{
}

/// Every build looks for updates but one of development, and one whose channel is not known.
pub proof fn law_all_but_development_builds_poll(channel: ReleaseChannel)
    ensures
        !polls(None),
        !polls(Some(ReleaseChannel::Dev)),
        channel != ReleaseChannel::Dev ==> polls(Some(channel)),
{
}

/// A release is looked up under the name of its channel and under its three numbers, or
/// under the name of the latest one.
pub proof fn law_release_address_names_channel_and_version(
    channel: ReleaseChannel,
    v: version::VersionModel,
)
    ensures
        release_path(channel, Some(v)) == "https://aitoken.bigopen.cn/vibedev"@ + "/releases/"@
            + channel_name(channel) + "/"@ + (text::decimal_of(v.major) + seq!['.']
            + text::decimal_of(v.minor) + seq!['.'] + text::decimal_of(v.patch)) + "/asset?"@,
        release_path(channel, None) == "https://aitoken.bigopen.cn/vibedev"@ + "/releases/"@
            + channel_name(channel) + "/"@ + "latest"@ + "/asset?"@,
        channel_name(ReleaseChannel::Dev) == "dev"@,
        channel_name(ReleaseChannel::Nightly) == "nightly"@,
        channel_name(ReleaseChannel::Preview) == "preview"@,
        channel_name(ReleaseChannel::Stable) == "stable"@,
{
    let n = version::notation(version::bare(v));
    assert(n =~= text::decimal_of(v.major) + seq!['.'] + text::decimal_of(v.minor) + seq!['.']
        + text::decimal_of(v.patch));
}

/// A request names the asset, the system and the machine; what telemetry does not tell is
/// left out, and what it tells is told under its name.
pub proof fn law_request_tells_what_it_may(q: AssetQuery)
    ensures
        query_pairs(q).take(3) == seq![("asset"@, q.asset@), ("os"@, q.os@), ("arch"@, q.arch@)],
        q.metrics_id is None && q.system_id is None && q.is_staff is None ==> query_pairs(q).len()
            == 3,
        q.metrics_id is Some ==> query_pairs(q)[3] == ("metrics_id"@, (q.metrics_id->0)@),
        q.metrics_id is None && q.system_id is Some ==> query_pairs(q)[3] == (
            "system_id"@,
            (q.system_id->0)@,
        ),
        q.metrics_id is Some && q.system_id is Some ==> query_pairs(q)[4] == (
            "system_id"@,
            (q.system_id->0)@,
        ),
        q.is_staff is Some ==> query_pairs(q).last() == (
            "is_staff"@,
            if q.is_staff->0 {
                "true"@
            } else {
                "false"@
            },
        ),
{
    assert(query_pairs(q).take(3) =~= seq![
        ("asset"@, q.asset@),
        ("os"@, q.os@),
        ("arch"@, q.arch@),
    ]);
}

/// A newer version is handed out as such, none where there is none, and a version that cannot
/// be read is an error that says why.
pub proof fn law_verdict_is_handed_out(
    r: Result<Option<VersionCheckType>, UnreadableVersion>,
    c: CheckModel,
    complaint: Seq<char>,
)
    ensures
        says(r, Verdict::Newer(c), complaint) ==> (r matches Ok(Some(x)) && x@ == c),
        says(r, Verdict::UpToDate, complaint) ==> r == Ok::<
            Option<VersionCheckType>,
            UnreadableVersion,
        >(None),
        says(r, Verdict::Unreadable, complaint) ==> (r matches Err(e) && e.message@ == complaint),
{
}

/// How long is waited between two polls.
pub open spec fn pause_between_polls(channel: Option<ReleaseChannel>) -> u64 {
    match channel {
        Some(ReleaseChannel::Nightly) => 900,
        _ => 3_600,
    }
}

/// Nightly builds poll every quarter of an hour, and all others every hour.
pub proof fn law_nightly_builds_poll_more_often(channel: Option<ReleaseChannel>)
    ensures
        channel == Some(ReleaseChannel::Nightly) ==> pause_between_polls(channel) == 15 * 60,
        channel != Some(ReleaseChannel::Nightly) ==> pause_between_polls(channel) == 60 * 60,
{
}

/// Letters, digits and four signs go into an address as they are, and no other character does.
pub proof fn law_what_goes_unescaped(c: char)
    ensures
        is_unreserved(seq![c]) <==> (c as u32 >= 48 && c as u32 <= 57) || (c as u32 >= 65 && c as u32
            <= 90) || (c as u32 >= 97 && c as u32 <= 122) || c == '*' || c == '-' || c == '.' || c
            == '_',
{
    let s = seq![c];
    assert(s[0] == c);
    if is_unreserved(s) {
        assert('a' <= s[0] <= 'z' || 'A' <= s[0] <= 'Z' || '0' <= s[0] <= '9' || s[0] == '*'
            || s[0] == '-' || s[0] == '.' || s[0] == '_');
    }
}

/// Every step can fail; a release is looked for, and every other step done, until all has
/// ended.
pub proof fn law_every_step_can_fail(
    stage: UpdateStage,
    status: StatusModel,
    check: CheckModel,
    text: Seq<char>,
    e: ErrorModel,
)
    ensures
        fits(stage, UpdateReply::Failed(e)) <==> !(stage is Ended),
        fits(UpdateStage::FetchingRelease(status), UpdateReply::Published(text)),
        !fits(UpdateStage::FetchingRelease(status), UpdateReply::Done),
        fits(UpdateStage::Downloading(check), UpdateReply::Done),
        fits(UpdateStage::Installing(check), UpdateReply::Done),
        fits(UpdateStage::CheckingDependencies(status), UpdateReply::Done),
        fits(UpdateStage::StagingAgent(status), UpdateReply::Done),
        !(stage is FetchingRelease) ==> !fits(stage, UpdateReply::Published(text)),
{
}

} // verus!
