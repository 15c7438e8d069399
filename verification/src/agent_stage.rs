//! Staging an agent build.
//!
//! A published build that is newer than the local one is downloaded, unpacked,
//! checked, and only then renamed to `agent.new/`, so that a stage is either whole
//! or not there. Whatever fails on the way, the pieces are cleared away.

use vstd::prelude::*;
use vstd::string::*;

use crate::agent_swap;
use crate::auto_update;
use crate::auto_update::ReleaseAsset;
use crate::text;
use crate::version;
use crate::version::Version;

verus! {

/// The published agent.
pub const AGENT_ASSET: &'static str = "vibedev-agent";

/// The published program.
pub const APP_ASSET: &'static str = "vibedev";

/// The published server for remote hosts.
pub const REMOTE_SERVER_ASSET: &'static str = "vibedev-remote-server";

/// The download, next to the program.
pub const TARBALL_NAME: &'static str = "agent.dl.tar.gz";

/// Where the download is unpacked.
pub const EXTRACT_NAME: &'static str = "agent.new.extract";

/// Where the unpacked build is checked.
pub const PARTIAL_NAME: &'static str = "agent.new.partial";

/// Where a checked build is published.
pub const STAGED_NAME: &'static str = "agent.new";

// ---------------------------------------------------------------------------
// Whether to stage
// ---------------------------------------------------------------------------

/// The published build is to be staged: the local version is not known, or the
/// published one is newer.
pub open spec fn is_wanted(
    manifest: version::VersionModel,
    local: Option<version::VersionModel>,
) -> bool {
    match local {
        Some(l) => version::newer(manifest, l),
        None => true,
    }
}

/// Whether a published build is to be staged.
pub fn should_stage_agent(manifest: &Version, local: Option<&Version>) -> (r: bool)
    ensures
        r == is_wanted(manifest@, auto_update::version_model(local)),
{
    match local {
        Some(l) => manifest.newer_than(l),
        None => true,
    }
}

/// What a look at the published build comes to.
#[derive(Debug, PartialEq, Eq)]
pub enum StageDecision {
    /// A build is staged already.
    AlreadyStaged,
    /// Nothing is published.
    NoAsset,
    /// What is published has no readable version.
    BadVersion,
    /// The local build is as new.
    UpToDate,
    /// Stage the published build, which has this version.
    Stage(Version),
}

/// The decision, once the versions are parsed: the outer `None` means that nothing
/// is published, the inner one that its version cannot be read.
pub fn decide_parsed(manifest: Option<Option<Version>>, local: Option<Version>) -> (r:
    StageDecision)
    ensures
        match manifest {
            None => r == StageDecision::NoAsset,
            Some(None) => r == StageDecision::BadVersion,
            Some(Some(m)) => if is_wanted(m@, auto_update::parsed_model(local)) {
                r == StageDecision::Stage(m)
            } else {
                r == StageDecision::UpToDate
            },
        },
{
    match manifest {
        None => StageDecision::NoAsset,
        Some(None) => StageDecision::BadVersion,
        Some(Some(m)) => {
            let wanted = match &local {
                Some(l) => should_stage_agent(&m, Some(l)),
                None => should_stage_agent(&m, None),
            };
            if wanted {
                StageDecision::Stage(m)
            } else {
                StageDecision::UpToDate
            }
        },
    }
}

/// The decision is what the published version and the local VERSION file say; a stage
/// that is there is left alone.
pub open spec fn decides(
    r: StageDecision,
    already_staged: bool,
    asset: Option<&ReleaseAsset>,
    local: Option<Seq<char>>,
) -> bool {
    if already_staged {
        r is AlreadyStaged
    } else {
        match asset {
            None => r is NoAsset,
            Some(a) => match version::parsed_version(a.version@) {
                None => r is BadVersion,
                Some(m) => if is_wanted(m, agent_swap::file_version(local)) {
                    r matches StageDecision::Stage(v) && v@ == m
                } else {
                    r is UpToDate
                },
            },
        }
    }
}

/// Decides from whether a build is staged already, from what is published, and from the
/// text of the local VERSION file.
pub fn check_and_stage_agent_update(
    already_staged: bool,
    asset: Option<&ReleaseAsset>,
    local_version: &Option<String>,
) -> (r: StageDecision)
    ensures
        decides(r, already_staged, asset, agent_swap::text_model(*local_version)),
{
    if already_staged {
        return StageDecision::AlreadyStaged;
    }
    let manifest = match asset {
        None => None,
        Some(a) => Some(Version::parse(a.version.as_str())),
    };
    decide_parsed(manifest, agent_swap::read_version(local_version))
}

/// What is said of a published version that cannot be read.
pub fn bad_version_message(published: &str) -> (r: String)
    ensures
        r@ == "agent-OTA: bad manifest agent version "@ + text::debugged(published@),
{
    text::join(
        "agent-OTA: bad manifest agent version ",
        text::debug_text(published).as_str(),
    )
}

// ---------------------------------------------------------------------------
// The steps
// ---------------------------------------------------------------------------

/// A step of staging.
#[derive(Clone, Copy, Debug, PartialEq, Eq, Structural)]
pub enum StageStep {
    /// Remove what an interrupted attempt has left.
    PreClean,
    /// Fetch the tarball.
    Download,
    /// Make the directory to unpack into.
    MakeExtractDir,
    /// Unpack.
    Extract,
    /// Rename the unpacked directory to the one to be checked.
    MoveToPartial,
    /// Look for the program in it.
    CheckBinary,
    /// Look for the VERSION file in it.
    CheckVersion,
    /// Rename it to `agent.new/`.
    Publish,
    /// Remove the tarball and the unpacked directory.
    CleanUp { failed: bool },
    /// Remove the directory to be checked.
    CleanPartial,
    /// The end.
    Ended { failed: bool },
}

/// The step after one that succeeded or failed. Failing to clear pieces away does
/// not matter.
pub open spec fn after(step: StageStep, ok: bool) -> StageStep {
    match step {
        StageStep::PreClean => StageStep::Download,
        StageStep::CleanUp { failed } => if failed {
            StageStep::CleanPartial
        } else {
            StageStep::Ended { failed: false }
        },
        StageStep::CleanPartial => StageStep::Ended { failed: true },
        StageStep::Ended { failed } => step,
        _ => if !ok {
            StageStep::CleanUp { failed: true }
        } else {
            match step {
                StageStep::Download => StageStep::MakeExtractDir,
                StageStep::MakeExtractDir => StageStep::Extract,
                StageStep::Extract => StageStep::MoveToPartial,
                StageStep::MoveToPartial => StageStep::CheckBinary,
                StageStep::CheckBinary => StageStep::CheckVersion,
                StageStep::CheckVersion => StageStep::Publish,
                _ => StageStep::CleanUp { failed: false },
            }
        },
    }
}

/// The first step.
pub fn first_step() -> (r: StageStep)
    ensures
        r == StageStep::PreClean,
{
    StageStep::PreClean
}

/// The step after one that succeeded or failed.
pub fn next_step(step: StageStep, ok: bool) -> (r: StageStep)
    ensures
        r == after(step, ok),
{
    match step {
        StageStep::PreClean => StageStep::Download,
        StageStep::CleanUp { failed } => if failed {
            StageStep::CleanPartial
        } else {
            StageStep::Ended { failed: false }
        },
        StageStep::CleanPartial => StageStep::Ended { failed: true },
        StageStep::Ended { .. } => step,
        _ => if !ok {
            StageStep::CleanUp { failed: true }
        } else {
            match step {
                StageStep::Download => StageStep::MakeExtractDir,
                StageStep::MakeExtractDir => StageStep::Extract,
                StageStep::Extract => StageStep::MoveToPartial,
                StageStep::MoveToPartial => StageStep::CheckBinary,
                StageStep::CheckBinary => StageStep::CheckVersion,
                StageStep::CheckVersion => StageStep::Publish,
                _ => StageStep::CleanUp { failed: false },
            }
        },
    }
}

/// What is said where a checked build lacks a file.
pub fn missing_file_message(file: &str) -> (r: String)
    ensures
        r@ == "agent-OTA: staged agent missing "@ + file@,
{
    text::join("agent-OTA: staged agent missing ", file)
}

/// The arguments of the `tar` that unpacks the download; both paths are relative to
/// the directory of the program.
pub fn extract_args() -> (r: Vec<String>)
    ensures
        crate::lists::texts(r@) == seq!["-xzf"@, TARBALL_NAME@, "-C"@, EXTRACT_NAME@],
{
    let r = vec![
        "-xzf".to_owned(),
        TARBALL_NAME.to_owned(),
        "-C".to_owned(),
        EXTRACT_NAME.to_owned(),
    ];
    assert(crate::lists::texts(r@) =~= seq!["-xzf"@, TARBALL_NAME@, "-C"@, EXTRACT_NAME@]);
    r
}

// ---------------------------------------------------------------------------
// What staging does to the directories
// ---------------------------------------------------------------------------

/// A directory of a build, as far as it is checked.
pub ghost struct Unpacked {
    pub has_binary: bool,
    pub has_version: bool,
}

/// What lies next to the program.
pub ghost struct Pieces {
    pub tarball: bool,
    pub extract: Option<Unpacked>,
    pub partial: Option<Unpacked>,
    pub staged: Option<Unpacked>,
}

/// How a step goes: whether it is granted, and what the tarball holds.
pub ghost struct Outcome {
    pub granted: bool,
    pub unpacked: Unpacked,
}

/// A step on the directories, and whether it succeeded. A failed step may leave a
/// tarball or an unpacked directory half done; a directory is renamed whole or not
/// at all, onto a free name.
pub open spec fn perform(p: Pieces, step: StageStep, o: Outcome) -> (Pieces, bool) {
    match step {
        StageStep::PreClean => if o.granted {
            (Pieces { tarball: false, extract: None, partial: None, ..p }, true)
        } else {
            (p, false)
        },
        StageStep::Download => (Pieces { tarball: true, ..p }, o.granted),
        StageStep::MakeExtractDir => (
            Pieces {
                extract: if p.extract is None && o.granted {
                    Some(Unpacked { has_binary: false, has_version: false })
                } else {
                    p.extract
                },
                ..p
            },
            o.granted,
        ),
        StageStep::Extract => (Pieces { extract: Some(o.unpacked), ..p }, o.granted),
        StageStep::MoveToPartial => if o.granted && p.extract is Some && p.partial is None {
            (Pieces { extract: None, partial: p.extract, ..p }, true)
        } else {
            (p, false)
        },
        StageStep::CheckBinary => (p, p.partial is Some && (p.partial->0).has_binary),
        StageStep::CheckVersion => (p, p.partial is Some && (p.partial->0).has_version),
        StageStep::Publish => if o.granted && p.partial is Some && p.staged is None {
            (Pieces { partial: None, staged: p.partial, ..p }, true)
        } else {
            (p, false)
        },
        StageStep::CleanUp { .. } => if o.granted {
            (Pieces { tarball: false, extract: None, ..p }, true)
        } else {
            (p, false)
        },
        StageStep::CleanPartial => if o.granted {
            (Pieces { partial: None, ..p }, true)
        } else {
            (p, false)
        },
        StageStep::Ended { .. } => (p, true),
    }
}

/// The directories and the step after these outcomes, one for each step.
pub open spec fn run(p: Pieces, step: StageStep, outcomes: Seq<Outcome>) -> (Pieces, StageStep)
    decreases outcomes.len(),
{
    if outcomes.len() == 0 || step is Ended {
        (p, step)
    } else {
        let (q, ok) = perform(p, step, outcomes[0]);
        run(q, after(step, ok), outcomes.skip(1))
    }
}

/// A build that was found whole.
pub open spec fn is_whole(u: Unpacked) -> bool {
    u.has_binary && u.has_version
}

/// What holds at each step of an attempt that began without a stage.
spec fn holds(p: Pieces, step: StageStep) -> bool {
    match step {
        StageStep::CheckVersion => p.staged is None && p.partial is Some
            && (p.partial->0).has_binary,
        StageStep::Publish => p.staged is None && p.partial is Some && is_whole(p.partial->0),
        StageStep::CleanUp { failed } => if failed {
            p.staged is None
        } else {
            p.staged is Some && is_whole(p.staged->0) && p.partial is None
        },
        StageStep::Ended { failed } => if failed {
            p.staged is None
        } else {
            p.staged is Some && is_whole(p.staged->0) && p.partial is None
        },
        _ => p.staged is None,
    }
}

proof fn lemma_run(p: Pieces, step: StageStep, outcomes: Seq<Outcome>)
    requires
        holds(p, step),
    ensures
        holds(run(p, step, outcomes).0, run(p, step, outcomes).1),
    decreases outcomes.len(),
{
    if outcomes.len() > 0 && !(step is Ended) {
        let (q, ok) = perform(p, step, outcomes[0]);
        assert(holds(q, after(step, ok)));
        lemma_run(q, after(step, ok), outcomes.skip(1));
    }
}

/// A stage is whole or not there: wherever an attempt is interrupted, `agent.new/`
/// holds a build that was checked, or does not exist; and it exists at the end
/// exactly when the attempt has not failed.
pub proof fn law_stage_is_whole(p: Pieces, outcomes: Seq<Outcome>)
    requires
        p.staged is None,
    ensures
        ({
            let (q, step) = run(p, StageStep::PreClean, outcomes);
            &&& q.staged is Some ==> is_whole(q.staged->0)
            &&& step matches StageStep::Ended { failed } ==> (q.staged is Some <==> !failed)
        }),
{
    lemma_run(p, StageStep::PreClean, outcomes);
}

/// Nothing but the stage is left behind: where clearing away is granted, an attempt
/// ends without a tarball and without an unpacked directory, and a failed one
/// without a directory to be checked.
pub proof fn law_pieces_are_cleared_away(p: Pieces, failed: bool, outcomes: Seq<Outcome>)
    requires
        outcomes.len() >= 2,
        outcomes[0].granted,
        outcomes[1].granted,
    ensures
        ({
            let (q, end) = run(p, StageStep::CleanUp { failed }, outcomes);
            &&& end == StageStep::Ended { failed }
            &&& !q.tarball && q.extract is None
            &&& failed ==> q.partial is None
            &&& q.staged == p.staged
        }),
{
    let step = StageStep::CleanUp { failed };
    let (q, ok) = perform(p, step, outcomes[0]);
    let rest = outcomes.skip(1);
    assert(run(p, step, outcomes) == run(q, after(step, ok), rest));
    assert(rest[0] == outcomes[1]);
    if failed {
        let (q2, ok2) = perform(q, StageStep::CleanPartial, rest[0]);
        assert(run(q, StageStep::CleanPartial, rest) == run(
            q2,
            StageStep::Ended { failed: true },
            rest.skip(1),
        ));
    }
}

/// Every attempt ends with clearing away: each step leads to it, failed or not.
pub proof fn law_every_attempt_clears_away(step: StageStep, ok: bool)
    requires
        !(step is CleanUp) && !(step is CleanPartial) && !(step is Ended),
    ensures
        !ok && !(step is PreClean) ==> after(step, ok) == (StageStep::CleanUp { failed: true }),
        step is Publish && ok ==> after(step, ok) == (StageStep::CleanUp { failed: false }),
        !(after(step, ok) is CleanPartial) && !(after(step, ok) is Ended),
{
}

/// A published build with higher numbers than the local one is staged; one with lower
/// numbers, or the same version, is not. Blanks around the local version do not matter.
pub proof fn law_higher_build_is_staged(
    r: StageDecision,
    asset: ReleaseAsset,
    local: Seq<char>,
    published: version::VersionModel,
    installed: version::VersionModel,
)
    requires
        decides(r, false, Some(&asset), Some(local)),
        version::parsed_version(asset.version@) == Some(published),
        version::parsed_version(text::trimmed(local)) == Some(installed),
    ensures
        published.major > installed.major || (published.major == installed.major && (
        published.minor > installed.minor || (published.minor == installed.minor && published.patch
            > installed.patch))) ==> (r matches StageDecision::Stage(v) && v@ == published),
        published == installed || published.major < installed.major || (published.major
            == installed.major && (published.minor < installed.minor || (published.minor
            == installed.minor && published.patch < installed.patch))) ==> r is UpToDate,
{
}

/// Where the local version is not known, what is published is staged. Nothing is staged
/// where nothing is published, where its version cannot be read, or over a stage that is
/// there.
pub proof fn law_first_build_is_staged(
    r: StageDecision,
    already_staged: bool,
    asset: ReleaseAsset,
    local: Option<Seq<char>>,
)
    ensures
        decides(r, already_staged, None, local) ==> r is AlreadyStaged || r is NoAsset,
        decides(r, true, Some(&asset), local) ==> r is AlreadyStaged,
        decides(r, false, Some(&asset), local) && version::parsed_version(asset.version@) is None
            ==> r is BadVersion,
        decides(r, false, Some(&asset), None) && version::parsed_version(asset.version@) is Some
            ==> (r matches StageDecision::Stage(v) && version::parsed_version(asset.version@)
            == Some(v@)),
        decides(r, false, Some(&asset), local) && local is Some && version::parsed_version(
            text::trimmed(local->0),
        ) is None && version::parsed_version(asset.version@) is Some ==> r is Stage,
{
}

/// Where every step is granted a whole build is staged as it was unpacked, and nothing else
/// is left; a build that lacks its program or its version is not staged.
pub proof fn law_granted_build_is_staged(p: Pieces, build: Unpacked)
    requires
        p.staged is None,
    ensures
        ({
            let outcomes = Seq::new(
                11,
                |i: int| Outcome { granted: true, unpacked: build },
            );
            let (q, end) = run(p, StageStep::PreClean, outcomes);
            &&& build.has_binary && build.has_version ==> end == (StageStep::Ended { failed: false })
                && q.staged == Some(build)
            &&& !build.has_binary || !build.has_version ==> end == (StageStep::Ended {
                failed: true,
            }) && q.staged is None
            &&& !q.tarball && q.extract is None && q.partial is None
        }),
{
    let o = Outcome { granted: true, unpacked: build };
    let outcomes = Seq::new(11, |i: int| o);
    lemma_granted_steps(p, StageStep::PreClean, 11, o);
    assert(outcomes =~= Seq::new(11, |i: int| Outcome { granted: true, unpacked: build }));
    reveal_with_fuel(granted_run, 12);
}

/// A run in which every step is granted.
spec fn granted_run(p: Pieces, step: StageStep, n: nat, o: Outcome) -> (Pieces, StageStep)
    decreases n,
{
    if n == 0 || step is Ended {
        (p, step)
    } else {
        let (q, ok) = perform(p, step, o);
        granted_run(q, after(step, ok), (n - 1) as nat, o)
    }
}

proof fn lemma_granted_steps(p: Pieces, step: StageStep, n: nat, o: Outcome)
    ensures
        run(p, step, Seq::new(n, |i: int| o)) == granted_run(p, step, n, o),
    decreases n,
{
    if n > 0 && !(step is Ended) {
        let all = Seq::new(n, |i: int| o);
        let (q, ok) = perform(p, step, o);
        assert(all.skip(1) =~= Seq::new((n - 1) as nat, |i: int| o));
        lemma_granted_steps(q, after(step, ok), (n - 1) as nat, o);
    }
}

/// A build is published only once its program and its version were found, and they are
/// looked for only in what was unpacked from a download.
pub proof fn law_nothing_is_published_unchecked(step: StageStep, ok: bool)
    ensures
        after(step, ok) is Publish ==> step is CheckVersion && ok,
        after(step, ok) is CheckVersion ==> step is CheckBinary && ok,
        after(step, ok) is CheckBinary ==> step is MoveToPartial && ok,
        after(step, ok) is MoveToPartial ==> step is Extract && ok,
        after(step, ok) is Extract ==> step is MakeExtractDir && ok,
        after(step, ok) is MakeExtractDir ==> step is Download && ok,
        after(step, ok) is Download ==> step is PreClean,
{
}

/// A build is whole where it has both its program and its version.
pub proof fn law_whole_builds_have_both(u: Unpacked)
    ensures
        u.has_binary && u.has_version ==> is_whole(u),
        !u.has_binary || !u.has_version ==> !is_whole(u),
{
}

} // verus!
