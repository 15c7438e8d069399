//! Swapping a staged agent build into place.
//!
//! Next to the program stand up to three directories: `agent/` (the build in
//! use), `agent.new/` (a staged build) and `agent.old/` (the backup of a swap).
//! The swap is a machine: it asks for one directory operation at a time and
//! decides from the answer what comes next.

use vstd::prelude::*;

use crate::text;
use crate::version;
use crate::version::Version;

verus! {

/// How often the move of `agent/` out of the way is tried.
pub const MOVE_ATTEMPTS: u32 = 6;

/// The pause between two tries.
pub const MOVE_RETRY_MILLIS: u64 = 250;

/// How a swap ended.
#[derive(Clone, Copy, Debug, PartialEq, Eq, Structural)]
pub enum SwapOutcome {
    /// `agent.old/` could not be put back in the place of a missing `agent/`.
    RecoveryFailed,
    /// There is no `agent.new/`.
    NothingStaged,
    /// `agent.new/VERSION` is missing or is no version.
    StagedVersionUnknown,
    /// The staged build is not newer than the one in use.
    NotNewer,
    /// A leftover `agent.old/` could not be removed.
    BackupStuck,
    /// `agent/` could not be moved out of the way.
    AgentLocked,
    /// The staged build could not be moved in, and `agent/` is back.
    RolledBack,
    /// The staged build could not be moved in, nor could `agent/` be put back.
    RollbackFailed,
    /// The staged build could not be moved in, and there was nothing to put back.
    MoveInFailed,
    /// The staged build is in use.
    Applied,
}

/// What the machine asks for.
#[derive(Clone, Copy, Debug, PartialEq, Eq, Structural)]
pub enum SwapAction {
    /// Tell which of the three directories exist.
    Inspect,
    /// Rename `agent.old/` to `agent/`.
    RestoreBackup,
    /// Read `agent.new/VERSION` and `agent/VERSION`.
    ReadVersions,
    /// Remove `agent.old/` with everything in it.
    RemoveBackup,
    /// End every other running agent process.
    KillStrays,
    /// Rename `agent/` to `agent.old/`.
    MoveOut,
    /// Wait for this many milliseconds.
    Pause(u64),
    /// Rename `agent.new/` to `agent/`.
    MoveIn,
    /// Nothing more.
    Stop(SwapOutcome),
}

/// Where the machine stands: the operation it waits for.
#[derive(Clone, Copy, Debug, PartialEq, Eq, Structural)]
pub enum SwapState {
    Inspecting,
    Recovering,
    Looking,
    Gating,
    Preparing,
    Clearing { agent: bool },
    Freeing,
    MovingOut { attempt: u32 },
    Pausing { attempt: u32 },
    MovingIn,
    Failing,
    RollingBack,
    Finishing,
    Cleaning,
    Stopped(SwapOutcome),
}

/// The answer to an operation.
#[derive(Debug, PartialEq, Eq)]
pub enum SwapEvent {
    /// Which directories exist.
    Found { agent: bool, pending: bool, backup: bool },
    /// What the two VERSION files hold; `None` for one that cannot be read.
    Versions { staged: Option<String>, current: Option<String> },
    /// The operation succeeded.
    Done,
    /// The operation was refused.
    Failed,
}

/// The answer, mathematically.
pub ghost enum SwapReply {
    Found { agent: bool, pending: bool, backup: bool },
    Versions { staged: Option<Seq<char>>, current: Option<Seq<char>> },
    Done,
    Failed,
}

pub open spec fn text_model(s: Option<String>) -> Option<Seq<char>> {
    match s {
        Some(t) => Some(t@),
        None => None,
    }
}

impl View for SwapEvent {
    type V = SwapReply;

    open spec fn view(&self) -> SwapReply {
        match *self {
            SwapEvent::Found { agent, pending, backup } => SwapReply::Found {
                agent,
                pending,
                backup,
            },
            SwapEvent::Versions { staged, current } => SwapReply::Versions {
                staged: text_model(staged),
                current: text_model(current),
            },
            SwapEvent::Done => SwapReply::Done,
            SwapEvent::Failed => SwapReply::Failed,
        }
    }
}

/// The version that the text of a VERSION file gives.
pub open spec fn file_version(s: Option<Seq<char>>) -> Option<version::VersionModel> {
    match s {
        Some(t) => version::parsed_version(text::trimmed(t)),
        None => None,
    }
}

/// The staged build has a version, and it is newer than the current one if that
/// has a version.
pub open spec fn staged_wins(staged: Option<Seq<char>>, current: Option<Seq<char>>) -> bool {
    match (file_version(staged), file_version(current)) {
        (Some(s), Some(c)) => version::newer(s, c),
        (Some(s), None) => true,
        (None, _) => false,
    }
}

/// The answer is one to the operation that the machine waits for.
pub open spec fn fits(state: SwapState, reply: SwapReply) -> bool {
    match state {
        SwapState::Inspecting
        | SwapState::Looking
        | SwapState::Preparing
        | SwapState::Failing
        | SwapState::Finishing => reply is Found,
        SwapState::Gating => reply is Versions,
        SwapState::MovingOut { attempt } => attempt < MOVE_ATTEMPTS && (reply is Done
            || reply is Failed),
        SwapState::Pausing { attempt } => attempt + 1 < MOVE_ATTEMPTS && (reply is Done
            || reply is Failed),
        SwapState::Stopped(_) => false,
        _ => reply is Done || reply is Failed,
    }
}

/// The machine, told whether a staged build exists.
pub open spec fn when_looked(staged: bool) -> (SwapState, SwapAction) {
    if staged {
        (SwapState::Gating, SwapAction::ReadVersions)
    } else {
        stop(SwapOutcome::NothingStaged)
    }
}

/// The machine, once no backup is in the way.
pub open spec fn when_clear(agent: bool) -> (SwapState, SwapAction) {
    if agent {
        (SwapState::Freeing, SwapAction::KillStrays)
    } else {
        (SwapState::MovingIn, SwapAction::MoveIn)
    }
}

pub open spec fn stop(outcome: SwapOutcome) -> (SwapState, SwapAction) {
    (SwapState::Stopped(outcome), SwapAction::Stop(outcome))
}

/// What follows an answer.
pub open spec fn next(state: SwapState, reply: SwapReply) -> (SwapState, SwapAction) {
    match (state, reply) {
        (SwapState::Inspecting, SwapReply::Found { agent, pending, backup }) => if !agent && backup {
            (SwapState::Recovering, SwapAction::RestoreBackup)
        } else {
            when_looked(pending)
        },
        (SwapState::Recovering, SwapReply::Done) => (SwapState::Looking, SwapAction::Inspect),
        (SwapState::Recovering, _) => stop(SwapOutcome::RecoveryFailed),
        (SwapState::Looking, SwapReply::Found { pending, .. }) => when_looked(pending),
        (SwapState::Gating, SwapReply::Versions { staged, current }) => if file_version(
            staged,
        ) is None {
            stop(SwapOutcome::StagedVersionUnknown)
        } else if staged_wins(staged, current) {
            (SwapState::Preparing, SwapAction::Inspect)
        } else {
            stop(SwapOutcome::NotNewer)
        },
        (SwapState::Preparing, SwapReply::Found { agent, backup, .. }) => if backup {
            (SwapState::Clearing { agent }, SwapAction::RemoveBackup)
        } else {
            when_clear(agent)
        },
        (SwapState::Clearing { agent }, SwapReply::Done) => when_clear(agent),
        (SwapState::Clearing { .. }, _) => stop(SwapOutcome::BackupStuck),
        (SwapState::Freeing, _) => (SwapState::MovingOut { attempt: 0 }, SwapAction::MoveOut),
        (SwapState::MovingOut { .. }, SwapReply::Done) => (
            SwapState::MovingIn,
            SwapAction::MoveIn,
        ),
        (SwapState::MovingOut { attempt }, _) => if attempt + 1 >= MOVE_ATTEMPTS {
            stop(SwapOutcome::AgentLocked)
        } else {
            (SwapState::Pausing { attempt }, SwapAction::Pause(MOVE_RETRY_MILLIS))
        },
        (SwapState::Pausing { attempt }, _) => (
            SwapState::MovingOut { attempt: (attempt + 1) as u32 },
            SwapAction::MoveOut,
        ),
        (SwapState::MovingIn, SwapReply::Done) => (SwapState::Finishing, SwapAction::Inspect),
        (SwapState::MovingIn, _) => (SwapState::Failing, SwapAction::Inspect),
        (SwapState::Failing, SwapReply::Found { backup, .. }) => if backup {
            (SwapState::RollingBack, SwapAction::RestoreBackup)
        } else {
            stop(SwapOutcome::MoveInFailed)
        },
        (SwapState::RollingBack, SwapReply::Done) => stop(SwapOutcome::RolledBack),
        (SwapState::RollingBack, _) => stop(SwapOutcome::RollbackFailed),
        (SwapState::Finishing, SwapReply::Found { backup, .. }) => if backup {
            (SwapState::Cleaning, SwapAction::RemoveBackup)
        } else {
            stop(SwapOutcome::Applied)
        },
        (SwapState::Cleaning, _) => stop(SwapOutcome::Applied),
        (s, _) => (s, SwapAction::Inspect),
    }
}

/// The version that the text of a VERSION file gives, blanks around it aside.
pub fn read_version(contents: &Option<String>) -> (r: Option<Version>)
    ensures
        match r {
            Some(v) => file_version(text_model(*contents)) == Some(v@),
            None => file_version(text_model(*contents)) is None,
        },
{
    match contents {
        Some(s) => Version::parse(text::trim(s.as_str()).as_str()),
        None => None,
    }
}

/// The first operation of a swap.
pub fn begin() -> (r: (SwapState, SwapAction))
    ensures
        r == (SwapState::Inspecting, SwapAction::Inspect),
{
    (SwapState::Inspecting, SwapAction::Inspect)
}

fn stopped(outcome: SwapOutcome) -> (r: (SwapState, SwapAction))
    ensures
        r == stop(outcome),
{
    (SwapState::Stopped(outcome), SwapAction::Stop(outcome))
}

fn looked(staged: bool) -> (r: (SwapState, SwapAction))
    ensures
        r == when_looked(staged),
{
    if staged {
        (SwapState::Gating, SwapAction::ReadVersions)
    } else {
        stopped(SwapOutcome::NothingStaged)
    }
}

fn cleared(agent: bool) -> (r: (SwapState, SwapAction))
    ensures
        r == when_clear(agent),
{
    if agent {
        (SwapState::Freeing, SwapAction::KillStrays)
    } else {
        (SwapState::MovingIn, SwapAction::MoveIn)
    }
}

/// Decides whether the staged build may replace the current one.
fn gate(staged: &Option<String>, current: &Option<String>) -> (r: (SwapState, SwapAction))
    ensures
        r == next(
            SwapState::Gating,
            SwapReply::Versions { staged: text_model(*staged), current: text_model(*current) },
        ),
{
    match read_version(staged) {
        None => stopped(SwapOutcome::StagedVersionUnknown),
        Some(s) => {
            let wins = match read_version(current) {
                Some(c) => s.newer_than(&c),
                None => true,
            };
            if wins {
                (SwapState::Preparing, SwapAction::Inspect)
            } else {
                stopped(SwapOutcome::NotNewer)
            }
        },
    }
}

/// Takes the answer to the operation in progress and asks for the next one.
pub fn advance(state: SwapState, event: &SwapEvent) -> (r: (SwapState, SwapAction))
    requires
        fits(state, event@),
    ensures
        r == next(state, event@),
{
    let done = matches!(event, SwapEvent::Done);
    match event {
        SwapEvent::Versions { staged, current } => gate(staged, current),
        SwapEvent::Found { agent, pending, backup } => match state {
            SwapState::Inspecting => if !*agent && *backup {
                (SwapState::Recovering, SwapAction::RestoreBackup)
            } else {
                looked(*pending)
            },
            SwapState::Looking => looked(*pending),
            SwapState::Preparing => if *backup {
                (SwapState::Clearing { agent: *agent }, SwapAction::RemoveBackup)
            } else {
                cleared(*agent)
            },
            SwapState::Failing => if *backup {
                (SwapState::RollingBack, SwapAction::RestoreBackup)
            } else {
                stopped(SwapOutcome::MoveInFailed)
            },
            _ => if *backup {
                (SwapState::Cleaning, SwapAction::RemoveBackup)
            } else {
                stopped(SwapOutcome::Applied)
            },
        },
        _ => match state {
            SwapState::Recovering => if done {
                (SwapState::Looking, SwapAction::Inspect)
            } else {
                stopped(SwapOutcome::RecoveryFailed)
            },
            SwapState::Clearing { agent } => if done {
                cleared(agent)
            } else {
                stopped(SwapOutcome::BackupStuck)
            },
            SwapState::Freeing => (SwapState::MovingOut { attempt: 0 }, SwapAction::MoveOut),
            SwapState::MovingOut { attempt } => if done {
                (SwapState::MovingIn, SwapAction::MoveIn)
            } else if attempt + 1 >= MOVE_ATTEMPTS {
                stopped(SwapOutcome::AgentLocked)
            } else {
                (SwapState::Pausing { attempt }, SwapAction::Pause(MOVE_RETRY_MILLIS))
            },
            SwapState::Pausing { attempt } => (
                SwapState::MovingOut { attempt: attempt + 1 },
                SwapAction::MoveOut,
            ),
            SwapState::MovingIn => if done {
                (SwapState::Finishing, SwapAction::Inspect)
            } else {
                (SwapState::Failing, SwapAction::Inspect)
            },
            SwapState::RollingBack => if done {
                stopped(SwapOutcome::RolledBack)
            } else {
                stopped(SwapOutcome::RollbackFailed)
            },
            _ => stopped(SwapOutcome::Applied),
        },
    }
}

// ---------------------------------------------------------------------------
// What a swap does to the directories
// ---------------------------------------------------------------------------

/// A build of the agent: which one it is, and the text of its VERSION file.
pub ghost struct Build {
    pub id: int,
    pub version: Option<Seq<char>>,
}

/// The three directories.
pub ghost struct Dirs {
    pub agent: Option<Build>,
    pub staged: Option<Build>,
    pub backup: Option<Build>,
}

/// How the file system takes one operation: whether it grants it, and what a
/// refused removal leaves behind.
pub ghost struct Answer {
    pub granted: bool,
    pub debris: Option<Build>,
}

pub open spec fn version_text(b: Option<Build>) -> Option<Seq<char>> {
    match b {
        Some(b) => b.version,
        None => None,
    }
}

/// An operation on the directories, and the reply to it. A directory is renamed
/// only where it exists and its new name is free.
pub open spec fn perform(d: Dirs, action: SwapAction, answer: Answer) -> (Dirs, SwapReply) {
    match action {
        SwapAction::Inspect => (
            d,
            SwapReply::Found {
                agent: d.agent is Some,
                pending: d.staged is Some,
                backup: d.backup is Some,
            },
        ),
        SwapAction::ReadVersions => (
            d,
            SwapReply::Versions { staged: version_text(d.staged), current: version_text(d.agent) },
        ),
        SwapAction::RestoreBackup => if answer.granted && d.backup is Some && d.agent is None {
            (Dirs { agent: d.backup, backup: None, ..d }, SwapReply::Done)
        } else {
            (d, SwapReply::Failed)
        },
        SwapAction::RemoveBackup => if answer.granted {
            (Dirs { backup: None, ..d }, SwapReply::Done)
        } else {
            (Dirs { backup: answer.debris, ..d }, SwapReply::Failed)
        },
        SwapAction::MoveOut => if answer.granted && d.agent is Some && d.backup is None {
            (Dirs { agent: None, backup: d.agent, ..d }, SwapReply::Done)
        } else {
            (d, SwapReply::Failed)
        },
        SwapAction::MoveIn => if answer.granted && d.staged is Some && d.agent is None {
            (Dirs { agent: d.staged, staged: None, ..d }, SwapReply::Done)
        } else {
            (d, SwapReply::Failed)
        },
        _ => (d, SwapReply::Done),
    }
}

/// The operation that a state waits for.
pub open spec fn asked(state: SwapState) -> SwapAction {
    match state {
        SwapState::Inspecting
        | SwapState::Looking
        | SwapState::Preparing
        | SwapState::Failing
        | SwapState::Finishing => SwapAction::Inspect,
        SwapState::Recovering | SwapState::RollingBack => SwapAction::RestoreBackup,
        SwapState::Gating => SwapAction::ReadVersions,
        SwapState::Clearing { .. } | SwapState::Cleaning => SwapAction::RemoveBackup,
        SwapState::Freeing => SwapAction::KillStrays,
        SwapState::MovingOut { .. } => SwapAction::MoveOut,
        SwapState::Pausing { .. } => SwapAction::Pause(MOVE_RETRY_MILLIS),
        SwapState::MovingIn => SwapAction::MoveIn,
        SwapState::Stopped(outcome) => SwapAction::Stop(outcome),
    }
}

/// The directories and the machine after the file system has given these
/// answers, one for each operation.
pub open spec fn run(d: Dirs, state: SwapState, answers: Seq<Answer>) -> (Dirs, SwapState)
    decreases answers.len(),
{
    if answers.len() == 0 || state is Stopped {
        (d, state)
    } else {
        let (after, reply) = perform(d, asked(state), answers[0]);
        run(after, next(state, reply).0, answers.skip(1))
    }
}

/// The build that is usable before the swap: the one in `agent/`, or the backup
/// of an interrupted swap.
pub open spec fn usable(d: Dirs) -> Option<Build> {
    if d.agent is Some {
        d.agent
    } else {
        d.backup
    }
}

/// The staged build is one that may replace the usable one.
pub open spec fn may_replace(d: Dirs) -> bool {
    d.staged is Some && staged_wins(version_text(d.staged), version_text(usable(d)))
}

/// What holds of the directories at each state of a swap that began with `from`.
spec fn holds(from: Dirs, d: Dirs, state: SwapState) -> bool {
    let base = usable(from);
    match state {
        SwapState::Inspecting => d == from,
        SwapState::Recovering => d == from && from.agent is None && from.backup is Some,
        SwapState::Looking => d.agent == base && d.staged == from.staged && (d.agent is None
            ==> d.backup is None),
        SwapState::Gating => d.agent == base && d.staged == from.staged && d.staged is Some && (
        d.agent is None ==> d.backup is None),
        SwapState::Preparing => d.agent == base && d.staged == from.staged && may_replace(from) && (
        d.agent is None ==> d.backup is None),
        SwapState::Clearing { agent } => d.agent == base && agent && base is Some && d.staged
            == from.staged && may_replace(from),
        SwapState::Freeing => d.agent == base && base is Some && d.backup is None && d.staged
            == from.staged && may_replace(from),
        SwapState::MovingOut { attempt } => attempt < MOVE_ATTEMPTS && d.agent == base
            && base is Some && d.backup is None && d.staged == from.staged && may_replace(from),
        SwapState::Pausing { attempt } => attempt + 1 < MOVE_ATTEMPTS && d.agent == base
            && base is Some && d.backup is None && d.staged == from.staged && may_replace(from),
        SwapState::MovingIn | SwapState::Failing => d.agent is None && d.backup == base && d.staged
            == from.staged && may_replace(from),
        SwapState::RollingBack => d.agent is None && d.backup == base && base is Some && d.staged
            == from.staged && may_replace(from),
        SwapState::Finishing | SwapState::Cleaning => d.agent == from.staged && d.staged is None
            && may_replace(from),
        SwapState::Stopped(outcome) => match outcome {
            SwapOutcome::RecoveryFailed => d == from && from.agent is None && from.backup is Some,
            SwapOutcome::NothingStaged => d.agent == base && d.staged == from.staged
                && from.staged is None,
            SwapOutcome::StagedVersionUnknown | SwapOutcome::NotNewer => d.agent == base
                && d.staged == from.staged && from.staged is Some && !may_replace(from),
            SwapOutcome::BackupStuck | SwapOutcome::AgentLocked | SwapOutcome::RolledBack => d.agent
                == base && base is Some && d.staged == from.staged && may_replace(from),
            SwapOutcome::RollbackFailed => d.agent is None && d.backup == base && base is Some
                && d.staged == from.staged && may_replace(from),
            SwapOutcome::MoveInFailed => d.agent is None && base is None && d.staged
                == from.staged && may_replace(from),
            SwapOutcome::Applied => d.agent == from.staged && d.staged is None && may_replace(from),
        },
    }
}

proof fn lemma_step(from: Dirs, d: Dirs, state: SwapState, answer: Answer)
    requires
        holds(from, d, state),
        !(state is Stopped),
    ensures
        fits(state, perform(d, asked(state), answer).1),
        ({
            let (after, reply) = perform(d, asked(state), answer);
            holds(from, after, next(state, reply).0) && asked(next(state, reply).0) == next(
                state,
                reply,
            ).1
        }),
{
}

proof fn lemma_run(from: Dirs, d: Dirs, state: SwapState, answers: Seq<Answer>)
    requires
        holds(from, d, state),
    ensures
        holds(from, run(d, state, answers).0, run(d, state, answers).1),
    decreases answers.len(),
{
    if answers.len() > 0 && !(state is Stopped) {
        lemma_step(from, d, state, answers[0]);
        let (after, reply) = perform(d, asked(state), answers[0]);
        lemma_run(from, after, next(state, reply).0, answers.skip(1));
    }
}


/// A build is never lost: whatever the file system answers, and wherever the
/// swap is interrupted, the usable build stands in `agent/` or `agent.old/`, or
/// a staged build that may replace it stands in `agent/`.
pub proof fn law_no_build_is_lost(from: Dirs, answers: Seq<Answer>)
    requires
        usable(from) is Some,
    ensures
        ({
            let d = run(from, SwapState::Inspecting, answers).0;
            d.agent == usable(from) || (d.agent is None && d.backup == usable(from)) || (d.agent
                == from.staged && may_replace(from))
        }),
{
    lemma_run(from, from, SwapState::Inspecting, answers);
}

/// A swap that has ended leaves a usable `agent/`, unless the file system
/// refused to put the backup in its place; then the backup still holds it.
pub proof fn law_swap_leaves_agent(from: Dirs, answers: Seq<Answer>)
    requires
        usable(from) is Some,
        run(from, SwapState::Inspecting, answers).1 is Stopped,
    ensures
        ({
            let (d, state) = run(from, SwapState::Inspecting, answers);
            let outcome = state->Stopped_0;
            if outcome == SwapOutcome::RecoveryFailed || outcome == SwapOutcome::RollbackFailed {
                d.agent is None && d.backup == usable(from)
            } else {
                d.agent is Some
            }
        }),
{
    lemma_run(from, from, SwapState::Inspecting, answers);
}

/// The build in use is never replaced by one that is not newer: at the end of a
/// swap `agent/` differs from the usable build only where the staged build may
/// replace it, and the staged build is gone only then.
pub proof fn law_no_downgrade(from: Dirs, answers: Seq<Answer>)
    requires
        run(from, SwapState::Inspecting, answers).1 is Stopped,
    ensures
        ({
            let (d, state) = run(from, SwapState::Inspecting, answers);
            &&& d.agent is Some && d.agent != usable(from) ==> d.agent == from.staged
                && may_replace(from)
            &&& !may_replace(from) ==> d.staged == from.staged
            &&& state->Stopped_0 == SwapOutcome::Applied <==> (d.agent == from.staged
                && d.staged is None && may_replace(from))
        }),
{
    lemma_run(from, from, SwapState::Inspecting, answers);
}

/// How many operations a swap may still ask for.
pub open spec fn operations_left(state: SwapState) -> int {
    match state {
        SwapState::Inspecting => 22,
        SwapState::Recovering => 21,
        SwapState::Looking => 20,
        SwapState::Gating => 19,
        SwapState::Preparing => 18,
        SwapState::Clearing { .. } => 17,
        SwapState::Freeing => 16,
        SwapState::MovingOut { attempt } => 15 - 2 * attempt,
        SwapState::Pausing { attempt } => 14 - 2 * attempt,
        SwapState::MovingIn => 3,
        SwapState::Failing | SwapState::Finishing => 2,
        SwapState::RollingBack | SwapState::Cleaning => 1,
        SwapState::Stopped(_) => 0,
    }
}

proof fn lemma_run_ends(from: Dirs, d: Dirs, state: SwapState, answers: Seq<Answer>)
    requires
        holds(from, d, state),
        answers.len() >= operations_left(state),
    ensures
        run(d, state, answers).1 is Stopped,
    decreases answers.len(),
{
    if !(state is Stopped) {
        lemma_step(from, d, state, answers[0]);
        let (after, reply) = perform(d, asked(state), answers[0]);
        lemma_run_ends(from, after, next(state, reply).0, answers.skip(1));
    }
}

/// Every swap ends: whatever the file system answers, after no more operations
/// than `operations_left` says.
pub proof fn law_swap_ends(from: Dirs, answers: Seq<Answer>)
    requires
        answers.len() >= operations_left(SwapState::Inspecting),
    ensures
        run(from, SwapState::Inspecting, answers).1 is Stopped,
{
    lemma_run_ends(from, from, SwapState::Inspecting, answers);
}

proof fn lemma_granted(from: Dirs, d: Dirs, state: SwapState, answers: Seq<Answer>)
    requires
        holds(from, d, state),
        may_replace(from),
        forall|i: int| 0 <= i < answers.len() ==> (#[trigger] answers[i]).granted,
        answers.len() >= operations_left(state),
        !(state is Failing) && !(state is RollingBack),
        state matches SwapState::Stopped(outcome) ==> outcome == SwapOutcome::Applied
            && d.backup is None,
        state is Cleaning ==> d.backup is Some,
    ensures
        run(d, state, answers).1 == SwapState::Stopped(SwapOutcome::Applied),
        run(d, state, answers).0 == (Dirs { agent: from.staged, staged: None, backup: None }),
    decreases answers.len(),
{
    if !(state is Stopped) {
        lemma_step(from, d, state, answers[0]);
        let (after, reply) = perform(d, asked(state), answers[0]);
        lemma_granted(from, after, next(state, reply).0, answers.skip(1));
    }
}

/// A staged build that may replace the usable one is put in its place, and
/// nothing is left of the swap, where the file system grants every operation.
pub proof fn law_newer_build_is_applied(from: Dirs, answers: Seq<Answer>)
    requires
        may_replace(from),
        forall|i: int| 0 <= i < answers.len() ==> (#[trigger] answers[i]).granted,
        answers.len() >= operations_left(SwapState::Inspecting),
    ensures
        run(from, SwapState::Inspecting, answers) == (
            Dirs { agent: from.staged, staged: None, backup: None },
            SwapState::Stopped(SwapOutcome::Applied),
        ),
{
    lemma_granted(from, from, SwapState::Inspecting, answers);
}

/// A staged build whose version has lower numbers than the one in use, or the same
/// version, never takes its place: no swap is applied, the build in use stays where it
/// is, or in `agent.old/` until it is restored, and the staged build stays too.
pub proof fn law_lower_build_is_never_applied(
    from: Dirs,
    answers: Seq<Answer>,
    used: Build,
    staged: Build,
    u: version::VersionModel,
    s: version::VersionModel,
)
    requires
        from.agent == Some(used) || (from.agent is None && from.backup == Some(used)),
        from.staged == Some(staged),
        used.version is Some && version::parsed_version(text::trimmed(used.version->0)) == Some(u),
        staged.version is Some && version::parsed_version(text::trimmed(staged.version->0))
            == Some(s),
        s == u || s.major < u.major || (s.major == u.major && (s.minor < u.minor || (s.minor
            == u.minor && s.patch < u.patch))),
    ensures
        ({
            let (d, state) = run(from, SwapState::Inspecting, answers);
            &&& state != SwapState::Stopped(SwapOutcome::Applied)
            &&& d.agent == Some(used) || (d == from && from.agent is None)
            &&& d.staged == Some(staged)
            &&& from.agent is Some ==> d == from
            &&& from.agent is Some && answers.len() >= 2 ==> state == SwapState::Stopped(
                SwapOutcome::NotNewer,
            )
        }),
{
    lemma_run(from, from, SwapState::Inspecting, answers);
    assert(!may_replace(from));
    if from.agent is Some {
        lemma_refused(from, answers);
    }
}

proof fn lemma_refused(from: Dirs, answers: Seq<Answer>)
    requires
        from.agent is Some,
        from.staged is Some,
        !may_replace(from),
        file_version(version_text(from.staged)) is Some,
    ensures
        run(from, SwapState::Inspecting, answers).0 == from,
        answers.len() >= 2 ==> run(from, SwapState::Inspecting, answers).1 == SwapState::Stopped(
            SwapOutcome::NotNewer,
        ),
{
    if answers.len() > 0 {
        let rest = answers.skip(1);
        assert(run(from, SwapState::Inspecting, answers) == run(from, SwapState::Gating, rest));
        if rest.len() > 0 {
            assert(run(from, SwapState::Gating, rest) == run(
                from,
                SwapState::Stopped(SwapOutcome::NotNewer),
                rest.skip(1),
            ));
        }
    }
}

/// A staged build whose version has higher numbers than the one in use takes its place
/// where the file system grants every operation, and nothing is left of the other.
pub proof fn law_higher_build_is_applied(
    from: Dirs,
    answers: Seq<Answer>,
    used: Build,
    staged: Build,
    u: version::VersionModel,
    s: version::VersionModel,
)
    requires
        from.agent == Some(used) || (from.agent is None && from.backup == Some(used)),
        from.staged == Some(staged),
        used.version is Some && version::parsed_version(text::trimmed(used.version->0)) == Some(u),
        staged.version is Some && version::parsed_version(text::trimmed(staged.version->0))
            == Some(s),
        s.major > u.major || (s.major == u.major && (s.minor > u.minor || (s.minor == u.minor
            && s.patch > u.patch))),
        answers.len() >= 22,
        forall|i: int| 0 <= i < answers.len() ==> (#[trigger] answers[i]).granted,
    ensures
        run(from, SwapState::Inspecting, answers) == (
            Dirs { agent: Some(staged), staged: None, backup: None },
            SwapState::Stopped(SwapOutcome::Applied),
        ),
{
    assert(may_replace(from));
    lemma_granted(from, from, SwapState::Inspecting, answers);
}

/// A staged build with a version takes the place of a missing one, and of one without a
/// version, where every operation is granted; one without a version takes no place, and
/// where nothing is staged nothing is done.
pub proof fn law_builds_without_version(from: Dirs, answers: Seq<Answer>)
    requires
        answers.len() >= 22,
        forall|i: int| 0 <= i < answers.len() ==> (#[trigger] answers[i]).granted,
    ensures
        ({
            let (d, state) = run(from, SwapState::Inspecting, answers);
            let used = if from.agent is Some {
                from.agent
            } else {
                from.backup
            };
            let known = |b: Option<Build>|
                b is Some && (b->0).version is Some && version::parsed_version(
                    text::trimmed((b->0).version->0),
                ) is Some;
            &&& known(from.staged) && !known(used) ==> state == SwapState::Stopped(
                SwapOutcome::Applied,
            ) && d.agent == from.staged
            &&& !known(from.staged) && from.staged is Some ==> state == SwapState::Stopped(
                SwapOutcome::StagedVersionUnknown,
            ) && d.agent == used && d.staged == from.staged
            &&& from.staged is None ==> state == SwapState::Stopped(SwapOutcome::NothingStaged)
                && d.agent == used
        }),
{
    lemma_run(from, from, SwapState::Inspecting, answers);
    lemma_run_ends(from, from, SwapState::Inspecting, answers);
    if may_replace(from) {
        lemma_granted(from, from, SwapState::Inspecting, answers);
    } else {
        let first = perform(from, SwapAction::Inspect, answers[0]);
        let one = next(SwapState::Inspecting, first.1).0;
        let rest = answers.skip(1);
        assert(run(from, SwapState::Inspecting, answers) == run(from, one, rest));
        if one is Recovering {
            let d = perform(from, SwapAction::RestoreBackup, rest[0]).0;
            assert(rest[0] == answers[1]);
            assert(run(from, one, rest) == run(d, SwapState::Looking, rest.skip(1)));
            lemma_looking(d, rest.skip(1));
        } else if one is Gating {
            lemma_gating(from, rest);
        }
    }
}

proof fn lemma_looking(d: Dirs, answers: Seq<Answer>)
    requires
        answers.len() >= 2,
    ensures
        run(d, SwapState::Looking, answers) == (if d.staged is Some {
            run(d, SwapState::Gating, answers.skip(1))
        } else {
            (d, SwapState::Stopped(SwapOutcome::NothingStaged))
        }),
        d.staged is Some && file_version(version_text(d.staged)) is None ==> run(
            d,
            SwapState::Looking,
            answers,
        ) == (d, SwapState::Stopped(SwapOutcome::StagedVersionUnknown)),
{
    if d.staged is Some {
        assert(run(d, SwapState::Looking, answers) == run(d, SwapState::Gating, answers.skip(1)));
        lemma_gating(d, answers.skip(1));
    } else {
        assert(run(d, SwapState::Looking, answers) == run(
            d,
            SwapState::Stopped(SwapOutcome::NothingStaged),
            answers.skip(1),
        ));
    }
}

proof fn lemma_gating(d: Dirs, answers: Seq<Answer>)
    requires
        answers.len() >= 1,
    ensures
        file_version(version_text(d.staged)) is None ==> run(d, SwapState::Gating, answers) == (
            d,
            SwapState::Stopped(SwapOutcome::StagedVersionUnknown),
        ),
{
    if file_version(version_text(d.staged)) is None {
        assert(run(d, SwapState::Gating, answers) == run(
            d,
            SwapState::Stopped(SwapOutcome::StagedVersionUnknown),
            answers.skip(1),
        ));
    }
}

/// A locked `agent/` is tried for again a quarter of a second later, six times in all:
/// where the move is granted after fewer refusals the swap goes on, and after the sixth
/// `agent/` stays as it is.
pub proof fn law_locked_agent_is_tried_six_times(d: Dirs, refusals: nat, attempt: u32)
    requires
        d.agent is Some,
        d.backup is None,
        refusals + attempt <= 6,
        attempt < 6,
    ensures
        ({
            let refused = Answer { granted: false, debris: None };
            let granted = Answer { granted: true, debris: None };
            let answers = if refusals + attempt == 6 {
                Seq::new((2 * refusals - 1) as nat, |i: int| refused)
            } else {
                Seq::new(2 * refusals, |i: int| refused).push(granted)
            };
            let (after, state) = run(d, SwapState::MovingOut { attempt }, answers);
            if refusals + attempt == 6 {
                after == d && state == SwapState::Stopped(SwapOutcome::AgentLocked)
            } else {
                after == (Dirs { agent: None, backup: d.agent, ..d }) && state
                    == SwapState::MovingIn
            }
        }),
        next(SwapState::MovingOut { attempt }, SwapReply::Failed).1 == (if attempt == 5 {
            SwapAction::Stop(SwapOutcome::AgentLocked)
        } else {
            SwapAction::Pause(250)
        }),
    decreases refusals,
{
    let refused = Answer { granted: false, debris: None };
    let granted = Answer { granted: true, debris: None };
    let answers = if refusals + attempt == 6 {
        Seq::new((2 * refusals - 1) as nat, |i: int| refused)
    } else {
        Seq::new(2 * refusals, |i: int| refused).push(granted)
    };
    let rest = answers.skip(1);
    if refusals == 0 {
        assert(run(d, SwapState::MovingOut { attempt }, answers) == run(
            Dirs { agent: None, backup: d.agent, ..d },
            SwapState::MovingIn,
            rest,
        ));
    } else if attempt == 5 {
        assert(run(d, SwapState::MovingOut { attempt }, answers) == run(
            d,
            SwapState::Stopped(SwapOutcome::AgentLocked),
            rest,
        ));
    } else {
        let less = (refusals - 1) as nat;
        let further = if less + attempt + 1 == 6 {
            Seq::new((2 * less - 1) as nat, |i: int| refused)
        } else {
            Seq::new(2 * less, |i: int| refused).push(granted)
        };
        assert(run(d, SwapState::MovingOut { attempt }, answers) == run(
            d,
            SwapState::Pausing { attempt },
            rest,
        ));
        let again = SwapState::MovingOut { attempt: (attempt + 1) as u32 };
        assert(run(d, SwapState::Pausing { attempt }, rest) == run(d, again, rest.skip(1)));
        assert(rest.skip(1) =~= further);
        law_locked_agent_is_tried_six_times(d, less, (attempt + 1) as u32);
    }
}

/// A staged build that cannot be moved in gives way to the one that was in use: that is
/// back in `agent/`, and the staged build is left for another time.
pub proof fn law_failed_move_is_undone(d: Dirs)
    requires
        d.agent is None,
        d.backup is Some,
    ensures
        ({
            let refused = Answer { granted: false, debris: None };
            let granted = Answer { granted: true, debris: None };
            run(d, SwapState::MovingIn, seq![refused, granted, granted]) == (
                Dirs { agent: d.backup, backup: None, staged: d.staged },
                SwapState::Stopped(SwapOutcome::RolledBack),
            )
        }),
{
    let refused = Answer { granted: false, debris: None };
    let granted = Answer { granted: true, debris: None };
    let answers = seq![refused, granted, granted];
    reveal_with_fuel(run, 4);
    assert(answers.skip(1)[0] == granted);
    assert(answers.skip(1).skip(1)[0] == granted);
}

/// An interrupted swap is repaired before anything else: the backup is back in `agent/`,
/// whatever is staged.
pub proof fn law_interrupted_swap_is_repaired(from: Dirs)
    requires
        from.agent is None,
        from.backup is Some,
    ensures
        ({
            let granted = Answer { granted: true, debris: None };
            run(from, SwapState::Inspecting, seq![granted, granted]).0 == (Dirs {
                agent: from.backup,
                backup: None,
                staged: from.staged,
            })
        }),
{
    let granted = Answer { granted: true, debris: None };
    let answers = seq![granted, granted];
    reveal_with_fuel(run, 3);
    assert(answers.skip(1)[0] == granted);
}

/// `agent/` is moved out of the way only once every other agent process was told to end.
pub proof fn law_strays_are_ended_before_the_move(state: SwapState, reply: SwapReply)
    requires
        fits(state, reply),
        next(state, reply).1 == SwapAction::MoveOut,
    ensures
        asked(state) == SwapAction::KillStrays || (state is Pausing && next(
            SwapState::Preparing,
            SwapReply::Found { agent: true, pending: true, backup: false },
        ).1 == SwapAction::KillStrays),
{
}

/// Every step of a swap takes its own reply: what is looked at is found, what is done is done or
/// fails, and nothing follows the end.
pub proof fn law_steps_take_their_replies(state: SwapState, reply: SwapReply, attempt: u32)
    ensures
        fits(SwapState::Inspecting, reply) <==> reply is Found,
        fits(SwapState::Looking, reply) <==> reply is Found,
        fits(SwapState::Preparing, reply) <==> reply is Found,
        fits(SwapState::Failing, reply) <==> reply is Found,
        fits(SwapState::Finishing, reply) <==> reply is Found,
        fits(SwapState::Gating, reply) <==> reply is Versions,
        attempt < 6 ==> (fits(SwapState::MovingOut { attempt }, reply) <==> reply is Done
            || reply is Failed),
        attempt < 5 ==> (fits(SwapState::Pausing { attempt }, reply) <==> reply is Done
            || reply is Failed),
        attempt >= 6 ==> !fits(SwapState::MovingOut { attempt }, reply),
        attempt >= 5 ==> !fits(SwapState::Pausing { attempt }, reply),
        state is Stopped ==> !fits(state, reply),
{
}

} // verus!
