//! Supervision of the sidecar process.
//!
//! The supervisor is a machine: it asks for one operation at a time (apply a
//! staged build, spawn, wait for readiness, wait for the exit, sleep) and decides
//! from what came of it what follows. A crash is followed by a pause that grows
//! up to a limit; a requested restart is not; and after a clean exit, which means
//! that another instance serves already, the supervisor only watches.

use vstd::prelude::*;
use vstd::string::*;

use crate::account;
use crate::account::Endpoint;
use crate::text;

verus! {

/// How long a fresh sidecar may take to become ready.
pub const SIDECAR_HEALTH_TIMEOUT_MILLIS: u64 = 5_000;

/// The same on macOS, where the first start of the program is slow.
pub const SIDECAR_HEALTH_TIMEOUT_MACOS_MILLIS: u64 = 45_000;

/// The pause between two health checks.
pub const HEALTH_POLL_MILLIS: u64 = 150;

/// The pause after a first crash.
pub const RESTART_BACKOFF_MIN_MILLIS: u64 = 500;

/// The longest pause after a crash.
pub const RESTART_BACKOFF_MAX_MILLIS: u64 = 30_000;

/// The pause between two looks at a sidecar that another instance owns.
pub const WATCH_MILLIS: u64 = 30_000;

/// How long such a sidecar may take to answer.
pub const WATCH_TIMEOUT_MILLIS: u64 = 3_000;

/// How long a fresh sidecar may take to become ready on this platform.
pub fn health_timeout(macos: bool) -> (r: u64)
    ensures
        r == patience(macos),
        r == (if macos {
            SIDECAR_HEALTH_TIMEOUT_MACOS_MILLIS
        } else {
            SIDECAR_HEALTH_TIMEOUT_MILLIS
        }),
{
    if macos {
        SIDECAR_HEALTH_TIMEOUT_MACOS_MILLIS
    } else {
        SIDECAR_HEALTH_TIMEOUT_MILLIS
    }
}

// ---------------------------------------------------------------------------
// The program
// ---------------------------------------------------------------------------

/// The file name of the agent program.
pub fn agent_file_name(windows: bool) -> (r: String)
    ensures
        r@ == (if windows {
            "vibedev-agent.exe"@
        } else {
            "vibedev-agent"@
        }),
{
    if windows {
        "vibedev-agent.exe".to_owned()
    } else {
        "vibedev-agent".to_owned()
    }
}

/// Which program to run.
#[derive(Clone, Copy, Debug, PartialEq, Eq, Structural)]
pub enum AgentProgram {
    /// The one that the environment names.
    Override,
    /// The one next to the running program, in `agent/`.
    Bundled,
    /// The build of a development checkout.
    Development,
}

/// The program to run: the environment decides first; then the bundled program,
/// where it is there.
pub fn agent_program(override_set: bool, bundled_exists: bool) -> (r: AgentProgram)
    ensures
        r == program_of(override_set, bundled_exists),
        r == (if override_set {
            AgentProgram::Override
        } else if bundled_exists {
            AgentProgram::Bundled
        } else {
            AgentProgram::Development
        }),
{
    if override_set {
        AgentProgram::Override
    } else if bundled_exists {
        AgentProgram::Bundled
    } else {
        AgentProgram::Development
    }
}

/// The arguments are these texts.
pub open spec fn is_command(c: (String, Vec<String>), program: Seq<char>, args: Seq<Seq<char>>) ->
    bool {
    c.0@ == program && crate::lists::texts(c.1@) == args
}

/// The command that ends a process, on Windows with its children.
pub fn kill_process_tree(pid: u32, windows: bool) -> (r: (String, Vec<String>))
    ensures
        is_command(r, killing(pid as nat, windows).0, killing(pid as nat, windows).1),
        if windows {
            is_command(
                r,
                "taskkill"@,
                seq!["/F"@, "/T"@, "/PID"@, text::decimal_of(pid as nat)],
            )
        } else {
            is_command(r, "kill"@, seq!["-9"@, text::decimal_of(pid as nat)])
        },
{
    let id = text::decimal(pid as u64);
    if windows {
        let args = vec!["/F".to_owned(), "/T".to_owned(), "/PID".to_owned(), id];
        assert(crate::lists::texts(args@) =~= seq![
            "/F"@,
            "/T"@,
            "/PID"@,
            text::decimal_of(pid as nat),
        ]);
        ("taskkill".to_owned(), args)
    } else {
        let args = vec!["-9".to_owned(), id];
        assert(crate::lists::texts(args@) =~= seq!["-9"@, text::decimal_of(pid as nat)]);
        ("kill".to_owned(), args)
    }
}

/// The command that ends every agent process, where running programs keep their
/// files locked.
pub fn kill_stray_agents(windows: bool) -> (r: Option<(String, Vec<String>)>)
    ensures
        windows ==> r is Some && is_command(
            r->0,
            "taskkill"@,
            seq!["/F"@, "/T"@, "/IM"@, "vibedev-agent.exe"@],
        ),
        !windows ==> r is None,
{
    if windows {
        let args = vec![
            "/F".to_owned(),
            "/T".to_owned(),
            "/IM".to_owned(),
            "vibedev-agent.exe".to_owned(),
        ];
        assert(crate::lists::texts(args@) =~= seq!["/F"@, "/T"@, "/IM"@, "vibedev-agent.exe"@]);
        Some(("taskkill".to_owned(), args))
    } else {
        None
    }
}

/// Whether a recorded process is to be ended when the program quits: there is
/// none where the record is zero.
pub fn kill_on_quit(pid: u32) -> (r: bool)
    ensures
        r == (pid != 0),
{
    pid != 0
}

// ---------------------------------------------------------------------------
// Readiness
// ---------------------------------------------------------------------------

/// The address of the health check.
pub fn health_url(port: u16) -> (r: String)
    ensures
        r@ == account::loopback(port, "/vibedev/health"@),
{
    account::loopback_url(port, "/vibedev/health")
}

/// What follows a health check.
#[derive(Clone, Copy, Debug, PartialEq, Eq, Structural)]
pub enum ReadyStep {
    Ready,
    TimedOut,
    /// Check again after this many milliseconds.
    Again(u64),
}

/// What follows a health check.
pub open spec fn ready_step(
    endpoint_readable: bool,
    healthy: bool,
    waited: u64,
    timeout: u64,
) -> ReadyStep {
    if !endpoint_readable || !healthy {
        if waited < timeout {
            ReadyStep::Again(HEALTH_POLL_MILLIS)
        } else {
            ReadyStep::TimedOut
        }
    } else {
        ReadyStep::Ready
    }
}

/// What follows a health check, `waited` milliseconds after the first one began:
/// the sidecar is ready once its handshake can be read and it answers with
/// success; else it is given up when the time is up.
pub fn await_ready(endpoint_readable: bool, healthy: bool, waited: u64, timeout: u64) -> (r:
    ReadyStep)
    ensures
        r == ready_step(endpoint_readable, healthy, waited, timeout),
        r == (if endpoint_readable && healthy {
            ReadyStep::Ready
        } else if waited >= timeout {
            ReadyStep::TimedOut
        } else {
            ReadyStep::Again(HEALTH_POLL_MILLIS)
        }),
{
    if endpoint_readable && healthy {
        ReadyStep::Ready
    } else if waited >= timeout {
        ReadyStep::TimedOut
    } else {
        ReadyStep::Again(HEALTH_POLL_MILLIS)
    }
}

// ---------------------------------------------------------------------------
// The end of a wait
// ---------------------------------------------------------------------------

/// What the restart channel holds.
#[derive(Clone, Copy, Debug, PartialEq, Eq, Structural)]
pub enum RestartChannel {
    Empty,
    Queued,
    /// Nobody can ask for a restart any more.
    Closed,
}

/// Why a wait for the sidecar ended.
#[derive(Clone, Copy, Debug, PartialEq, Eq, Structural)]
pub enum Wait {
    /// It exited; with whether it did so with success.
    Exited { success: bool },
    RestartRequested,
}

/// Whether a wait ends, and why.
pub open spec fn wait_end(exited: Option<bool>, channel: RestartChannel) -> Option<Wait> {
    if exited is Some {
        Some(Wait::Exited { success: exited->0 })
    } else if channel is Queued {
        Some(Wait::RestartRequested)
    } else {
        None
    }
}

/// Whether a wait ends, and why: an exit counts first, then a queued request. A
/// closed channel never ends a wait.
pub fn race_child_or_restart(exited: Option<bool>, channel: RestartChannel) -> (r: Option<Wait>)
    ensures
        r == wait_end(exited, channel),
        r == (match exited {
            Some(success) => Some(Wait::Exited { success }),
            None => if channel == RestartChannel::Queued {
                Some(Wait::RestartRequested)
            } else {
                None
            },
        }),
{
    match exited {
        Some(success) => Some(Wait::Exited { success }),
        None => match channel {
            RestartChannel::Queued => Some(Wait::RestartRequested),
            _ => None,
        },
    }
}

// ---------------------------------------------------------------------------
// Supervision
// ---------------------------------------------------------------------------

/// What the supervisor asks for.
#[derive(Clone, Copy, Debug, PartialEq, Eq, Structural)]
pub enum SuperviseAction {
    /// Swap in a staged build, if there is one.
    ApplyStaged,
    /// Tell whether the program to run exists.
    FindProgram,
    /// Start the sidecar and record its process.
    Spawn,
    /// Wait until the sidecar is ready, for at most this many milliseconds.
    AwaitReady(u64),
    /// Point edit prediction and the inline assistant at the sidecar.
    Configure,
    /// Wait until the sidecar exits or a restart is requested; an exit clears the
    /// recorded process.
    AwaitExit,
    /// End the recorded process with its children, reap it, clear the record.
    KillAndReap,
    /// Forget every queued restart request.
    DrainRequests,
    /// Wait for this many milliseconds.
    Sleep(u64),
    /// Give up.
    Stop,
}

/// Where the supervisor stands.
#[derive(Clone, Copy, Debug, PartialEq, Eq, Structural)]
pub enum Phase {
    Updating,
    Locating,
    Spawning,
    Readying,
    Configuring,
    Waiting,
    Killing,
    Reupdating,
    Draining,
    Watching,
    Probing,
    Pausing,
    Stopped,
}

/// The supervisor: where it stands, and the pause that the next crash brings.
#[derive(Clone, Copy, Debug, PartialEq, Eq, Structural)]
pub struct Supervisor {
    pub phase: Phase,
    pub backoff: u64,
    pub health_timeout: u64,
}

/// What came of an operation.
#[derive(Clone, Copy, Debug, PartialEq, Eq, Structural)]
pub enum SuperviseEvent {
    /// It succeeded, or its failure does not matter.
    Done,
    Failed,
    /// The sidecar exited.
    Exited { success: bool },
    RestartRequested,
}

impl Supervisor {
    /// The pause is one that crashes can bring.
    pub open spec fn wf(self) -> bool {
        RESTART_BACKOFF_MIN_MILLIS <= self.backoff <= RESTART_BACKOFF_MAX_MILLIS
    }

    /// What the supervisor asks for.
    pub open spec fn asks(self) -> SuperviseAction {
        match self.phase {
            Phase::Updating | Phase::Reupdating => SuperviseAction::ApplyStaged,
            Phase::Locating => SuperviseAction::FindProgram,
            Phase::Spawning => SuperviseAction::Spawn,
            Phase::Readying => SuperviseAction::AwaitReady(self.health_timeout),
            Phase::Configuring => SuperviseAction::Configure,
            Phase::Waiting => SuperviseAction::AwaitExit,
            Phase::Killing => SuperviseAction::KillAndReap,
            Phase::Draining => SuperviseAction::DrainRequests,
            Phase::Watching => SuperviseAction::Sleep(WATCH_MILLIS),
            Phase::Probing => SuperviseAction::AwaitReady(WATCH_TIMEOUT_MILLIS),
            Phase::Pausing => SuperviseAction::Sleep(self.backoff),
            Phase::Stopped => SuperviseAction::Stop,
        }
    }

    pub open spec fn at(self, phase: Phase) -> Supervisor {
        Supervisor { phase, ..self }
    }

    /// At the phase, with the shortest pause.
    pub open spec fn fresh(self, phase: Phase) -> Supervisor {
        Supervisor { phase, backoff: RESTART_BACKOFF_MIN_MILLIS, ..self }
    }

    /// At the phase, with twice the pause, up to the limit.
    pub open spec fn slower(self, phase: Phase) -> Supervisor {
        Supervisor {
            phase,
            backoff: if self.backoff * 2 <= RESTART_BACKOFF_MAX_MILLIS {
                (self.backoff * 2) as u64
            } else {
                RESTART_BACKOFF_MAX_MILLIS
            },
            ..self
        }
    }

    /// What follows an event.
    pub open spec fn next(self, event: SuperviseEvent) -> Supervisor {
        match self.phase {
            Phase::Updating => self.at(Phase::Locating),
            Phase::Locating => if event is Failed {
                self.at(Phase::Stopped)
            } else {
                self.at(Phase::Spawning)
            },
            Phase::Spawning => if event is Failed {
                self.at(Phase::Stopped)
            } else {
                self.at(Phase::Readying)
            },
            Phase::Readying => if event is Failed {
                self.at(Phase::Waiting)
            } else {
                self.fresh(Phase::Configuring)
            },
            Phase::Configuring => self.at(Phase::Waiting),
            Phase::Waiting => match event {
                SuperviseEvent::RestartRequested => self.at(Phase::Killing),
                SuperviseEvent::Exited { success } => if success {
                    self.at(Phase::Watching)
                } else {
                    self.at(Phase::Pausing)
                },
                _ => self.at(Phase::Pausing),
            },
            Phase::Killing => self.at(Phase::Reupdating),
            Phase::Reupdating => self.at(Phase::Draining),
            Phase::Draining => self.fresh(Phase::Spawning),
            Phase::Watching => self.at(Phase::Probing),
            Phase::Probing => if event is Failed {
                self.fresh(Phase::Spawning)
            } else {
                self.at(Phase::Watching)
            },
            Phase::Pausing => self.slower(Phase::Spawning),
            Phase::Stopped => self,
        }
    }

    /// A supervisor at its start.
    pub fn new(health_timeout: u64) -> (r: Supervisor)
        ensures
            r.wf(),
            r == (Supervisor {
                phase: Phase::Updating,
                backoff: RESTART_BACKOFF_MIN_MILLIS,
                health_timeout,
            }),
    {
        Supervisor { phase: Phase::Updating, backoff: RESTART_BACKOFF_MIN_MILLIS, health_timeout }
    }

    /// What the supervisor asks for.
    pub fn action(&self) -> (r: SuperviseAction)
        ensures
            r == self.asks(),
    {
        match self.phase {
            Phase::Updating => SuperviseAction::ApplyStaged,
            Phase::Reupdating => SuperviseAction::ApplyStaged,
            Phase::Locating => SuperviseAction::FindProgram,
            Phase::Spawning => SuperviseAction::Spawn,
            Phase::Readying => SuperviseAction::AwaitReady(self.health_timeout),
            Phase::Configuring => SuperviseAction::Configure,
            Phase::Waiting => SuperviseAction::AwaitExit,
            Phase::Killing => SuperviseAction::KillAndReap,
            Phase::Draining => SuperviseAction::DrainRequests,
            Phase::Watching => SuperviseAction::Sleep(WATCH_MILLIS),
            Phase::Probing => SuperviseAction::AwaitReady(WATCH_TIMEOUT_MILLIS),
            Phase::Pausing => SuperviseAction::Sleep(self.backoff),
            Phase::Stopped => SuperviseAction::Stop,
        }
    }

    /// Takes what came of the operation and goes on.
    pub fn supervise(&mut self, event: SuperviseEvent)
        requires
            old(self).wf(),
        ensures
            final(self).wf(),
            *final(self) == old(self).next(event),
    {
        let failed = matches!(event, SuperviseEvent::Failed);
        match self.phase {
            Phase::Updating => {
                self.phase = Phase::Locating;
            },
            Phase::Locating => {
                self.phase = if failed {
                    Phase::Stopped
                } else {
                    Phase::Spawning
                };
            },
            Phase::Spawning => {
                self.phase = if failed {
                    Phase::Stopped
                } else {
                    Phase::Readying
                };
            },
            Phase::Readying => {
                if failed {
                    self.phase = Phase::Waiting;
                } else {
                    self.backoff = RESTART_BACKOFF_MIN_MILLIS;
                    self.phase = Phase::Configuring;
                }
            },
            Phase::Configuring => {
                self.phase = Phase::Waiting;
            },
            Phase::Waiting => {
                self.phase = match event {
                    SuperviseEvent::RestartRequested => Phase::Killing,
                    SuperviseEvent::Exited { success } => if success {
                        Phase::Watching
                    } else {
                        Phase::Pausing
                    },
                    _ => Phase::Pausing,
                };
            },
            Phase::Killing => {
                self.phase = Phase::Reupdating;
            },
            Phase::Reupdating => {
                self.phase = Phase::Draining;
            },
            Phase::Draining => {
                self.backoff = RESTART_BACKOFF_MIN_MILLIS;
                self.phase = Phase::Spawning;
            },
            Phase::Watching => {
                self.phase = Phase::Probing;
            },
            Phase::Probing => {
                if failed {
                    self.backoff = RESTART_BACKOFF_MIN_MILLIS;
                    self.phase = Phase::Spawning;
                } else {
                    self.phase = Phase::Watching;
                }
            },
            Phase::Pausing => {
                self.backoff = if self.backoff * 2 <= RESTART_BACKOFF_MAX_MILLIS {
                    self.backoff * 2
                } else {
                    RESTART_BACKOFF_MAX_MILLIS
                };
                self.phase = Phase::Spawning;
            },
            Phase::Stopped => {},
        }
    }
}

/// The supervisor after a sequence of events.
pub open spec fn supervised(s: Supervisor, events: Seq<SuperviseEvent>) -> Supervisor
    decreases events.len(),
{
    if events.len() == 0 {
        s
    } else {
        supervised(s, events.drop_last()).next(events.last())
    }
}

/// The pause stays within its limits, whatever happens.
pub proof fn law_backoff_is_bounded(s: Supervisor, events: Seq<SuperviseEvent>)
    requires
        s.wf(),
    ensures
        supervised(s, events).wf(),
    decreases events.len(),
{
    if events.len() > 0 {
        law_backoff_is_bounded(s, events.drop_last());
    }
}

/// A sidecar that was not asked to restart is started anew only after a pause of
/// at least the shortest one, or after the instance that serves in its place was
/// seen to be gone: a crash loop cannot spin.
pub proof fn law_respawn_follows_pause(s: Supervisor, event: SuperviseEvent)
    requires
        s.wf(),
        s.next(event).phase == Phase::Spawning,
        s.phase != Phase::Locating,
    ensures
        s.phase == Phase::Draining || s.phase == Phase::Probing || (s.asks() matches
            SuperviseAction::Sleep(ms) && ms >= RESTART_BACKOFF_MIN_MILLIS),
{
}

/// A requested restart ends the process, swaps in a staged build, forgets the
/// other requests and spawns again, without a pause, and with the shortest pause
/// for the next crash.
pub proof fn law_requested_restart_does_not_pause(
    s: Supervisor,
    a: SuperviseEvent,
    b: SuperviseEvent,
    c: SuperviseEvent,
)
    requires
        s.phase == Phase::Waiting,
    ensures
        ({
            let killing = s.next(SuperviseEvent::RestartRequested);
            let swapping = killing.next(a);
            let draining = swapping.next(b);
            let spawning = draining.next(c);
            &&& killing.asks() == SuperviseAction::KillAndReap
            &&& swapping.asks() == SuperviseAction::ApplyStaged
            &&& draining.asks() == SuperviseAction::DrainRequests
            &&& spawning.asks() == SuperviseAction::Spawn
            &&& spawning.backoff == RESTART_BACKOFF_MIN_MILLIS
        }),
{
}

/// After a clean exit nothing is spawned while the owner of the port answers.
pub proof fn law_clean_exit_only_watches(s: Supervisor, answers: nat)
    requires
        s.phase == Phase::Waiting,
    ensures
        supervised(
            s.next(SuperviseEvent::Exited { success: true }),
            Seq::new(answers, |i: int| SuperviseEvent::Done),
        ).phase == Phase::Watching || supervised(
            s.next(SuperviseEvent::Exited { success: true }),
            Seq::new(answers, |i: int| SuperviseEvent::Done),
        ).phase == Phase::Probing,
    decreases answers,
{
    let events = Seq::new(answers, |i: int| SuperviseEvent::Done);
    if answers > 0 {
        law_clean_exit_only_watches(s, (answers - 1) as nat);
        assert(events.drop_last() =~= Seq::new(
            (answers - 1) as nat,
            |i: int| SuperviseEvent::Done,
        ));
    }
}

/// The pause after the crash that follows `n` crashes in a row.
pub open spec fn pause_after(n: nat) -> nat
    decreases n,
{
    if n == 0 {
        RESTART_BACKOFF_MIN_MILLIS as nat
    } else if pause_after((n - 1) as nat) * 2 <= RESTART_BACKOFF_MAX_MILLIS {
        pause_after((n - 1) as nat) * 2
    } else {
        RESTART_BACKOFF_MAX_MILLIS as nat
    }
}

/// One start that never becomes ready and then crashes.
pub open spec fn crash(s: Supervisor) -> Supervisor {
    s.next(SuperviseEvent::Done).next(SuperviseEvent::Failed).next(
        SuperviseEvent::Exited { success: false },
    ).next(SuperviseEvent::Done)
}

pub open spec fn crashes(s: Supervisor, n: nat) -> Supervisor
    decreases n,
{
    if n == 0 {
        s
    } else {
        crash(crashes(s, (n - 1) as nat))
    }
}

/// Each crash of a sidecar that was never ready doubles the pause, up to the
/// limit.
pub proof fn law_pause_doubles(s: Supervisor, n: nat)
    requires
        s.phase == Phase::Spawning,
        s.backoff == RESTART_BACKOFF_MIN_MILLIS,
    ensures
        crashes(s, n).phase == Phase::Spawning,
        crashes(s, n).backoff == pause_after(n),
        pause_after(n) <= RESTART_BACKOFF_MAX_MILLIS,
    decreases n,
{
    if n > 0 {
        law_pause_doubles(s, (n - 1) as nat);
    }
}

// ---------------------------------------------------------------------------
// What is configured once the sidecar is ready
// ---------------------------------------------------------------------------

/// Whether edit prediction is to be pointed at the endpoint: not where it points
/// at that port already. The port is remembered.
pub fn configure_fim(configured_port: &mut Option<u16>, endpoint: Option<&Endpoint>) -> (r: bool)
    ensures
        match endpoint {
            Some(e) => {
                &&& r == (*old(configured_port) != Some(e.port))
                &&& *final(configured_port) == Some(e.port)
            },
            None => !r && *final(configured_port) == *old(configured_port),
        },
{
    match endpoint {
        Some(e) => {
            let same = match *configured_port {
                Some(p) => p == e.port,
                None => false,
            };
            *configured_port = Some(e.port);
            !same
        },
        None => false,
    }
}

/// Whether the inline assistant is to be pointed at the endpoint: not where both
/// the port and the number of models are as they were. Both are remembered.
pub fn configure_inline_assistant(
    configured: &mut Option<(u16, usize)>,
    endpoint: Option<&Endpoint>,
    models: &Vec<String>,
) -> (r: bool)
    ensures
        match endpoint {
            Some(e) => {
                &&& r == (*old(configured) != Some((e.port, models.len())))
                &&& *final(configured) == Some((e.port, models.len()))
            },
            None => !r && *final(configured) == *old(configured),
        },
{
    match endpoint {
        Some(e) => {
            let same = match *configured {
                Some((port, count)) => port == e.port && count == models.len(),
                None => false,
            };
            *configured = Some((e.port, models.len()));
            !same
        },
        None => false,
    }
}

// ---------------------------------------------------------------------------
// What a supervisor is for
// ---------------------------------------------------------------------------

/// A sidecar that another instance owns is looked at every half minute, for as long as
/// it answers within three seconds. Once it does not, a sidecar is spawned at once, with
/// the shortest pause for the next crash.
pub proof fn law_gone_owner_is_replaced(s: Supervisor, slept: SuperviseEvent, e: SuperviseEvent)
    requires
        s.phase == Phase::Waiting || s.phase == Phase::Probing,
    ensures
        s.phase == Phase::Waiting ==> ({
            let watching = s.next(SuperviseEvent::Exited { success: true });
            let probing = watching.next(slept);
            &&& watching.asks() == SuperviseAction::Sleep(30_000)
            &&& probing.asks() == SuperviseAction::AwaitReady(3_000)
            &&& probing.next(SuperviseEvent::Failed).asks() == SuperviseAction::Spawn
            &&& probing.next(SuperviseEvent::Failed).backoff == 500
            &&& probing.next(SuperviseEvent::Done).asks() == SuperviseAction::Sleep(30_000)
        }),
        s.phase == Phase::Probing ==> ({
            &&& s.asks() == SuperviseAction::AwaitReady(3_000)
            &&& s.next(SuperviseEvent::Failed).asks() == SuperviseAction::Spawn
            &&& s.next(SuperviseEvent::Failed).backoff == 500
            &&& !(e is Failed) ==> s.next(e).asks() == SuperviseAction::Sleep(30_000)
            &&& !(e is Failed) ==> s.next(e).next(slept).phase == Phase::Probing
        }),
{
}

/// However often the owner answered, the sidecar is spawned as soon as it does not.
pub proof fn law_watch_ends_with_the_owner(s: Supervisor, answers: nat)
    requires
        s.phase == Phase::Waiting,
    ensures
        supervised(
            s.next(SuperviseEvent::Exited { success: true }),
            Seq::new(2 * answers + 1, |i: int| SuperviseEvent::Done).push(SuperviseEvent::Failed),
        ).asks() == SuperviseAction::Spawn,
{
    let watching = s.next(SuperviseEvent::Exited { success: true });
    let done = Seq::new(2 * answers + 1, |i: int| SuperviseEvent::Done);
    lemma_watch(watching, answers);
    assert(done.push(SuperviseEvent::Failed).drop_last() =~= done);
}

proof fn lemma_watch(s: Supervisor, answers: nat)
    requires
        s.phase == Phase::Watching,
    ensures
        supervised(s, Seq::new(2 * answers + 1, |i: int| SuperviseEvent::Done)).phase
            == Phase::Probing,
    decreases answers,
{
    let all = Seq::new(2 * answers + 1, |i: int| SuperviseEvent::Done);
    reveal_with_fuel(supervised, 3);
    if answers > 0 {
        lemma_watch(s, (answers - 1) as nat);
        assert(all.drop_last().drop_last() =~= Seq::new(
            (2 * (answers - 1) + 1) as nat,
            |i: int| SuperviseEvent::Done,
        ));
    }
}

/// A sidecar that crashed is started again after the pause that is due, and the pause
/// doubles, up to half a minute. One that became ready makes the next pause half a second.
pub proof fn law_crash_is_followed_by_respawn(s: Supervisor, slept: SuperviseEvent)
    requires
        s.wf(),
        s.phase == Phase::Waiting,
    ensures
        ({
            let pausing = s.next(SuperviseEvent::Exited { success: false });
            let again = pausing.next(slept);
            &&& pausing.asks() == SuperviseAction::Sleep(s.backoff)
            &&& again.asks() == SuperviseAction::Spawn
            &&& again.backoff == (if s.backoff <= 15_000 {
                s.backoff * 2
            } else {
                30_000
            })
            &&& s.next(SuperviseEvent::Failed) == pausing
        }),
        500 <= s.backoff <= 30_000,
{
}

/// A spawned sidecar is given its time to become ready. One that does is configured, and
/// the next pause is the shortest; one that does not is kept all the same, and the pause
/// stays. Either is then waited for.
pub proof fn law_ready_sidecar_is_configured(s: Supervisor, e: SuperviseEvent)
    requires
        s.phase == Phase::Spawning,
        !(e is Failed),
    ensures
        ({
            let readying = s.next(e);
            let ready = readying.next(SuperviseEvent::Done);
            let late = readying.next(SuperviseEvent::Failed);
            &&& s.asks() == SuperviseAction::Spawn
            &&& readying.asks() == SuperviseAction::AwaitReady(s.health_timeout)
            &&& ready.asks() == SuperviseAction::Configure
            &&& ready.backoff == 500
            &&& ready.next(e).asks() == SuperviseAction::AwaitExit
            &&& ready.next(SuperviseEvent::Failed).asks() == SuperviseAction::AwaitExit
            &&& ready.next(e).backoff == 500
            &&& late.asks() == SuperviseAction::AwaitExit
            &&& late.backoff == s.backoff
        }),
{
}

/// Supervision begins with a staged build, looks for the program, and spawns it. Only a
/// program that is missing, or that cannot be spawned, ends it, and then for good.
pub proof fn law_supervision_begins_and_ends(
    s: Supervisor,
    swapped: SuperviseEvent,
    e: SuperviseEvent,
)
    ensures
        s.phase == Phase::Updating ==> ({
            &&& s.asks() == SuperviseAction::ApplyStaged
            &&& s.next(swapped).asks() == SuperviseAction::FindProgram
            &&& s.next(swapped).next(SuperviseEvent::Done).asks() == SuperviseAction::Spawn
            &&& s.next(swapped).next(SuperviseEvent::Failed).asks() == SuperviseAction::Stop
            &&& s.next(swapped).next(SuperviseEvent::Done).backoff == s.backoff
        }),
        s.asks() == SuperviseAction::Spawn ==> s.next(SuperviseEvent::Failed).asks()
            == SuperviseAction::Stop,
        s.asks() == SuperviseAction::Stop ==> s.next(e) == s,
        s.next(e).asks() == SuperviseAction::Stop && s.asks() != SuperviseAction::Stop ==> e is Failed
            && (s.asks() == SuperviseAction::Spawn || s.asks() == SuperviseAction::FindProgram),
{
}

/// The process is ended only because a restart was requested, and nothing but the wait
/// for its exit hears requests.
pub proof fn law_only_requests_kill(s: Supervisor, e: SuperviseEvent)
    requires
        s.next(e).asks() == SuperviseAction::KillAndReap,
    ensures
        s.asks() == SuperviseAction::AwaitExit && e == SuperviseEvent::RestartRequested,
{
}

/// A sidecar is ready exactly when its handshake can be read and it answers well, however
/// long that took; else it is asked again until its time is up.
pub proof fn law_readiness_needs_handshake_and_health(waited: u64, timeout: u64, other: bool)
    ensures
        ready_step(true, true, waited, timeout) == ReadyStep::Ready,
        waited < timeout ==> ready_step(false, other, waited, timeout) == ReadyStep::Again(150)
            && ready_step(other, false, waited, timeout) == ReadyStep::Again(150),
        waited >= timeout ==> ready_step(false, other, waited, timeout) == ReadyStep::TimedOut
            && ready_step(other, false, waited, timeout) == ReadyStep::TimedOut,
{
}

/// An exit ends a wait, whatever is requested at the same time, and with the success that it
/// had; a request ends one of a sidecar that runs; nothing else does.
pub proof fn law_exits_count_before_requests(success: bool, channel: RestartChannel)
    ensures
        wait_end(Some(success), channel) == Some(Wait::Exited { success }),
        wait_end(None, RestartChannel::Queued) == Some(Wait::RestartRequested),
        wait_end(None, RestartChannel::Empty) is None,
        wait_end(None, RestartChannel::Closed) is None,
{
}

/// Which agent is run.
pub open spec fn program_of(override_set: bool, bundled_exists: bool) -> AgentProgram {
    match (override_set, bundled_exists) {
        (true, _) => AgentProgram::Override,
        (false, true) => AgentProgram::Bundled,
        (false, false) => AgentProgram::Development,
    }
}

/// How long a sidecar may take to answer.
pub open spec fn patience(macos: bool) -> u64 {
    if macos {
        45_000
    } else {
        5_000
    }
}

/// The command that ends a process, and its arguments.
pub open spec fn killing(pid: nat, windows: bool) -> (Seq<char>, Seq<Seq<char>>) {
    if windows {
        ("taskkill"@, seq!["/F"@, "/T"@, "/PID"@, text::decimal_of(pid)])
    } else {
        ("kill"@, seq!["-9"@, text::decimal_of(pid)])
    }
}

/// What the user names is run before what was shipped, and that before a build of one's own.
pub proof fn law_named_program_comes_first(override_set: bool, bundled_exists: bool)
    ensures
        program_of(override_set, bundled_exists) == AgentProgram::Override <==> override_set,
        program_of(override_set, bundled_exists) == AgentProgram::Bundled <==> !override_set
            && bundled_exists,
{
}

/// A sidecar has five seconds to answer, on macOS three quarters of a minute.
pub proof fn law_sidecar_is_given_time(macos: bool)
    ensures
        patience(true) == 45_000,
        patience(false) == 5_000,
        SIDECAR_HEALTH_TIMEOUT_MILLIS == patience(false),
        SIDECAR_HEALTH_TIMEOUT_MACOS_MILLIS == patience(true),
{
}

/// The command that ends a process names that process last, and ends it at once.
pub proof fn law_the_process_is_named_that_ends(
    c: (String, Vec<String>),
    pid: nat,
    windows: bool,
)
    requires
        is_command(c, killing(pid, windows).0, killing(pid, windows).1),
    ensures
        crate::lists::texts(c.1@).last() == text::decimal_of(pid),
        windows ==> c.0@ == "taskkill"@ && crate::lists::texts(c.1@).contains("/F"@)
            && crate::lists::texts(c.1@).contains("/T"@) && crate::lists::texts(c.1@).len() == 4
            && crate::lists::texts(c.1@)[2] == "/PID"@,
        !windows ==> c.0@ == "kill"@ && crate::lists::texts(c.1@)[0] == "-9"@,
{
    let args = crate::lists::texts(c.1@);
    if windows {
        assert(args[0] == "/F"@ && args[1] == "/T"@);
    }
}

} // verus!
