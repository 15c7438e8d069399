//! Reverse tunnels: the traffic of an agent on a remote host goes back through
//! the local machine, over `ssh -R` and a proxy that serves `CONNECT` requests.

use vstd::prelude::*;
use vstd::string::*;

use crate::lists;
use crate::table::Table;
use crate::text;

verus! {

/// How often a tunnel is tried.
pub const TUNNEL_TRIES: u32 = 3;

/// The pause after a failed try is this many milliseconds for each try so far.
pub const TUNNEL_PAUSE_MILLIS: u64 = 400;

/// How long `ssh` may take to report the forwarded port, in seconds.
pub const ALLOCATION_TIMEOUT_SECS: u64 = 8;

/// The largest head of a request that is still read on.
pub const MAX_HEAD_BYTES: usize = 16_384;

/// What answers a `CONNECT` request once its target is reached.
pub const CONNECTED_REPLY: &'static str = "HTTP/1.1 200 Connection Established\r\n\r\n";

// ---------------------------------------------------------------------------
// The registry
// ---------------------------------------------------------------------------

/// The tunnels of this session: the remote port of each host, and the `ssh`
/// processes that keep them up.
#[derive(Debug, PartialEq, Eq)]
pub struct TunnelRegistry {
    pub ports: Table<u16>,
    pub processes: Vec<u32>,
}

impl TunnelRegistry {
    pub fn new() -> (r: TunnelRegistry)
        ensures
            r.ports@ == Map::<Seq<char>, u16>::empty(),
            r.processes@ == Seq::<u32>::empty(),
    {
        TunnelRegistry { ports: Table::new(), processes: Vec::new() }
    }
}

/// The remote port of each host that has a tunnel.
pub fn tunnels(registry: &TunnelRegistry) -> (r: &Table<u16>)
    ensures
        *r == registry.ports,
{
    &registry.ports
}

/// The `ssh` processes that keep tunnels up.
pub fn children(registry: &TunnelRegistry) -> (r: &Vec<u32>)
    ensures
        *r == registry.processes,
{
    &registry.processes
}

/// Records a process that keeps a tunnel up.
pub fn keep_alive(registry: &mut TunnelRegistry, process: u32)
    ensures
        final(registry).processes@ == old(registry).processes@.push(process),
        final(registry).ports == old(registry).ports,
{
    registry.processes.push(process);
}

/// Forgets every tunnel and hands out the processes to end: all that were
/// recorded, in order. Nothing is left of a tunnel, so the next one for a host is
/// set up anew.
pub fn teardown_tunnels(registry: &mut TunnelRegistry) -> (r: Vec<u32>)
    ensures
        r@ == old(registry).processes@,
        final(registry).processes@ == Seq::<u32>::empty(),
        final(registry).ports@ == Map::<Seq<char>, u16>::empty(),
{
    let mut doomed: Vec<u32> = Vec::new();
    doomed.append(&mut registry.processes);
    registry.ports = Table::new();
    assert(doomed@ =~= old(registry).processes@);
    doomed
}

// ---------------------------------------------------------------------------
// Setting a tunnel up
// ---------------------------------------------------------------------------

/// What setting up a tunnel comes to.
#[derive(Clone, Copy, Debug, PartialEq, Eq, Structural)]
pub enum TunnelStep {
    /// The tunnel is up, with this remote port.
    Up(u16),
    /// Try with this number, counted from one.
    Try(u32),
    /// Wait for this many milliseconds, then try with this number.
    PauseThenTry { millis: u64, next: u32 },
    /// Wait for this many milliseconds, then give up.
    PauseThenFail { millis: u64 },
}

/// The first step for a host, given the ports of the tunnels that are up.
pub open spec fn first_step(ports: Map<Seq<char>, u16>, host: Seq<char>) -> TunnelStep {
    if ports.contains_key(host) {
        TunnelStep::Up(ports[host])
    } else {
        TunnelStep::Try(1)
    }
}

/// The first step for a host: the tunnel that it has already, else a first try.
pub fn ensure_tunnel(registry: &TunnelRegistry, host: &str) -> (r: TunnelStep)
    ensures
        r == first_step(registry.ports@, host@),
{
    match registry.ports.get(host) {
        Some(port) => TunnelStep::Up(*port),
        None => TunnelStep::Try(1),
    }
}

/// What follows a try that failed.
pub open spec fn after_failure(attempt: u32) -> TunnelStep {
    let millis = (TUNNEL_PAUSE_MILLIS * attempt) as u64;
    if attempt < TUNNEL_TRIES {
        TunnelStep::PauseThenTry { millis, next: (attempt + 1) as u32 }
    } else {
        TunnelStep::PauseThenFail { millis }
    }
}

/// What follows a try: a forwarded port is recorded for the host together with
/// the process that keeps it; else there is a pause that grows with the tries.
pub fn after_try(
    registry: &mut TunnelRegistry,
    host: &str,
    attempt: u32,
    forwarded: Option<(u16, u32)>,
) -> (r: TunnelStep)
    requires
        1 <= attempt <= TUNNEL_TRIES,
    ensures
        match forwarded {
            Some((port, process)) => {
                &&& r == TunnelStep::Up(port)
                &&& final(registry).ports@ == old(registry).ports@.insert(host@, port)
                &&& final(registry).processes@ == old(registry).processes@.push(process)
            },
            None => {
                &&& *final(registry) == *old(registry)
                &&& r == after_failure(attempt)
                &&& r == (if attempt < TUNNEL_TRIES {
                    TunnelStep::PauseThenTry {
                        millis: (TUNNEL_PAUSE_MILLIS * attempt) as u64,
                        next: (attempt + 1) as u32,
                    }
                } else {
                    TunnelStep::PauseThenFail { millis: (TUNNEL_PAUSE_MILLIS * attempt) as u64 }
                })
            },
        },
{
    match forwarded {
        Some((port, process)) => {
            keep_alive(registry, process);
            registry.ports.insert(host, port);
            TunnelStep::Up(port)
        },
        None => {
            let millis: u64 = TUNNEL_PAUSE_MILLIS * attempt as u64;
            if attempt < TUNNEL_TRIES {
                TunnelStep::PauseThenTry { millis, next: attempt + 1 }
            } else {
                TunnelStep::PauseThenFail { millis }
            }
        },
    }
}

/// The options that make `ssh` report the forwarded port and fail where it cannot
/// be forwarded.
pub open spec fn fixed_options() -> Seq<Seq<char>> {
    seq![
        "-v"@,
        "-N"@,
        "-o"@,
        "ExitOnForwardFailure=yes"@,
        "-o"@,
        "StrictHostKeyChecking=accept-new"@,
        "-o"@,
        "ServerAliveInterval=30"@,
        "-o"@,
        "BatchMode=yes"@,
        "-R"@,
    ]
}

/// The arguments of `ssh`: the port and the user where they are given, further
/// arguments, the fixed options, the forward, and the host.
pub open spec fn ssh_args(
    host: Seq<char>,
    port: Option<u16>,
    username: Option<Seq<char>>,
    extra: Seq<Seq<char>>,
    local_port: u16,
) -> Seq<Seq<char>> {
    (match port {
        Some(p) => seq!["-p"@, text::decimal_of(p as nat)],
        None => Seq::empty(),
    }) + (match username {
        Some(u) => seq!["-l"@, u],
        None => Seq::empty(),
    }) + extra + fixed_options() + seq![
        "127.0.0.1:0:127.0.0.1:"@ + text::decimal_of(local_port as nat),
        host,
    ]
}

fn add_arg(out: &mut Vec<String>, s: &str)
    ensures
        lists::texts(final(out)@) == lists::texts(old(out)@).push(s@),
{
    out.push(s.to_owned());
    assert(lists::texts(out@) =~= lists::texts(old(out)@).push(s@));
}

/// The arguments of the `ssh` that sets up a tunnel to a local port.
pub fn reverse_tunnel_args(
    host: &str,
    port: Option<u16>,
    username: Option<&str>,
    extra_args: &Vec<String>,
    local_port: u16,
) -> (r: Vec<String>)
    ensures
        lists::texts(r@) == ssh_args(
            host@,
            port,
            crate::remote_agent::str_of(username),
            lists::texts(extra_args@),
            local_port,
        ),
{
    let mut out: Vec<String> = Vec::new();
    assert(lists::texts(out@) =~= Seq::empty());
    if let Some(p) = port {
        add_arg(&mut out, "-p");
        add_arg(&mut out, text::decimal(p as u64).as_str());
    }
    if let Some(u) = username {
        add_arg(&mut out, "-l");
        add_arg(&mut out, u);
    }
    let ghost front = lists::texts(out@);
    let mut i: usize = 0;
    assert(front + lists::texts(extra_args@).take(0) =~= front);
    while i < extra_args.len()
        invariant
            i <= extra_args.len(),
            lists::texts(out@) == front + lists::texts(extra_args@).take(i as int),
        decreases extra_args.len() - i,
    {
        add_arg(&mut out, extra_args[i].as_str());
        assert(lists::texts(out@) =~= front + lists::texts(extra_args@).take(i + 1));
        i += 1;
    }
    assert(lists::texts(extra_args@).take(i as int) =~= lists::texts(extra_args@));
    add_arg(&mut out, "-v");
    add_arg(&mut out, "-N");
    add_arg(&mut out, "-o");
    add_arg(&mut out, "ExitOnForwardFailure=yes");
    add_arg(&mut out, "-o");
    add_arg(&mut out, "StrictHostKeyChecking=accept-new");
    add_arg(&mut out, "-o");
    add_arg(&mut out, "ServerAliveInterval=30");
    add_arg(&mut out, "-o");
    add_arg(&mut out, "BatchMode=yes");
    add_arg(&mut out, "-R");
    let forward = text::join("127.0.0.1:0:127.0.0.1:", text::decimal(local_port as u64).as_str());
    add_arg(&mut out, forward.as_str());
    add_arg(&mut out, host);
    assert(lists::texts(out@) =~= ssh_args(
        host@,
        port,
        crate::remote_agent::str_of(username),
        lists::texts(extra_args@),
        local_port,
    ));
    out
}

// ---------------------------------------------------------------------------
// The forwarded port
// ---------------------------------------------------------------------------

/// What `ssh` writes before the forwarded port.
pub const PORT_MARKER: &'static str = "Allocated port ";

/// The port that a line of `ssh` reports: the first word after the marker, where
/// that is a number of 16 bits.
pub open spec fn allocated_port(line: Seq<char>) -> Option<nat> {
    match text::first_from(line, PORT_MARKER@, 0) {
        Some(at) => match text::first_word(line.skip(at + PORT_MARKER@.len())) {
            Some(word) => text::parsed_unsigned(word, u16::MAX as nat),
            None => None,
        },
        None => None,
    }
}

/// The port that a line of `ssh` reports, if it does.
pub fn parse_allocated_port(line: &str) -> (r: Option<u16>)
    ensures
        match r {
            Some(p) => allocated_port(line@) == Some(p as nat),
            None => allocated_port(line@) is None,
        },
{
    let v = text::chars_of(line);
    let marker = text::chars_of(PORT_MARKER);
    match text::find_from(&v, &marker, 0) {
        Some(at) => match text::word_from(&v, at + marker.len()) {
            Some(word) => match text::read_unsigned(word.as_str(), u16::MAX as u64) {
                Some(n) => Some(n as u16),
                None => None,
            },
            None => None,
        },
        None => None,
    }
}

/// Watches the lines of `ssh` for the forwarded port.
#[derive(Clone, Copy, Debug, PartialEq, Eq, Structural)]
pub struct TunnelWatch {
    pub reported: bool,
}

impl TunnelWatch {
    pub fn new() -> (r: TunnelWatch)
        ensures
            !r.reported,
    {
        TunnelWatch { reported: false }
    }

    /// Takes a line; the first port that a line reports is handed out, and none
    /// after it.
    pub fn on_line(&mut self, line: &str) -> (r: Option<u16>)
        ensures
            match r {
                Some(p) => !old(self).reported && allocated_port(line@) == Some(p as nat),
                None => old(self).reported || allocated_port(line@) is None,
            },
            final(self).reported == (old(self).reported || allocated_port(line@) is Some),
    {
        if self.reported {
            return None;
        }
        let port = parse_allocated_port(line);
        if port.is_some() {
            self.reported = true;
        }
        port
    }
}

// ---------------------------------------------------------------------------
// The proxy
// ---------------------------------------------------------------------------

/// What follows a byte of a request's head.
#[derive(Clone, Copy, Debug, PartialEq, Eq, Structural)]
pub enum HeadStep {
    /// The head goes on.
    More,
    /// The head ends here.
    Complete,
    /// The head is too long.
    TooLarge,
}

/// The bytes end with an empty line.
pub open spec fn ends_head(head: Seq<u8>) -> bool {
    head.len() >= 4 && head.skip(head.len() - 4) == seq![13u8, 10u8, 13u8, 10u8]
}

/// Takes one byte of a request's head.
pub fn push_head_byte(head: &mut Vec<u8>, byte: u8) -> (r: HeadStep)
    ensures
        final(head)@ == old(head)@.push(byte),
        r == (if ends_head(final(head)@) {
            HeadStep::Complete
        } else if final(head)@.len() > MAX_HEAD_BYTES {
            HeadStep::TooLarge
        } else {
            HeadStep::More
        }),
{
    head.push(byte);
    let n = head.len();
    let ends = n >= 4 && head[n - 4] == 13u8 && head[n - 3] == 10u8 && head[n - 2] == 13u8
        && head[n - 1] == 10u8;
    proof {
        if n >= 4 {
            let t = head@.skip(n - 4);
            assert(t[0] == head@[n - 4] && t[1] == head@[n - 3] && t[2] == head@[n - 2] && t[3]
                == head@[n - 1]);
            if ends {
                assert(t =~= seq![13u8, 10u8, 13u8, 10u8]);
            }
        }
    }
    if ends {
        HeadStep::Complete
    } else if n > MAX_HEAD_BYTES {
        HeadStep::TooLarge
    } else {
        HeadStep::More
    }
}

/// Why a request is not served.
#[derive(Debug, PartialEq, Eq)]
pub enum ConnectError {
    /// It has no line.
    Empty,
    /// Its method is another; with the method.
    NotConnect(String),
}

impl ConnectError {
    /// The error in words.
    pub fn message(&self) -> (r: String)
        ensures
            r@ == (match *self {
                ConnectError::Empty => "empty CONNECT request"@,
                ConnectError::NotConnect(method) => "tunnel proxy only supports CONNECT, got `"@
                    + method@ + "`"@,
            }),
    {
        match self {
            ConnectError::Empty => "empty CONNECT request".to_owned(),
            ConnectError::NotConnect(method) => {
                let mut s = text::join(
                    "tunnel proxy only supports CONNECT, got `",
                    method.as_str(),
                );
                s.append("`");
                s
            },
        }
    }
}

/// The first word of a text, empty where there is none.
pub open spec fn word_or_empty(s: Seq<char>) -> Seq<char> {
    match text::first_word(s) {
        Some(w) => w,
        None => Seq::empty(),
    }
}

/// The second word of a text, empty where there is none.
pub open spec fn second_word(s: Seq<char>) -> Seq<char> {
    match text::first_word(s) {
        Some(_) => word_or_empty(text::after_word(s)),
        None => Seq::empty(),
    }
}

/// The request is for a connection: its first word is the method, in any case of
/// letters.
pub open spec fn is_connect(line: Seq<char>) -> bool {
    text::equal_ignoring_case(word_or_empty(line), "CONNECT"@)
}

/// The target of a request, from the text of its head: the second word of the
/// first line.
pub fn request_target(head: &str) -> (r: Result<String, ConnectError>)
    ensures
        if head@.len() == 0 {
            r matches Err(ConnectError::Empty)
        } else if is_connect(text::line_at_front(head@)) {
            r matches Ok(t) && t@ == second_word(text::line_at_front(head@))
        } else {
            r matches Err(ConnectError::NotConnect(m)) && m@ == word_or_empty(
                text::line_at_front(head@),
            )
        },
{
    if head.is_empty() {
        return Err(ConnectError::Empty);
    }
    let line = text::first_line(head);
    let v = text::chars_of(line.as_str());
    assert(v@.skip(0) =~= line@);
    let (method, target) = match text::word_bounds(&v, 0) {
        Some((a, b)) => {
            let target = match text::word_from(&v, b) {
                Some(t) => t,
                None => String::new(),
            };
            (text::string_of(&v, a, b), target)
        },
        None => (String::new(), String::new()),
    };
    if !text::same_ignoring_case(method.as_str(), "CONNECT") {
        return Err(ConnectError::NotConnect(method));
    }
    Ok(target)
}

/// What `String::from_utf8_lossy` makes of bytes.
pub uninterp spec fn lossy_text(bytes: Seq<u8>) -> Seq<char>;

/// `String::from_utf8_lossy`: the text that the bytes encode, with replacement
/// characters where they are not UTF-8. Which parts are replaced is left to std;
/// bytes that are UTF-8 give the text that they encode.
#[verifier::external_body]
fn decode_lossy(bytes: &Vec<u8>) -> (r: String)
    ensures
        r@ == lossy_text(bytes@),
        forall|t: Seq<char>| #[trigger] vstd::utf8::encode_utf8(t) == bytes@ ==> r@ == t,
{
    String::from_utf8_lossy(bytes).into_owned()
}

/// The target of a `CONNECT` request, from the bytes of its head.
pub fn handle_connect(head: &Vec<u8>) -> (r: Result<String, ConnectError>)
    ensures
        ({
            let t = lossy_text(head@);
            if t.len() == 0 {
                r matches Err(ConnectError::Empty)
            } else if is_connect(text::line_at_front(t)) {
                r matches Ok(x) && x@ == second_word(text::line_at_front(t))
            } else {
                r matches Err(ConnectError::NotConnect(m)) && m@ == word_or_empty(
                    text::line_at_front(t),
                )
            }
        }),
        forall|t: Seq<char>| #[trigger]
            vstd::utf8::encode_utf8(t) == head@ && t.len() > 0 && is_connect(
                text::line_at_front(t),
            ) ==> has_target(r, second_word(text::line_at_front(t))),
{
    let t = decode_lossy(head);
    request_target(t.as_str())
}

/// The result is this target.
pub open spec fn has_target(r: Result<String, ConnectError>, target: Seq<char>) -> bool {
    match r {
        Ok(t) => t@ == target,
        Err(_) => false,
    }
}

// ---------------------------------------------------------------------------
// Laws
// ---------------------------------------------------------------------------

/// A host keeps its tunnel: once one is up, asking again gives the same port
/// without a try, and what is done for another host is as it was. After a teardown
/// every host is tried anew.
pub proof fn law_tunnel_is_kept_until_teardown(
    before: Map<Seq<char>, u16>,
    host: Seq<char>,
    port: u16,
    other: Seq<char>,
)
    ensures
        first_step(before.insert(host, port), host) == TunnelStep::Up(port),
        other != host ==> first_step(before.insert(host, port), other) == first_step(before, other),
        first_step(Map::empty(), host) == TunnelStep::Try(1),
{
}

proof fn lemma_word_end(w: Seq<char>, rest: Seq<char>, from: int)
    requires
        0 <= from <= w.len(),
        forall|i: int| 0 <= i < w.len() ==> !text::is_blank(#[trigger] w[i]),
        rest.len() > 0 ==> text::is_blank(rest[0]),
    ensures
        text::word_end(w + rest, from) == w.len(),
    decreases w.len() - from,
{
    let s = w + rest;
    if from < w.len() {
        assert(s[from] == w[from]);
        lemma_word_end(w, rest, from + 1);
    } else if rest.len() > 0 {
        assert(s[from] == rest[0]);
    }
}

proof fn lemma_first_word(w: Seq<char>, rest: Seq<char>)
    requires
        w.len() > 0,
        forall|i: int| 0 <= i < w.len() ==> !text::is_blank(#[trigger] w[i]),
        rest.len() > 0 ==> text::is_blank(rest[0]),
    ensures
        text::first_word(w + rest) == Some(w),
        text::after_word(w + rest) == rest,
{
    let s = w + rest;
    assert(s[0] == w[0]);
    assert(text::trim_front(s) == s);
    lemma_word_end(w, rest, 0);
    assert(s.take(w.len() as int) =~= w);
    assert(s.skip(w.len() as int) =~= rest);
}

/// The request line of a proxied connection names its target: whatever stands
/// between the spaces after the method is dialled, unchanged.
pub proof fn law_connect_line_names_target(target: Seq<char>, version: Seq<char>)
    requires
        target.len() > 0,
        forall|i: int| 0 <= i < target.len() ==> !text::is_blank(#[trigger] target[i]),
    ensures
        is_connect("CONNECT "@ + target + " "@ + version),
        second_word("CONNECT "@ + target + " "@ + version) == target,
{
    reveal_strlit("CONNECT");
    reveal_strlit("CONNECT ");
    reveal_strlit(" ");
    let method = "CONNECT"@;
    let tail = seq![' '] + version;
    let rest = seq![' '] + (target + tail);
    let line = "CONNECT "@ + target + " "@ + version;
    assert(line =~= method + rest);
    lemma_first_word(method, rest);
    assert(rest.skip(1) =~= target + tail);
    assert((target + tail)[0] == target[0]);
    assert(text::trim_front(rest) == text::trim_front(target + tail));
    lemma_first_word(target, tail);
    assert(text::first_word(rest) == text::first_word(target + tail));
}

/// A tunnel is tried three times in all, with a pause after each failure that grows by two
/// fifths of a second.
pub proof fn law_tunnel_is_tried_three_times(attempt: u32)
    requires
        1 <= attempt <= 3,
    ensures
        attempt < 3 ==> (after_failure(attempt) matches TunnelStep::PauseThenTry { millis, next }
            && next == attempt + 1 && millis == 400 * attempt),
        attempt == 3 ==> after_failure(attempt) == (TunnelStep::PauseThenFail { millis: 1_200 }),
{
}

/// The arguments of `ssh` forward any free port of the remote host to the local port, and
/// end with the host; what the user has set stands before the options of the tunnel.
pub proof fn law_tunnel_leads_to_local_port(
    host: Seq<char>,
    port: Option<u16>,
    username: Option<Seq<char>>,
    extra: Seq<Seq<char>>,
    local_port: u16,
    i: int,
)
    ensures
        ({
            let args = ssh_args(host, port, username, extra, local_port);
            let user_at: int = if port is Some {
                2
            } else {
                0
            };
            let extra_at = user_at + (if username is Some {
                2int
            } else {
                0
            });
            &&& args.len() == extra_at + extra.len() + 13
            &&& args.last() == host
            &&& args[args.len() - 2] == "127.0.0.1:0:127.0.0.1:"@ + text::decimal_of(
                local_port as nat,
            )
            &&& args[args.len() - 3] == "-R"@
            &&& port is Some ==> args[0] == "-p"@ && args[1] == text::decimal_of(port->0 as nat)
            &&& username is Some ==> args[user_at] == "-l"@ && args[user_at + 1] == username->0
            &&& 0 <= i < extra.len() ==> args[extra_at + i] == extra[i]
            &&& args.skip(extra_at + extra.len()).take(11) == seq![
                "-v"@,
                "-N"@,
                "-o"@,
                "ExitOnForwardFailure=yes"@,
                "-o"@,
                "StrictHostKeyChecking=accept-new"@,
                "-o"@,
                "ServerAliveInterval=30"@,
                "-o"@,
                "BatchMode=yes"@,
                "-R"@,
            ]
        }),
{
    let args = ssh_args(host, port, username, extra, local_port);
    let user_at: int = if port is Some {
        2
    } else {
        0
    };
    let extra_at = user_at + (if username is Some {
        2int
    } else {
        0
    });
    assert(args.skip(extra_at + extra.len()).take(11) =~= fixed_options());
}

/// The first number after the marker is the forwarded port, whatever stands before the
/// marker and after the number; a line without the marker reports none.
pub proof fn law_reported_port_is_found(front: Seq<char>, port: u16, rest: Seq<char>)
    requires
        rest.len() > 0 ==> text::is_blank(rest[0]),
        forall|at: int|
            0 <= at < front.len() ==> !text::occurs_at(
                front + "Allocated port "@ + text::decimal_of(port as nat) + rest,
                "Allocated port "@,
                at,
            ),
    ensures
        allocated_port(front + "Allocated port "@ + text::decimal_of(port as nat) + rest) == Some(
            port as nat,
        ),
{
    let marker = "Allocated port "@;
    reveal_strlit("Allocated port ");
    let digits = text::decimal_of(port as nat);
    let line = front + marker + digits + rest;
    let at = (front.len() + marker.len()) as int;
    assert(line.subrange(front.len() as int, at) =~= marker);
    lemma_first_at(line, marker, 0, front.len() as int);
    assert(line.skip(at) =~= digits + rest);
    text::law_decimal_is_read_back(port as nat, u16::MAX as nat);
    assert forall|i: int| 0 <= i < digits.len() implies !text::is_blank(#[trigger] digits[i]) by {
        assert(text::is_digit(digits[i]));
    }
    lemma_first_word(digits, rest);
}

proof fn lemma_first_at(hay: Seq<char>, needle: Seq<char>, from: int, at: int)
    requires
        0 <= from <= at,
        text::occurs_at(hay, needle, at),
        forall|i: int| from <= i < at ==> !text::occurs_at(hay, needle, i),
    ensures
        text::first_from(hay, needle, from) == Some(at),
    decreases at - from,
{
    if from < at {
        lemma_first_at(hay, needle, from + 1, at);
    }
}

/// No port is read from a line without the marker, nor from one whose marker is followed
/// by something else than a number of 16 bits.
pub proof fn law_other_lines_report_no_port(line: Seq<char>, at: int)
    requires
        0 <= at <= line.len(),
    ensures
        allocated_port(line) is Some ==> exists|i: int|
            text::occurs_at(line, "Allocated port "@, i),
        allocated_port(line) matches Some(p) ==> p <= 65_535,
{
    if allocated_port(line) is Some {
        let i = text::first_from(line, PORT_MARKER@, 0)->0;
        lemma_found(line, PORT_MARKER@, 0);
        assert(text::occurs_at(line, "Allocated port "@, i));
    }
}

proof fn lemma_found(hay: Seq<char>, needle: Seq<char>, from: int)
    requires
        text::first_from(hay, needle, from) is Some,
    ensures
        text::occurs_at(hay, needle, text::first_from(hay, needle, from)->0),
    decreases hay.len() + 1 - from,
{
    if !text::occurs_at(hay, needle, from) {
        lemma_found(hay, needle, from + 1);
    }
}

/// The head of a request ends with its first empty line.
pub proof fn law_head_ends_with_an_empty_line(head: Seq<u8>, body: Seq<u8>)
    ensures
        ends_head(head + seq![13u8, 10u8, 13u8, 10u8]),
        ends_head(body) ==> body.len() >= 4 && body[body.len() - 4] == 13 && body[body.len() - 3]
            == 10 && body[body.len() - 2] == 13 && body[body.len() - 1] == 10,
{
    let all = head + seq![13u8, 10u8, 13u8, 10u8];
    assert(all.skip(all.len() - 4) =~= seq![13u8, 10u8, 13u8, 10u8]);
    if ends_head(body) {
        let t = body.skip(body.len() - 4);
        assert(t[0] == body[body.len() - 4] && t[1] == body[body.len() - 3] && t[2]
            == body[body.len() - 2] && t[3] == body[body.len() - 1]);
    }
}

/// Another method than the one for connections is told apart, and reported as it was sent.
pub proof fn law_other_methods_are_refused(method: Seq<char>, rest: Seq<char>)
    requires
        method.len() > 0,
        forall|i: int| 0 <= i < method.len() ==> !text::is_blank(#[trigger] method[i]),
        rest.len() > 0 ==> text::is_blank(rest[0]),
    ensures
        word_or_empty(method + rest) == method,
        method.len() != 7 ==> !is_connect(method + rest),
        method == "GET"@ || method == "POST"@ || method == "OPTIONS"@ ==> !is_connect(
            method + rest,
        ),
{
    lemma_first_word(method, rest);
    reveal_strlit("CONNECT");
    reveal_strlit("GET");
    reveal_strlit("POST");
    reveal_strlit("OPTIONS");
    if method == "OPTIONS"@ && is_connect(method + rest) {
        assert(text::lowered(method[0]) == text::lowered("CONNECT"@[0]));
        assert(method[0] == 'O' && "CONNECT"@[0] == 'C');
    }
}

/// A request that is taken is led to the address that it names.
pub proof fn law_taken_request_names_its_target(
    r: Result<String, ConnectError>,
    target: Seq<char>,
)
    ensures
        has_target(r, target) <==> (r matches Ok(t) && t@ == target),
{
}

/// The second word of a line stands behind its first, and is empty where there is none.
pub proof fn law_second_word_follows_the_first(
    first: Seq<char>,
    second: Seq<char>,
    rest: Seq<char>,
)
    requires
        first.len() > 0,
        forall|i: int| 0 <= i < first.len() ==> !text::is_blank(#[trigger] first[i]),
        second.len() > 0,
        forall|i: int| 0 <= i < second.len() ==> !text::is_blank(#[trigger] second[i]),
        rest.len() > 0 ==> text::is_blank(rest[0]),
    ensures
        second_word(first + (seq![' '] + (second + rest))) == second,
        second_word(first).len() == 0,
        second_word(Seq::empty()).len() == 0,
{
    let behind = seq![' '] + (second + rest);
    lemma_first_word(first, behind);
    lemma_first_word(second, rest);
    assert(behind[0] == ' ');
    assert(behind.skip(1) =~= second + rest);
    assert((second + rest)[0] == second[0]);
    assert(text::trim_front(behind) == text::trim_front(behind.skip(1)));
    assert(text::trim_front(second + rest) == second + rest);
    lemma_first_word(first, Seq::empty());
    assert(first + Seq::<char>::empty() =~= first);
}

} // verus!
