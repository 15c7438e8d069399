//! A Jupyter kernel on a remote host, reached through an SSH tunnel.
//!
//! The remote side starts the kernel and answers with its connection file. Five
//! local ports are forwarded to the kernel's ports, and the connection file is
//! rewritten to point at them.

use vstd::prelude::*;
use vstd::string::*;

use crate::json;
use crate::json::Json;
use crate::json::JsonModel;
use crate::json::Written;
use crate::lists;
use crate::text;

verus! {

/// How often a connection through the tunnel is tried.
pub const TUNNEL_ATTEMPTS: u32 = 100;

/// The pause between two tries.
pub const TUNNEL_RETRY_MILLIS: u64 = 100;

/// The pause that an established tunnel is given.
pub const TUNNEL_SETTLE_MILLIS: u64 = 500;

// ---------------------------------------------------------------------------
// Starting the kernel
// ---------------------------------------------------------------------------

/// The request that starts a kernel on the remote host.
#[derive(Debug, PartialEq, Eq)]
pub struct SpawnKernel {
    pub kernel_name: String,
    pub working_directory: String,
    pub project_id: u64,
    pub command: String,
    pub args: Vec<String>,
}

/// The request that ends a kernel on the remote host.
#[derive(Debug, PartialEq, Eq)]
pub struct KillKernel {
    pub kernel_id: String,
    pub project_id: u64,
}

/// The command of an argument vector: its first element, empty where there is none.
pub open spec fn command_of(argv: Seq<Seq<char>>) -> Seq<char> {
    if argv.len() == 0 {
        Seq::empty()
    } else {
        argv[0]
    }
}

/// The arguments of an argument vector: all but its first element.
pub open spec fn args_of(argv: Seq<Seq<char>>) -> Seq<Seq<char>> {
    if argv.len() == 0 {
        Seq::empty()
    } else {
        argv.skip(1)
    }
}

/// The request that starts a kernel. A project without a remote id goes by the id
/// of the remote server.
pub fn spawn_request(
    kernel_name: &str,
    argv: &Vec<String>,
    working_directory: &str,
    remote_id: Option<u64>,
    server_id: u64,
) -> (r: SpawnKernel)
    ensures
        r.kernel_name@ == kernel_name@,
        r.working_directory@ == working_directory@,
        r.project_id == (match remote_id {
            Some(id) => id,
            None => server_id,
        }),
        r.command@ == command_of(lists::texts(argv@)),
        lists::texts(r.args@) == args_of(lists::texts(argv@)),
{
    let command = if argv.len() > 0 {
        argv[0].clone()
    } else {
        String::new()
    };
    let mut args: Vec<String> = Vec::new();
    let mut i: usize = 1;
    while i < argv.len()
        invariant
            1 <= i,
            i <= argv.len() || argv.len() == 0,
            argv.len() > 0 ==> args@ == argv@.subrange(1, i as int),
            argv.len() == 0 ==> args@.len() == 0,
        decreases argv.len() - i,
    {
        args.push(argv[i].clone());
        assert(argv@.subrange(1, i as int).push(argv@[i as int]) =~= argv@.subrange(1, i + 1));
        i += 1;
    }
    assert(lists::texts(args@) =~= args_of(lists::texts(argv@)));
    SpawnKernel {
        kernel_name: kernel_name.to_owned(),
        working_directory: working_directory.to_owned(),
        project_id: match remote_id {
            Some(id) => id,
            None => server_id,
        },
        command,
        args,
    }
}

// ---------------------------------------------------------------------------
// Ports
// ---------------------------------------------------------------------------

/// The channels of a kernel.
#[derive(Clone, Copy, Debug, PartialEq, Eq, Structural)]
pub enum Channel {
    Shell,
    Iopub,
    Stdin,
    Control,
    Heartbeat,
}

/// A port for each channel.
#[derive(Clone, Copy, Debug, PartialEq, Eq, Structural)]
pub struct KernelPorts {
    pub shell: u16,
    pub iopub: u16,
    pub stdin: u16,
    pub control: u16,
    pub heartbeat: u16,
}

/// Why a kernel cannot be connected to.
#[derive(Debug, PartialEq, Eq)]
pub enum SshKernelError {
    /// The connection file is not JSON; the text says what is wrong with it.
    NotJson(String),
    /// The connection file gives no port for the channel.
    MissingPort(Channel),
    /// There is no remote host to forward ports to.
    NoRemoteClient,
    /// No connection through the tunnel came about.
    TunnelFailed,
}

/// The key of a channel's port in a connection file.
pub open spec fn port_key(channel: Channel) -> Seq<char> {
    match channel {
        Channel::Shell => "shell_port"@,
        Channel::Iopub => "iopub_port"@,
        Channel::Stdin => "stdin_port"@,
        Channel::Control => "control_port"@,
        Channel::Heartbeat => "hb_port"@,
    }
}

fn key_of(channel: Channel) -> (r: String)
    ensures
        r@ == port_key(channel),
{
    match channel {
        Channel::Shell => "shell_port".to_owned(),
        Channel::Iopub => "iopub_port".to_owned(),
        Channel::Stdin => "stdin_port".to_owned(),
        Channel::Control => "control_port".to_owned(),
        Channel::Heartbeat => "hb_port".to_owned(),
    }
}

impl SshKernelError {
    /// The error in words.
    pub fn message(&self) -> (r: String)
        ensures
            r@ == (match *self {
                SshKernelError::NotJson(complaint) => complaint@,
                SshKernelError::MissingPort(channel) => "缺少 "@ + port_key(channel),
                SshKernelError::NoRemoteClient => "无远程客户端"@,
                SshKernelError::TunnelFailed => "SSH 隧道在 "@ + text::decimal_of(
                    TUNNEL_ATTEMPTS as nat,
                ) + " 次尝试后仍无法建立"@,
            }),
    {
        match self {
            SshKernelError::NotJson(complaint) => complaint.clone(),
            SshKernelError::MissingPort(channel) => text::join(
                "缺少 ",
                key_of(*channel).as_str(),
            ),
            SshKernelError::NoRemoteClient => "无远程客户端".to_owned(),
            SshKernelError::TunnelFailed => {
                let mut s = text::join(
                    "SSH 隧道在 ",
                    text::decimal(TUNNEL_ATTEMPTS as u64).as_str(),
                );
                s.append(" 次尝试后仍无法建立");
                s
            },
        }
    }
}

/// The port that a connection file gives a channel: an unsigned number, of which
/// the lower 16 bits count.
pub open spec fn port_in(info: JsonModel, channel: Channel) -> Option<u16> {
    match info.field(port_key(channel)) {
        Some(v) => match v.unsigned() {
            Some(n) => Some((n % 0x1_0000) as u16),
            None => None,
        },
        None => None,
    }
}

/// The ports of a connection file, or the first channel without one.
pub open spec fn ports_in(info: JsonModel) -> Result<KernelPorts, SshKernelError> {
    match port_in(info, Channel::Shell) {
        None => Err(SshKernelError::MissingPort(Channel::Shell)),
        Some(shell) => match port_in(info, Channel::Iopub) {
            None => Err(SshKernelError::MissingPort(Channel::Iopub)),
            Some(iopub) => match port_in(info, Channel::Stdin) {
                None => Err(SshKernelError::MissingPort(Channel::Stdin)),
                Some(stdin) => match port_in(info, Channel::Control) {
                    None => Err(SshKernelError::MissingPort(Channel::Control)),
                    Some(control) => match port_in(info, Channel::Heartbeat) {
                        None => Err(SshKernelError::MissingPort(Channel::Heartbeat)),
                        Some(heartbeat) => Ok(
                            KernelPorts { shell, iopub, stdin, control, heartbeat },
                        ),
                    },
                },
            },
        },
    }
}

fn read_port(info: &Json, channel: Channel) -> (r: Result<u16, SshKernelError>)
    ensures
        match port_in(info@, channel) {
            Some(p) => r == Ok::<u16, SshKernelError>(p),
            None => r == Err::<u16, SshKernelError>(SshKernelError::MissingPort(channel)),
        },
{
    match info.get(key_of(channel).as_str()) {
        Some(v) => match v.as_u64() {
            Some(n) => {
                assert((n as u16) == n % 0x1_0000) by (bit_vector);
                Ok(#[verifier::truncate] (n as u16))
            },
            None => Err(SshKernelError::MissingPort(channel)),
        },
        None => Err(SshKernelError::MissingPort(channel)),
    }
}

/// The kernel's ports, from its connection file.
pub fn remote_ports(info: &Json) -> (r: Result<KernelPorts, SshKernelError>)
    ensures
        r == ports_in(info@),
{
    let shell = match read_port(info, Channel::Shell) {
        Ok(p) => p,
        Err(e) => return Err(e),
    };
    let iopub = match read_port(info, Channel::Iopub) {
        Ok(p) => p,
        Err(e) => return Err(e),
    };
    let stdin = match read_port(info, Channel::Stdin) {
        Ok(p) => p,
        Err(e) => return Err(e),
    };
    let control = match read_port(info, Channel::Control) {
        Ok(p) => p,
        Err(e) => return Err(e),
    };
    let heartbeat = match read_port(info, Channel::Heartbeat) {
        Ok(p) => p,
        Err(e) => return Err(e),
    };
    Ok(KernelPorts { shell, iopub, stdin, control, heartbeat })
}

/// A forwarded port: the local port, the host as the remote side sees it, and the
/// port there.
pub open spec fn is_forward(f: (u16, String, u16), local: u16, remote: u16) -> bool {
    f.0 == local && f.1@ == "127.0.0.1"@ && f.2 == remote
}

/// The forwards, channel by channel.
pub open spec fn are_forwards(
    fs: Seq<(u16, String, u16)>,
    local: KernelPorts,
    remote: KernelPorts,
) -> bool {
    &&& fs.len() == 5
    &&& is_forward(fs[0], local.shell, remote.shell)
    &&& is_forward(fs[1], local.iopub, remote.iopub)
    &&& is_forward(fs[2], local.stdin, remote.stdin)
    &&& is_forward(fs[3], local.control, remote.control)
    &&& is_forward(fs[4], local.heartbeat, remote.heartbeat)
}

/// The forwards that connect the local ports to the kernel's.
pub fn forwards(local: &KernelPorts, remote: &KernelPorts) -> (r: Vec<(u16, String, u16)>)
    ensures
        are_forwards(r@, *local, *remote),
{
    vec![
        (local.shell, "127.0.0.1".to_owned(), remote.shell),
        (local.iopub, "127.0.0.1".to_owned(), remote.iopub),
        (local.stdin, "127.0.0.1".to_owned(), remote.stdin),
        (local.control, "127.0.0.1".to_owned(), remote.control),
        (local.heartbeat, "127.0.0.1".to_owned(), remote.heartbeat),
    ]
}

// ---------------------------------------------------------------------------
// The local connection file
// ---------------------------------------------------------------------------

pub open spec fn port_value(port: u16) -> JsonModel {
    JsonModel::Number(text::decimal_of(port as nat))
}

/// The entries of a connection file with the ports and the host replaced.
pub open spec fn pointed_at(m: Map<Seq<char>, JsonModel>, local: KernelPorts) -> Map<
    Seq<char>,
    JsonModel,
> {
    m.insert("shell_port"@, port_value(local.shell)).insert(
        "iopub_port"@,
        port_value(local.iopub),
    ).insert("stdin_port"@, port_value(local.stdin)).insert(
        "control_port"@,
        port_value(local.control),
    ).insert("hb_port"@, port_value(local.heartbeat)).insert("ip"@, JsonModel::Str("127.0.0.1"@))
}

/// The same entries in their order: what is replaced keeps its place, and what is new
/// comes last.
pub open spec fn pointed_in_order(es: Seq<(Seq<char>, Written)>, local: KernelPorts) -> Seq<
    (Seq<char>, Written),
> {
    let shell = json::put(es, "shell_port"@, port_written(local.shell));
    let iopub = json::put(shell, "iopub_port"@, port_written(local.iopub));
    let stdin = json::put(iopub, "stdin_port"@, port_written(local.stdin));
    let control = json::put(stdin, "control_port"@, port_written(local.control));
    let heartbeat = json::put(control, "hb_port"@, port_written(local.heartbeat));
    json::put(heartbeat, "ip"@, Written::Str("127.0.0.1"@))
}

pub open spec fn port_written(port: u16) -> Written {
    Written::Number(text::decimal_of(port as nat))
}

fn port_json(port: u16) -> (r: Json)
    ensures
        r@ == port_value(port),
        r.written() == port_written(port),
{
    Json::Number(text::decimal(port as u64))
}

/// The connection file with the local ports in place of the kernel's.
pub fn local_connection_info(info: &Json, local: &KernelPorts) -> (r: Json)
    requires
        info@ is Object,
    ensures
        r@ == JsonModel::Object(pointed_at(info@->Object_0, *local)),
        r.written() == Written::Object(pointed_in_order(info.written()->Object_0, *local)),
{
    let mut r = info.duplicate();
    r.set("shell_port", port_json(local.shell));
    r.set("iopub_port", port_json(local.iopub));
    r.set("stdin_port", port_json(local.stdin));
    r.set("control_port", port_json(local.control));
    r.set("hb_port", port_json(local.heartbeat));
    r.set("ip", Json::Str("127.0.0.1".to_owned()));
    r
}

/// The name of the local connection file of a kernel.
pub fn connection_file_name(kernel_id: &str) -> (r: String)
    ensures
        r@ == "zed_ssh_kernel_"@ + kernel_id@ + ".json"@,
{
    let mut s = text::join("zed_ssh_kernel_", kernel_id);
    s.append(".json");
    s
}

// ---------------------------------------------------------------------------
// Connecting
// ---------------------------------------------------------------------------

/// What a connection needs: the ports to forward, the rewritten connection file
/// and its name.
#[derive(Debug, PartialEq, Eq)]
pub struct KernelPlan {
    pub forwards: Vec<(u16, String, u16)>,
    pub connection_info: Json,
    pub file_name: String,
    pub shell_port: u16,
}

/// The plan connects the local ports to the kernel that the connection file
/// describes.
pub open spec fn connects(
    p: KernelPlan,
    info: JsonModel,
    local: KernelPorts,
    kernel_id: Seq<char>,
) -> bool {
    &&& ports_in(info) is Ok
    &&& are_forwards(p.forwards@, local, ports_in(info)->Ok_0)
    &&& p.connection_info@ == JsonModel::Object(pointed_at(info->Object_0, local))
    &&& p.file_name@ == "zed_ssh_kernel_"@ + kernel_id + ".json"@
    &&& p.shell_port == local.shell
}

/// The plan for a parsed connection file: the ports are looked for first, then the
/// remote host.
pub fn plan_for(info: &Json, kernel_id: &str, local: &KernelPorts, has_remote_client: bool) -> (r:
    Result<KernelPlan, SshKernelError>)
    ensures
        match ports_in(info@) {
            Err(e) => r matches Err(x) && x == e,
            Ok(_) => if has_remote_client {
                r matches Ok(p) && connects(p, info@, *local, kernel_id@)
                    && p.connection_info.written() == Written::Object(
                    pointed_in_order(info.written()->Object_0, *local),
                )
            } else {
                r matches Err(SshKernelError::NoRemoteClient)
            },
        },
{
    let remote = match remote_ports(info) {
        Ok(p) => p,
        Err(e) => return Err(e),
    };
    if !has_remote_client {
        return Err(SshKernelError::NoRemoteClient);
    }
    assert(port_in(info@, Channel::Shell) is Some);
    Ok(
        KernelPlan {
            forwards: forwards(local, &remote),
            connection_info: local_connection_info(info, local),
            file_name: connection_file_name(kernel_id),
            shell_port: local.shell,
        },
    )
}

/// The plan for the text of a connection file.
pub fn plan_connection(
    connection_file: &str,
    kernel_id: &str,
    local: &KernelPorts,
    has_remote_client: bool,
) -> (r: Result<KernelPlan, SshKernelError>)
    ensures
        match json::parsed(connection_file@) {
            None => r matches Err(SshKernelError::NotJson(words)) && words@ == json::complaint(
                connection_file@,
            ),
            Some(info) => match ports_in(info) {
                Err(e) => r matches Err(x) && x == e,
                Ok(_) => if has_remote_client {
                    r matches Ok(p) && connects(p, info, *local, kernel_id@)
                } else {
                    r matches Err(SshKernelError::NoRemoteClient)
                },
            },
        },
{
    match Json::parse_strictly(connection_file) {
        Ok(info) => plan_for(&info, kernel_id, local, has_remote_client),
        Err(complaint) => Err(SshKernelError::NotJson(complaint)),
    }
}

/// What follows a try to connect through the tunnel.
#[derive(Clone, Copy, Debug, PartialEq, Eq, Structural)]
pub enum TunnelStep {
    /// The tunnel stands; wait for this many milliseconds and go on.
    Established(u64),
    /// Wait for this many milliseconds and try again.
    Retry(u64),
    GiveUp,
}

/// What follows the try with this number, counted from zero.
pub open spec fn step_after(attempt: u32, connected: bool) -> TunnelStep {
    if connected {
        TunnelStep::Established(TUNNEL_SETTLE_MILLIS)
    } else if attempt + 1 < TUNNEL_ATTEMPTS {
        TunnelStep::Retry(TUNNEL_RETRY_MILLIS)
    } else {
        TunnelStep::GiveUp
    }
}

/// What follows the try with this number, counted from zero.
pub fn tunnel_step(attempt: u32, connected: bool) -> (r: TunnelStep)
    requires
        attempt < TUNNEL_ATTEMPTS,
    ensures
        r == step_after(attempt, connected),
        r == (if connected {
            TunnelStep::Established(TUNNEL_SETTLE_MILLIS)
        } else if attempt + 1 < TUNNEL_ATTEMPTS {
            TunnelStep::Retry(TUNNEL_RETRY_MILLIS)
        } else {
            TunnelStep::GiveUp
        }),
{
    if connected {
        TunnelStep::Established(TUNNEL_SETTLE_MILLIS)
    } else if attempt + 1 < TUNNEL_ATTEMPTS {
        TunnelStep::Retry(TUNNEL_RETRY_MILLIS)
    } else {
        TunnelStep::GiveUp
    }
}

/// The address of a local port, as a connection takes it.
pub fn local_address(port: u16) -> (r: String)
    ensures
        r@ == "127.0.0.1:"@ + text::decimal_of(port as nat),
{
    text::join("127.0.0.1:", text::decimal(port as u64).as_str())
}

// ---------------------------------------------------------------------------
// A running kernel
// ---------------------------------------------------------------------------

/// A connected kernel, with the state and the description that its messages carry.
#[derive(Debug, PartialEq, Eq)]
pub struct SshRunningKernel<State, Info> {
    pub execution_state: State,
    pub kernel_info: Option<Info>,
    pub working_directory: String,
    pub kernel_id: String,
    pub project_id: u64,
}

impl<State, Info> SshRunningKernel<State, Info> {
    /// A kernel that was just connected: idle, and not described yet.
    pub fn new(idle: State, working_directory: String, kernel_id: String, project_id: u64) -> (r:
        SshRunningKernel<State, Info>)
        ensures
            r.execution_state == idle,
            r.kernel_info is None,
            r.working_directory@ == working_directory@,
            r.kernel_id@ == kernel_id@,
            r.project_id == project_id,
    {
        SshRunningKernel {
            execution_state: idle,
            kernel_info: None,
            working_directory,
            kernel_id,
            project_id,
        }
    }

    pub fn execution_state(&self) -> (r: &State)
        ensures
            *r == self.execution_state,
    {
        &self.execution_state
    }

    pub fn set_execution_state(&mut self, state: State)
        ensures
            *final(self) == (SshRunningKernel { execution_state: state, ..*old(self) }),
    {
        self.execution_state = state;
    }

    pub fn kernel_info(&self) -> (r: Option<&Info>)
        ensures
            match r {
                Some(i) => self.kernel_info == Some(*i),
                None => self.kernel_info is None,
            },
    {
        match &self.kernel_info {
            Some(i) => Some(i),
            None => None,
        }
    }

    pub fn set_kernel_info(&mut self, info: Info)
        ensures
            *final(self) == (SshRunningKernel { kernel_info: Some(info), ..*old(self) }),
    {
        self.kernel_info = Some(info);
    }

    pub fn working_directory(&self) -> (r: &str)
        ensures
            r@ == self.working_directory@,
    {
        self.working_directory.as_str()
    }

    /// The request that ends the kernel.
    pub fn force_shutdown(&self) -> (r: KillKernel)
        ensures
            r.kernel_id@ == self.kernel_id@,
            r.project_id == self.project_id,
    {
        KillKernel { kernel_id: self.kernel_id.clone(), project_id: self.project_id }
    }
}

// ---------------------------------------------------------------------------
// Laws
// ---------------------------------------------------------------------------

proof fn lemma_digits_of(n: nat)
    ensures
        text::decimal_of(n).len() > 0,
        text::all_digits(text::decimal_of(n)),
        text::digits_value(text::decimal_of(n)) == n,
    decreases n,
{
    let s = text::decimal_of(n);
    if n < 10 {
        assert(s.drop_last() =~= Seq::empty());
        assert(s.last() == text::digit_char(n));
        assert(text::digits_value(s.drop_last()) == 0);
    } else {
        lemma_digits_of(n / 10);
        assert(s.drop_last() =~= text::decimal_of(n / 10));
        assert(s.last() == text::digit_char(n % 10));
        assert forall|i: int| 0 <= i < s.len() implies text::is_digit(#[trigger] s[i]) by {
            if i < s.len() - 1 {
                assert(s[i] == text::decimal_of(n / 10)[i]);
            }
        }
    }
}

proof fn lemma_port_keys()
    ensures
        "shell_port"@ != "iopub_port"@,
        "shell_port"@ != "stdin_port"@,
        "shell_port"@ != "control_port"@,
        "shell_port"@ != "hb_port"@,
        "shell_port"@ != "ip"@,
        "iopub_port"@ != "stdin_port"@,
        "iopub_port"@ != "control_port"@,
        "iopub_port"@ != "hb_port"@,
        "iopub_port"@ != "ip"@,
        "stdin_port"@ != "control_port"@,
        "stdin_port"@ != "hb_port"@,
        "stdin_port"@ != "ip"@,
        "control_port"@ != "hb_port"@,
        "control_port"@ != "ip"@,
        "hb_port"@ != "ip"@,
{
    reveal_strlit("shell_port");
    reveal_strlit("iopub_port");
    reveal_strlit("stdin_port");
    reveal_strlit("control_port");
    reveal_strlit("hb_port");
    reveal_strlit("ip");
    assert("shell_port"@[1] == 'h' && "stdin_port"@[1] == 't');
    assert("shell_port"@[0] == 's' && "iopub_port"@[0] == 'i' && "stdin_port"@[0] == 's');
    assert("control_port"@.len() == 12 && "hb_port"@.len() == 7 && "ip"@.len() == 2);
    assert("shell_port"@.len() == 10 && "iopub_port"@.len() == 10 && "stdin_port"@.len() == 10);
}

/// Reading the ports of the rewritten connection file gives the local ports back,
/// and every entry other than the ports and the host is as it was.
pub proof fn law_rewritten_file_gives_local_ports(
    m: Map<Seq<char>, JsonModel>,
    local: KernelPorts,
    key: Seq<char>,
)
    ensures
        ports_in(JsonModel::Object(pointed_at(m, local))) == Ok::<KernelPorts, SshKernelError>(
            local,
        ),
        key != "ip"@ && (forall|c: Channel| key != #[trigger] port_key(c)) ==> (pointed_at(
            m,
            local,
        ).contains_key(key) <==> m.contains_key(key)) && (m.contains_key(key) ==> pointed_at(
            m,
            local,
        )[key] == m[key]),
{
    lemma_port_keys();
    lemma_digits_of(local.shell as nat);
    lemma_digits_of(local.iopub as nat);
    lemma_digits_of(local.stdin as nat);
    lemma_digits_of(local.control as nat);
    lemma_digits_of(local.heartbeat as nat);
    let info = JsonModel::Object(pointed_at(m, local));
    assert(port_in(info, Channel::Shell) == Some(local.shell));
    assert(port_in(info, Channel::Iopub) == Some(local.iopub));
    assert(port_in(info, Channel::Stdin) == Some(local.stdin));
    assert(port_in(info, Channel::Control) == Some(local.control));
    assert(port_in(info, Channel::Heartbeat) == Some(local.heartbeat));
    if forall|c: Channel| key != #[trigger] port_key(c) {
        assert(key != port_key(Channel::Shell));
        assert(key != port_key(Channel::Iopub));
        assert(key != port_key(Channel::Stdin));
        assert(key != port_key(Channel::Control));
        assert(key != port_key(Channel::Heartbeat));
    }
}

/// A connection file gives each channel the port under the channel's own key, and all five
/// ports are read where all five are there.
pub proof fn law_ports_are_read_by_their_keys(info: JsonModel, p: KernelPorts)
    requires
        info.field("shell_port"@) == Some(
            JsonModel::Number(text::decimal_of(p.shell as nat)),
        ),
        info.field("iopub_port"@) == Some(
            JsonModel::Number(text::decimal_of(p.iopub as nat)),
        ),
        info.field("stdin_port"@) == Some(
            JsonModel::Number(text::decimal_of(p.stdin as nat)),
        ),
        info.field("control_port"@) == Some(
            JsonModel::Number(text::decimal_of(p.control as nat)),
        ),
        info.field("hb_port"@) == Some(
            JsonModel::Number(text::decimal_of(p.heartbeat as nat)),
        ),
    ensures
        ports_in(info) == Ok::<KernelPorts, SshKernelError>(p),
{
    text::law_decimal_is_read_back(p.shell as nat, u64::MAX as nat);
    text::law_decimal_is_read_back(p.iopub as nat, u64::MAX as nat);
    text::law_decimal_is_read_back(p.stdin as nat, u64::MAX as nat);
    text::law_decimal_is_read_back(p.control as nat, u64::MAX as nat);
    text::law_decimal_is_read_back(p.heartbeat as nat, u64::MAX as nat);
}

/// A file in which a port is missing, or is no number, is refused, and the first channel
/// without one is named.
pub proof fn law_missing_port_is_named(info: JsonModel)
    ensures
        info.field("shell_port"@) is None ==> ports_in(info) == Err::<KernelPorts, SshKernelError>(
            SshKernelError::MissingPort(Channel::Shell),
        ),
        (info.field("shell_port"@) matches Some(v) && !(v is Number)) ==> ports_in(info)
            is Err,
        info.field("hb_port"@) is None ==> ports_in(info) is Err,
        info.field("control_port"@) is None ==> ports_in(info) is Err,
        info.field("stdin_port"@) is None ==> ports_in(info) is Err,
        info.field("iopub_port"@) is None ==> ports_in(info) is Err,
        ports_in(info) matches Err(e) ==> e is MissingPort,
{
}

/// Each local port leads to the port of the same channel, on the remote host itself; the
/// rewritten file points at this machine.
pub proof fn law_forwards_lead_to_their_channels(
    p: KernelPlan,
    info: JsonModel,
    local: KernelPorts,
    remote: KernelPorts,
    kernel_id: Seq<char>,
)
    requires
        connects(p, info, local, kernel_id),
        ports_in(info) == Ok::<KernelPorts, SshKernelError>(remote),
    ensures
        p.forwards@.len() == 5,
        p.forwards@[0].0 == local.shell && p.forwards@[0].2 == remote.shell,
        p.forwards@[1].0 == local.iopub && p.forwards@[1].2 == remote.iopub,
        p.forwards@[2].0 == local.stdin && p.forwards@[2].2 == remote.stdin,
        p.forwards@[3].0 == local.control && p.forwards@[3].2 == remote.control,
        p.forwards@[4].0 == local.heartbeat && p.forwards@[4].2 == remote.heartbeat,
        forall|i: int| 0 <= i < 5 ==> (#[trigger] p.forwards@[i]).1@ == "127.0.0.1"@,
        p.connection_info@.field("ip"@) == Some(JsonModel::Str("127.0.0.1"@)),
        p.connection_info@.field("shell_port"@) == Some(
            JsonModel::Number(text::decimal_of(local.shell as nat)),
        ),
        p.connection_info@.field("hb_port"@) == Some(
            JsonModel::Number(text::decimal_of(local.heartbeat as nat)),
        ),
        p.shell_port == local.shell,
{
    lemma_port_keys();
    assert(is_forward(p.forwards@[0], local.shell, remote.shell));
    assert(is_forward(p.forwards@[1], local.iopub, remote.iopub));
    assert(is_forward(p.forwards@[2], local.stdin, remote.stdin));
    assert(is_forward(p.forwards@[3], local.control, remote.control));
    assert(is_forward(p.forwards@[4], local.heartbeat, remote.heartbeat));
}

/// A tunnel is waited for a hundred times, a tenth of a second apart, and one that stands is
/// given half a second.
pub proof fn law_tunnel_is_waited_for(attempt: u32)
    requires
        attempt < 100,
    ensures
        step_after(attempt, true) == TunnelStep::Established(500),
        attempt < 99 ==> step_after(attempt, false) == TunnelStep::Retry(100),
        attempt == 99 ==> step_after(attempt, false) == TunnelStep::GiveUp,
{
}

/// The first element of an argument vector is the command, and the others are its arguments.
pub proof fn law_command_and_arguments(command: Seq<char>, args: Seq<Seq<char>>)
    ensures
        command_of(seq![command] + args) == command,
        args_of(seq![command] + args) == args,
        command_of(Seq::empty()).len() == 0,
        args_of(Seq::empty()).len() == 0,
{
    assert((seq![command] + args)[0] == command);
    assert((seq![command] + args).skip(1) =~= args);
}

/// Written out, the connection file names the local ports, each under the key of its channel,
/// and this machine; what else it holds is written as before.
pub proof fn law_local_file_is_written_in_order(
    es: Seq<(Seq<char>, Written)>,
    local: KernelPorts,
    key: Seq<char>,
)
    ensures
        ({
            let w = Written::Object(pointed_in_order(es, local));
            &&& w.entry("shell_port"@) == Some(Written::Number(text::decimal_of(local.shell as nat)))
            &&& w.entry("iopub_port"@) == Some(Written::Number(text::decimal_of(local.iopub as nat)))
            &&& w.entry("stdin_port"@) == Some(Written::Number(text::decimal_of(local.stdin as nat)))
            &&& w.entry("control_port"@) == Some(
                Written::Number(text::decimal_of(local.control as nat)),
            )
            &&& w.entry("hb_port"@) == Some(
                Written::Number(text::decimal_of(local.heartbeat as nat)),
            )
            &&& w.entry("ip"@) == Some(Written::Str("127.0.0.1"@))
            &&& key != "shell_port"@ && key != "iopub_port"@ && key != "stdin_port"@ && key
                != "control_port"@ && key != "hb_port"@ && key != "ip"@ ==> w.entry(key)
                == Written::Object(es).entry(key)
        }),
{
    reveal_strlit("shell_port");
    reveal_strlit("iopub_port");
    reveal_strlit("stdin_port");
    reveal_strlit("control_port");
    reveal_strlit("hb_port");
    reveal_strlit("ip");
    assert("iopub_port"@[0] == 'i' && "shell_port"@[1] == 'h' && "stdin_port"@[1] == 't'
        && "control_port"@[0] == 'c' && "hb_port"@[0] == 'h' && "shell_port"@[0] == 's'
        && "stdin_port"@[0] == 's' && "ip"@.len() == 2);
    lemma_written_through(es, local, key);
    lemma_written_through(es, local, "shell_port"@);
    lemma_written_through(es, local, "iopub_port"@);
    lemma_written_through(es, local, "stdin_port"@);
    lemma_written_through(es, local, "control_port"@);
    lemma_written_through(es, local, "hb_port"@);
}

/// What each of the six steps leaves under a key.
proof fn lemma_written_through(
    es: Seq<(Seq<char>, Written)>,
    local: KernelPorts,
    key: Seq<char>,
)
    ensures
        Written::Object(pointed_in_order(es, local)).entry(key) == (if key == "ip"@ {
            Some(Written::Str("127.0.0.1"@))
        } else if key == "hb_port"@ {
            Some(port_written(local.heartbeat))
        } else if key == "control_port"@ {
            Some(port_written(local.control))
        } else if key == "stdin_port"@ {
            Some(port_written(local.stdin))
        } else if key == "iopub_port"@ {
            Some(port_written(local.iopub))
        } else if key == "shell_port"@ {
            Some(port_written(local.shell))
        } else {
            Written::Object(es).entry(key)
        }),
        Written::Object(pointed_in_order(es, local)).entry("ip"@) == Some(
            Written::Str("127.0.0.1"@),
        ),
{
    let shell = json::put(es, "shell_port"@, port_written(local.shell));
    let iopub = json::put(shell, "iopub_port"@, port_written(local.iopub));
    let stdin = json::put(iopub, "stdin_port"@, port_written(local.stdin));
    let control = json::put(stdin, "control_port"@, port_written(local.control));
    let heartbeat = json::put(control, "hb_port"@, port_written(local.heartbeat));
    json::law_putting_keeps_the_rest(es, "shell_port"@, port_written(local.shell), key, 0);
    json::law_putting_keeps_the_rest(shell, "iopub_port"@, port_written(local.iopub), key, 0);
    json::law_putting_keeps_the_rest(iopub, "stdin_port"@, port_written(local.stdin), key, 0);
    json::law_putting_keeps_the_rest(stdin, "control_port"@, port_written(local.control), key, 0);
    json::law_putting_keeps_the_rest(control, "hb_port"@, port_written(local.heartbeat), key, 0);
    json::law_putting_keeps_the_rest(heartbeat, "ip"@, Written::Str("127.0.0.1"@), key, 0);
}

/// A kernel is connected to by its local ports, through a file that bears its id.
pub proof fn law_file_bears_the_kernel_id(
    p: KernelPlan,
    info: JsonModel,
    local: KernelPorts,
    kernel_id: Seq<char>,
)
    requires
        connects(p, info, local, kernel_id),
    ensures
        p.shell_port == local.shell,
        p.file_name@ == "zed_ssh_kernel_"@ + kernel_id + ".json"@,
        ports_in(p.connection_info@) == Ok::<KernelPorts, SshKernelError>(local),
        p.connection_info@.field("ip"@) == Some(JsonModel::Str("127.0.0.1"@)),
{
    law_rewritten_file_gives_local_ports(info->Object_0, local, "ip"@);
}

} // verus!
