//! Running the agent on a remote host.
//!
//! A path on the local machine means nothing there, so the launch command is
//! replaced by a shell program that fetches the agent bundle where it is missing
//! or out of date, stores the signed-in state, and runs the agent. Everything but
//! the agent itself writes to standard error: standard output carries the
//! protocol.

use vstd::prelude::*;
use vstd::string::*;

use crate::lists;
use crate::text;

verus! {

/// Where the agent bundle is published.
pub const AGENT_BUNDLE_URL: &'static str = "https://aitoken.bigopen.cn/downloads/vibedev-agent-linux-x86_64.tar.gz";

/// Where the bundle lives on the remote host; the remote shell expands it.
pub const REMOTE_AGENT_DIR: &'static str = "$HOME/.vibedev/agent";

/// The program up to the condition.
pub const SCRIPT_HEAD: &'static str = "D=\"$HOME/.vibedev/agent\"; if ";

/// The agent is not there.
pub const ABSENT_GUARD: &'static str = "[ ! -x \"$D/vibedev-agent\" ]";

/// The remote version differs from the one that follows.
pub const VERSION_GUARD_HEAD: &'static str = " || [ \"$(cat \"$D/VERSION\" 2>/dev/null)\" != \"";

/// The end of that condition.
pub const VERSION_GUARD_TAIL: &'static str = "\" ]";

/// Fetching the bundle, up to its address.
pub const FETCH_HEAD: &'static str = "; then { mkdir -p \"$D\" && curl -fL --connect-timeout 20 \"";

/// Fetching the bundle, after its address.
pub const FETCH_TAIL: &'static str = "\" -o \"$D/.bundle.tgz\" && tar xzf \"$D/.bundle.tgz\" -C \"$D\" && rm -f \"$D/.bundle.tgz\" && chmod +x \"$D/vibedev-agent\" \"$D/vendor/ripgrep/x64-linux/rg\"; } 1>&2 || { echo \"vibedev: agent bundle provisioning failed\" 1>&2; exit 1; }; fi; ";

/// Storing the signed-in state.
pub const STORE_STATE: &'static str = "if [ -n \"$VIBEDEV_AUTH_JSON\" ]; then { mkdir -p \"$HOME/.vibedev\" && printf %s \"$VIBEDEV_AUTH_JSON\" > \"$HOME/.vibedev/auth.json\" && chmod 600 \"$HOME/.vibedev/auth.json\"; } 1>&2; fi; ";

/// Running the agent.
pub const RUN: &'static str = "exec \"$D/vibedev-agent\"";

/// The character may stand in a quoted version.
pub open spec fn is_version_char(c: char) -> bool {
    'a' <= c <= 'z' || 'A' <= c <= 'Z' || '0' <= c <= '9' || c == '.' || c == '+' || c == '-'
}

/// The text can stand between double quotes in a shell program and means itself
/// there.
pub open spec fn is_shell_safe(v: Seq<char>) -> bool {
    v.len() > 0 && forall|i: int| 0 <= i < v.len() ==> is_version_char(#[trigger] v[i])
}

/// Whether a version can stand between double quotes in a shell program.
pub fn is_shell_safe_version(v: &str) -> (r: bool)
    ensures
        r == is_shell_safe(v@),
{
    let cs = text::chars_of(v);
    let mut i: usize = 0;
    while i < cs.len()
        invariant
            i <= cs.len(),
            cs@ == v@,
            forall|j: int| 0 <= j < i ==> is_version_char(#[trigger] cs@[j]),
        decreases cs.len() - i,
    {
        let c = cs[i];
        let ok = ('a' <= c && c <= 'z') || ('A' <= c && c <= 'Z') || ('0' <= c && c <= '9') || c
            == '.' || c == '+' || c == '-';
        if !ok {
            return false;
        }
        i += 1;
    }
    cs.len() > 0
}

/// The version that the remote host is held to: the text of the local VERSION
/// file without blanks around it, unless nothing is left.
pub fn bundled_agent_version(contents: &Option<String>) -> (r: Option<String>)
    ensures
        lists::text_of(r) == (match *contents {
            Some(s) => if text::trimmed(s@).len() == 0 {
                None
            } else {
                Some(text::trimmed(s@))
            },
            None => None,
        }),
{
    match contents {
        Some(s) => {
            let t = text::trim(s.as_str());
            if t.as_str().is_empty() {
                None
            } else {
                Some(t)
            }
        },
        None => None,
    }
}

/// The condition under which the bundle is fetched: the agent is not there, or,
/// where a version is known and safe to quote, the remote VERSION file holds
/// something else.
pub open spec fn guard(version: Option<Seq<char>>) -> Seq<char> {
    match version {
        Some(v) => if is_shell_safe(v) {
            ABSENT_GUARD@ + VERSION_GUARD_HEAD@ + v + VERSION_GUARD_TAIL@
        } else {
            ABSENT_GUARD@
        },
        None => ABSENT_GUARD@,
    }
}

/// The line that runs the agent with its flags.
pub open spec fn run_line(args: Seq<Seq<char>>) -> Seq<char> {
    let flags = text::joined(args, " "@);
    if flags.len() == 0 {
        RUN@
    } else {
        RUN@ + " "@ + flags
    }
}

/// What comes before the line that runs the agent.
pub open spec fn preparation(version: Option<Seq<char>>) -> Seq<char> {
    SCRIPT_HEAD@ + guard(version) + FETCH_HEAD@ + AGENT_BUNDLE_URL@ + FETCH_TAIL@ + STORE_STATE@
}

/// The shell program that prepares the host and runs the agent.
pub open spec fn launch_script(args: Seq<Seq<char>>, version: Option<Seq<char>>) -> Seq<char> {
    preparation(version) + run_line(args)
}

/// The optional text of a borrowed string.
pub open spec fn str_of(s: Option<&str>) -> Option<Seq<char>> {
    match s {
        Some(t) => Some(t@),
        None => None,
    }
}

/// The command that runs the agent on a remote host: `sh -c` with the shell
/// program.
pub fn remote_launch_command(original_args: &[String], expected_version: Option<&str>) -> (r: (
    String,
    Vec<String>,
))
    ensures
        r.0@ == "sh"@,
        lists::texts(r.1@) == seq![
            "-c"@,
            launch_script(lists::texts(original_args@), str_of(expected_version)),
        ],
{
    let flags = lists::join_all(original_args, " ");
    let mut s = SCRIPT_HEAD.to_owned();
    s.append(ABSENT_GUARD);
    if let Some(v) = expected_version {
        if is_shell_safe_version(v) {
            s.append(VERSION_GUARD_HEAD);
            s.append(v);
            s.append(VERSION_GUARD_TAIL);
        }
    }
    assert(s@ =~= SCRIPT_HEAD@ + guard(str_of(expected_version)));
    s.append(FETCH_HEAD);
    s.append(AGENT_BUNDLE_URL);
    s.append(FETCH_TAIL);
    s.append(STORE_STATE);
    assert(s@ =~= preparation(str_of(expected_version)));
    s.append(RUN);
    if !flags.as_str().is_empty() {
        s.append(" ");
        s.append(flags.as_str());
    }
    assert(s@ =~= launch_script(lists::texts(original_args@), str_of(expected_version)));
    let args = vec!["-c".to_owned(), s];
    assert(lists::texts(args@) =~= seq![
        "-c"@,
        launch_script(lists::texts(original_args@), str_of(expected_version)),
    ]);
    ("sh".to_owned(), args)
}

/// A version that is not safe to quote is treated as an unknown one: no character
/// of it reaches the program.
pub proof fn law_unsafe_version_is_ignored(args: Seq<Seq<char>>, version: Seq<char>)
    requires
        !is_shell_safe(version),
    ensures
        launch_script(args, Some(version)) == launch_script(args, None),
{
}

/// The version changes when the bundle is fetched, never how the agent is run.
pub proof fn law_run_line_is_version_independent(
    args: Seq<Seq<char>>,
    version: Option<Seq<char>>,
)
    ensures
        text::ends_with(launch_script(args, version), run_line(args)),
{
    let s = launch_script(args, version);
    let line = run_line(args);
    assert(s.skip(s.len() - line.len()) =~= line);
}

/// Every program checks that the agent is there, and one for a version that is
/// safe to quote checks the version after that.
pub proof fn law_guard_covers_absence(args: Seq<Seq<char>>, version: Option<Seq<char>>)
    ensures
        text::begins_with(launch_script(args, version), SCRIPT_HEAD@ + ABSENT_GUARD@),
        version is Some && is_shell_safe(version->0) ==> text::begins_with(
            launch_script(args, version),
            SCRIPT_HEAD@ + ABSENT_GUARD@ + VERSION_GUARD_HEAD@ + version->0 + VERSION_GUARD_TAIL@,
        ),
{
    let s = launch_script(args, version);
    let p = SCRIPT_HEAD@ + ABSENT_GUARD@;
    assert(s.take(p.len() as int) =~= p);
    if version is Some && is_shell_safe(version->0) {
        let q = SCRIPT_HEAD@ + ABSENT_GUARD@ + VERSION_GUARD_HEAD@ + version->0
            + VERSION_GUARD_TAIL@;
        assert(s.take(q.len() as int) =~= q);
    }
}

/// A version of letters, digits, dots, plus signs and hyphens may be quoted; one with
/// anything that a shell reads in quotes may not, nor may an empty one.
pub proof fn law_only_plain_versions_are_quoted(v: Seq<char>, i: int)
    ensures
        v.len() == 0 ==> !is_shell_safe(v),
        0 <= i < v.len() && (v[i] == '"' || v[i] == '$' || v[i] == '`' || v[i] == '\\' || v[i]
            == '!' || v[i] == ' ' || v[i] == '\n' || v[i] == ';' || v[i] == '\'' || v[i] == '&'
            || v[i] == '|' || v[i] == '(' || v[i] == ')') ==> !is_shell_safe(v),
        v.len() > 0 && (forall|j: int|
            0 <= j < v.len() ==> ('0' <= #[trigger] v[j] && v[j] <= '9') || v[j] == '.' || v[j]
                == '-' || v[j] == '+' || ('a' <= v[j] && v[j] <= 'z') || ('A' <= v[j] && v[j]
                <= 'Z')) ==> is_shell_safe(v),
{
}

/// The program fetches the bundle from its address, stores the signed-in state and then
/// runs the agent with the flags that it was given, in this order and each once.
pub proof fn law_program_prepares_and_runs(
    args: Seq<Seq<char>>,
    version: Option<Seq<char>>,
    flags: Seq<char>,
)
    requires
        flags == text::joined(args, " "@),
    ensures
        exists|condition: Seq<char>|
            launch_script(args, version) == "D=\"$HOME/.vibedev/agent\"; if "@ + condition
                + FETCH_HEAD@ + AGENT_BUNDLE_URL@ + FETCH_TAIL@ + STORE_STATE@ + (if flags.len()
                == 0 {
                "exec \"$D/vibedev-agent\""@
            } else {
                "exec \"$D/vibedev-agent\""@ + " "@ + flags
            }),
{
    let condition = guard(version);
    assert(launch_script(args, version) =~= "D=\"$HOME/.vibedev/agent\"; if "@ + condition
        + FETCH_HEAD@ + AGENT_BUNDLE_URL@ + FETCH_TAIL@ + STORE_STATE@ + (if flags.len() == 0 {
        "exec \"$D/vibedev-agent\""@
    } else {
        "exec \"$D/vibedev-agent\""@ + " "@ + flags
    }));
}

/// Two versions that are safe to quote make two programs, and neither makes the program of
/// an unknown version: a host that holds another version is brought up to date.
pub proof fn law_known_version_is_demanded(
    args: Seq<Seq<char>>,
    one: Seq<char>,
    other: Seq<char>,
)
    requires
        is_shell_safe(one),
        is_shell_safe(other),
        one != other,
    ensures
        launch_script(args, Some(one)) != launch_script(args, Some(other)),
        launch_script(args, Some(one)) != launch_script(args, None),
{
    let a = launch_script(args, Some(one));
    let b = launch_script(args, Some(other));
    let n = launch_script(args, None);
    assert(a.len() > n.len());
    if a == b {
        assert(one.len() == other.len());
        let at = (SCRIPT_HEAD@ + ABSENT_GUARD@ + VERSION_GUARD_HEAD@).len() as int;
        assert(a.subrange(at, at + one.len()) =~= one);
        assert(b.subrange(at, at + one.len()) =~= other);
    }
}

} // verus!
