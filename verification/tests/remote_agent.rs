use vibedev::remote_agent::{
    bundled_agent_version, is_shell_safe_version, remote_launch_command, AGENT_BUNDLE_URL,
};

fn script_of(args: &[String], expected_version: Option<&str>) -> String {
    let (program, argv) = remote_launch_command(args, expected_version);
    assert_eq!(program, "sh");
    assert_eq!(argv[0], "-c");
    argv[1].clone()
}

#[test]
fn wraps_in_sh_dash_c() {
    let (program, argv) = remote_launch_command(&["--acp".to_string()], None);
    assert_eq!(program, "sh");
    assert_eq!(argv.len(), 2);
    assert_eq!(argv[0], "-c");
}

#[test]
fn self_provisions_and_execs_remote_bundle() {
    let s = script_of(&["--acp".to_string()], None);
    // provisioning is guarded on the bundle being absent
    assert!(s.contains("if [ ! -x \"$D/vibedev-agent\" ]"));
    // downloads the hosted bundle and restores the executable bit
    assert!(s.contains(AGENT_BUNDLE_URL));
    assert!(s.contains("tar xzf"));
    assert!(s.contains("chmod +x \"$D/vibedev-agent\" \"$D/vendor/ripgrep/x64-linux/rg\""));
    // provisioning output goes to stderr so stdout stays clean
    assert!(s.contains("1>&2"));
    // writes the account's state so that the remote agent is signed in
    assert!(s.contains("printf %s \"$VIBEDEV_AUTH_JSON\" > \"$HOME/.vibedev/auth.json\""));
    // finally execs the agent with the forwarded flag
    assert!(s.contains("exec \"$D/vibedev-agent\" --acp"));
}

#[test]
fn forwards_all_flags() {
    let s = script_of(&["--acp".to_string(), "--verbose".to_string()], None);
    assert!(s.ends_with("exec \"$D/vibedev-agent\" --acp --verbose"));
}

#[test]
fn handles_no_extra_flags() {
    let s = script_of(&[], None);
    assert!(s.ends_with("exec \"$D/vibedev-agent\""));
}

#[test]
fn version_check_present_when_expected_version_known() {
    let s = script_of(&["--acp".to_string()], Some("2.6.5"));
    assert!(s.contains("[ \"$(cat \"$D/VERSION\" 2>/dev/null)\" != \"2.6.5\" ]"));
    assert!(s.contains("[ ! -x \"$D/vibedev-agent\" ]"));
    assert!(s.contains("exec \"$D/vibedev-agent\" --acp"));
}

#[test]
fn absent_only_when_no_expected_version() {
    let s = script_of(&["--acp".to_string()], None);
    assert!(s.contains("[ ! -x \"$D/vibedev-agent\" ]"));
    assert!(!s.contains("$D/VERSION"));
}

#[test]
fn unsafe_version_falls_back_to_absent_check() {
    let evil = "2.6.5\"; rm -rf /";
    let s = script_of(&["--acp".to_string()], Some(evil));
    assert!(!s.contains("rm -rf"));
    assert!(!s.contains(evil));
    assert!(!s.contains("$D/VERSION"));
    assert!(s.contains("[ ! -x \"$D/vibedev-agent\" ]"));
    assert!(s.contains("exec \"$D/vibedev-agent\" --acp"));
}

#[test]
fn exec_line_is_version_independent() {
    let with = script_of(&["--acp".to_string()], Some("9.9.9"));
    let without = script_of(&["--acp".to_string()], None);
    assert!(with.ends_with("exec \"$D/vibedev-agent\" --acp"));
    assert!(without.ends_with("exec \"$D/vibedev-agent\" --acp"));
}

#[test]
fn shell_safe_version_charset() {
    assert!(is_shell_safe_version("2.6.5"));
    assert!(is_shell_safe_version("1.0.0-rc.1+build.7"));
    assert!(is_shell_safe_version("v19j-patch72"));
    assert!(!is_shell_safe_version(""));
    assert!(!is_shell_safe_version("2.6.5\""));
    assert!(!is_shell_safe_version("2.6.5; rm -rf /")); // space + ;
    assert!(!is_shell_safe_version("$(whoami)"));
    assert!(!is_shell_safe_version("2.6.5`id`"));
}

#[test]
fn bundled_version_is_trimmed() {
    assert_eq!(bundled_agent_version(&Some(" 2.6.5\n".to_string())), Some("2.6.5".to_string()));
    assert_eq!(bundled_agent_version(&Some("  \n".to_string())), None);
    assert_eq!(bundled_agent_version(&None), None);
}
