use vibedev::json::Json;
use vibedev::ssh_kernel::{
    connection_file_name, local_address, plan_connection, remote_ports, spawn_request,
    tunnel_step, KernelPorts, SshKernelError, SshRunningKernel, TunnelStep, TUNNEL_ATTEMPTS,
    TUNNEL_RETRY_MILLIS, TUNNEL_SETTLE_MILLIS,
};

const FILE: &str = r#"{
    "transport": "tcp", "ip": "0.0.0.0", "key": "k", "signature_scheme": "hmac-sha256",
    "shell_port": 1, "iopub_port": 2, "stdin_port": 3, "control_port": 4, "hb_port": 5
}"#;

fn local() -> KernelPorts {
    KernelPorts { shell: 11, iopub: 12, stdin: 13, control: 14, heartbeat: 15 }
}

#[test]
fn the_rewritten_file_gives_local_ports() {
    let plan = plan_connection(FILE, "k1", &local(), true).unwrap();
    assert_eq!(plan.forwards.len(), 5);
    assert_eq!(plan.forwards[0], (11, "127.0.0.1".to_string(), 1));
    assert_eq!(plan.shell_port, 11);
    assert_eq!(remote_ports(&plan.connection_info), Ok(local()));
    assert_eq!(plan.connection_info.get_str("ip"), Some("127.0.0.1"));
    assert_eq!(plan.connection_info.get_str("key"), Some("k"));
    assert!(plan.file_name.contains("k1"));
    assert_eq!(plan.file_name, connection_file_name("k1"));
}

#[test]
fn what_cannot_be_reached_is_an_error() {
    let err = plan_connection("no", "k", &local(), true).unwrap_err();
    assert!(matches!(err, SshKernelError::NotJson(_)));
    let complaint = serde_json::from_str::<serde_json::Value>("no").unwrap_err();
    assert_eq!(err.message(), complaint.to_string());
    assert_eq!(err.message(), "expected ident at line 1 column 2");
    assert_eq!(
        plan_connection(FILE, "k", &local(), false),
        Err(SshKernelError::NoRemoteClient)
    );
    let missing = Json::parse(r#"{ "shell_port": 1 }"#).unwrap();
    let err = remote_ports(&missing).unwrap_err();
    assert!(matches!(err, SshKernelError::MissingPort(_)));
    assert!(!err.message().is_empty());
}

#[test]
fn a_tunnel_is_tried_many_times() {
    assert_eq!(tunnel_step(0, true), TunnelStep::Established(TUNNEL_SETTLE_MILLIS));
    assert_eq!(tunnel_step(0, false), TunnelStep::Retry(TUNNEL_RETRY_MILLIS));
    assert_eq!(tunnel_step(TUNNEL_ATTEMPTS - 1, false), TunnelStep::GiveUp);
    assert_eq!(local_address(11), "127.0.0.1:11");
}

#[test]
fn a_kernel_is_started_and_killed_by_name() {
    let argv = vec!["python".to_string(), "-m".to_string(), "ipykernel".to_string()];
    let request = spawn_request("python3", &argv, "/w", Some(7), 1);
    assert_eq!(request.project_id, 7);
    assert_eq!(request.command, "python");
    assert_eq!(request.args, vec!["-m".to_string(), "ipykernel".to_string()]);
    assert_eq!(spawn_request("p", &vec![], "/w", None, 1).project_id, 1);
    let mut kernel: SshRunningKernel<&str, u8> =
        SshRunningKernel::new("idle", "/w".to_string(), "k1".to_string(), 7);
    assert_eq!(*kernel.execution_state(), "idle");
    kernel.set_execution_state("busy");
    assert_eq!(*kernel.execution_state(), "busy");
    assert_eq!(kernel.kernel_info(), None);
    kernel.set_kernel_info(3);
    assert_eq!(kernel.kernel_info(), Some(&3));
    assert_eq!(kernel.working_directory(), "/w");
    assert_eq!(kernel.force_shutdown().kernel_id, "k1");
}

#[test]
fn a_rewritten_file_keeps_its_order() {
    let plan = plan_connection(FILE, "k1", &local(), true).unwrap();
    let keys = |v: &Json| match v {
        Json::Object(entries) => entries.iter().map(|(key, _)| key.clone()).collect::<Vec<_>>(),
        _ => vec![],
    };
    assert_eq!(keys(&plan.connection_info), keys(&Json::parse(FILE).unwrap()));
}
