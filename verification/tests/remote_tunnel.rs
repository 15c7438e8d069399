use vibedev::remote_tunnel::{
    after_try, children, ensure_tunnel, handle_connect, keep_alive, parse_allocated_port,
    push_head_byte, request_target, reverse_tunnel_args, teardown_tunnels, tunnels, ConnectError,
    HeadStep, TunnelRegistry, TunnelStep, TunnelWatch, MAX_HEAD_BYTES, TUNNEL_PAUSE_MILLIS,
    TUNNEL_TRIES,
};

#[test]
fn parses_openssh_allocated_port_line() {
    assert_eq!(
        parse_allocated_port("Allocated port 41273 for remote forward to 127.0.0.1:52001"),
        Some(41273)
    );
}

#[test]
fn tolerates_log_prefix() {
    assert_eq!(
        parse_allocated_port("debug1: Allocated port 9 for remote forward to 127.0.0.1:1"),
        Some(9)
    );
}

#[test]
fn ignores_unrelated_lines() {
    assert_eq!(parse_allocated_port("debug1: Authentication succeeded"), None);
    assert_eq!(parse_allocated_port("Allocated port  for remote forward"), None);
}

#[test]
fn ports_out_of_range_are_no_ports() {
    assert_eq!(parse_allocated_port("Allocated port 65535 for"), Some(65535));
    assert_eq!(parse_allocated_port("Allocated port 65536 for"), None);
}

#[test]
fn teardown_tunnels_kills_tracked_children() {
    let mut registry = TunnelRegistry::new();
    keep_alive(&mut registry, 4711);
    assert_eq!(children(&registry).len(), 1, "keep_alive should register the child");

    let killed = teardown_tunnels(&mut registry);

    assert!(children(&registry).is_empty(), "teardown_tunnels should drain the registry");
    assert_eq!(killed, vec![4711], "teardown_tunnels should hand out the child to be killed");
}

#[test]
fn tunnel_is_kept_until_teardown() {
    let mut registry = TunnelRegistry::new();
    assert_eq!(ensure_tunnel(&registry, "box"), TunnelStep::Try(1));
    assert_eq!(after_try(&mut registry, "box", 1, Some((41273, 7))), TunnelStep::Up(41273));
    assert_eq!(ensure_tunnel(&registry, "box"), TunnelStep::Up(41273));
    assert_eq!(tunnels(&registry).get("box"), Some(&41273));
    assert_eq!(ensure_tunnel(&registry, "other"), TunnelStep::Try(1));
    assert_eq!(teardown_tunnels(&mut registry), vec![7]);
    assert_eq!(ensure_tunnel(&registry, "box"), TunnelStep::Try(1));
}

#[test]
fn failed_tries_are_repeated_and_then_given_up() {
    let mut registry = TunnelRegistry::new();
    for attempt in 1..TUNNEL_TRIES {
        assert_eq!(
            after_try(&mut registry, "box", attempt, None),
            TunnelStep::PauseThenTry {
                millis: TUNNEL_PAUSE_MILLIS * u64::from(attempt),
                next: attempt + 1
            }
        );
    }
    assert_eq!(
        after_try(&mut registry, "box", TUNNEL_TRIES, None),
        TunnelStep::PauseThenFail { millis: TUNNEL_PAUSE_MILLIS * u64::from(TUNNEL_TRIES) }
    );
    assert!(tunnels(&registry).is_empty());
}

#[test]
fn first_allocated_port_counts() {
    let mut watch = TunnelWatch::new();
    assert_eq!(watch.on_line("debug1: hello"), None);
    assert_eq!(watch.on_line("Allocated port 9 for remote forward"), Some(9));
    assert_eq!(watch.on_line("Allocated port 10 for remote forward"), None);
}

#[test]
fn arguments_name_the_host_last() {
    let args = reverse_tunnel_args(
        "example.com",
        Some(2222),
        Some("me"),
        &vec!["-i".to_string(), "key".to_string()],
        52001,
    );
    let expected = [
        "-p",
        "2222",
        "-l",
        "me",
        "-i",
        "key",
        "-v",
        "-N",
        "-o",
        "ExitOnForwardFailure=yes",
        "-o",
        "StrictHostKeyChecking=accept-new",
        "-o",
        "ServerAliveInterval=30",
        "-o",
        "BatchMode=yes",
        "-R",
        "127.0.0.1:0:127.0.0.1:52001",
        "example.com",
    ];
    assert_eq!(args, expected.map(String::from).to_vec());
}

#[test]
fn connect_head_names_the_target() {
    assert_eq!(
        request_target("CONNECT example.com:443 HTTP/1.1\r\nHost: x\r\n\r\n"),
        Ok("example.com:443".to_string())
    );
    let head = b"CONNECT example.com:443 HTTP/1.1\r\n\r\n".to_vec();
    assert_eq!(handle_connect(&head), Ok("example.com:443".to_string()));
    // what is no UTF-8 is read with a mark in its place
    let broken = vec![0x43, 0xff, 0x20, 0x78];
    assert_eq!(
        handle_connect(&broken),
        Err(ConnectError::NotConnect("C\u{fffd}".to_string()))
    );
}

#[test]
fn other_requests_are_refused() {
    assert_eq!(request_target(""), Err(ConnectError::Empty));
    let err = request_target("GET / HTTP/1.1\r\n\r\n").unwrap_err();
    assert!(matches!(err, ConnectError::NotConnect(_)));
    assert!(err.message().contains("GET"));
}

#[test]
fn head_ends_at_an_empty_line() {
    let mut head: Vec<u8> = Vec::new();
    let text = b"A\r\n\r\n";
    for (i, byte) in text.iter().enumerate() {
        let step = push_head_byte(&mut head, *byte);
        let expected = if i == text.len() - 1 { HeadStep::Complete } else { HeadStep::More };
        assert_eq!(step, expected);
    }
    assert_eq!(head, text.to_vec());
    let mut long: Vec<u8> = Vec::new();
    let mut step = HeadStep::More;
    while step == HeadStep::More {
        step = push_head_byte(&mut long, b'x');
    }
    assert_eq!(step, HeadStep::TooLarge);
    assert!(long.len() >= MAX_HEAD_BYTES);
}
