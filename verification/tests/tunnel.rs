use vorto::addr::{Ipv4Addr, Ipv6Addr, SocketAddr};
use vorto::config::{Protocol, TcpMode, TunnelConfig};
use vorto::tunnel::{
    datagram_sent, drain_tcp_connections, handle_tcp_connection, parse_socket_addr, run_tcp_tunnel,
    run_udp_tunnel, tune_socket_buffers, upstream_bind_addr, wait_for_shutdown,
    wait_for_task_shutdown, ConnectAction, ConnectEvent, ConnectionLimiter, DatagramFault,
    ShutdownAction, ShutdownEvent, ShutdownStage, SocketBuffer, StartAction, TaskEnd, TcpAction,
    TcpEvent, TunnelStart, UdpAction, UdpEvent, UDP_SOCKET_BUFFER_SIZE,
};

fn tunnel(protocol: Protocol, target: &str) -> TunnelConfig {
    TunnelConfig {
        name: "t".to_string(),
        listen: "127.0.0.1:1".to_string(),
        target: target.to_string(),
        protocol,
        tcp_mode: TcpMode::Auto,
        enabled: true,
    }
}

fn failed(error: &str) -> TaskEnd {
    TaskEnd::Failed { error: error.to_string() }
}

#[test]
fn a_dual_tunnel_starts_step_by_step() {
    let (start, action) = TunnelStart::spawn(tunnel(Protocol::Both, "127.0.0.1:2"));
    match action {
        StartAction::BindTcp { listen } => assert_eq!(listen, "127.0.0.1:1"),
        other => panic!("unexpected: {:?}", other),
    }
    let (start, action) = start.advance(Ok(()));
    match action {
        StartAction::LaunchTcp { target } => assert_eq!(target, "127.0.0.1:2"),
        other => panic!("unexpected: {:?}", other),
    }
    let (start, action) = start.advance(Ok(()));
    match action {
        StartAction::BindUdp { listen } => assert_eq!(listen, "127.0.0.1:1"),
        other => panic!("unexpected: {:?}", other),
    }
    let (start, action) = start.advance(Ok(()));
    assert!(matches!(action, StartAction::ConfigureUdp));
    let (start, action) = start.advance(Ok(()));
    match action {
        StartAction::LaunchUdp { upstream } => {
            assert_eq!(upstream, SocketAddr::V4 { ip: Ipv4Addr::new(127, 0, 0, 1), port: 2 })
        }
        other => panic!("unexpected: {:?}", other),
    }
    let (_, action) = start.advance(Ok(()));
    assert!(matches!(action, StartAction::Ready));
}

#[test]
fn a_start_rolls_back_when_the_udp_port_is_occupied() {
    let (start, _) = TunnelStart::spawn(tunnel(Protocol::Both, "127.0.0.1:2"));
    let (start, _) = start.advance(Ok(()));
    let (start, _) = start.advance(Ok(()));
    let (_, action) = start.advance(Err("Address already in use".to_string()));
    match action {
        StartAction::RollBack { workers, error } => {
            assert_eq!(workers, 1);
            assert_eq!(error, "Address already in use");
        }
        other => panic!("the start should be undone: {:?}", other),
    }
}

#[test]
fn a_start_that_fails_at_once_has_no_worker_to_stop() {
    for protocol in [Protocol::Tcp, Protocol::Udp] {
        let (start, _) = TunnelStart::spawn(tunnel(protocol, "127.0.0.1:2"));
        let (_, action) = start.advance(Err("denied".to_string()));
        assert!(matches!(action, StartAction::RollBack { workers: 0, .. }));
    }
}

#[test]
fn a_udp_tunnel_needs_a_socket_address() {
    let (_, action) = TunnelStart::spawn(tunnel(Protocol::Udp, "localhost:2"));
    match action {
        StartAction::RollBack { workers, error } => {
            assert_eq!(workers, 0);
            assert_eq!(error, "Invalid target address localhost:2: invalid socket address syntax");
        }
        other => panic!("the start should be undone: {:?}", other),
    }
    assert_eq!(
        parse_socket_addr("x", "listen"),
        Err("Invalid listen address x: invalid socket address syntax".to_string())
    );
    assert!(parse_socket_addr("1.2.3.4:5", "listen").is_ok());
}

#[test]
fn excess_connections_are_closed_until_capacity_is_available() {
    let mut limiter = ConnectionLimiter::new(1);
    let accept = |limiter: &mut ConnectionLimiter| {
        run_tcp_tunnel(TcpEvent::Accepted { admitted: limiter.try_open() })
    };
    assert!(matches!(accept(&mut limiter), TcpAction::Serve));
    assert!(matches!(accept(&mut limiter), TcpAction::Refuse));
    assert!(matches!(accept(&mut limiter), TcpAction::Refuse));
    limiter.close();
    assert!(matches!(accept(&mut limiter), TcpAction::Serve));
    assert!(!limiter.try_open());
    limiter.close();
    limiter.close();
    assert!(limiter.try_open());
    assert!(!limiter.try_open());
    assert!(!ConnectionLimiter::new(0).try_open());
}

#[test]
fn a_tcp_tunnel_ends_where_it_is_told_to_or_cannot_accept() {
    assert!(matches!(run_tcp_tunnel(TcpEvent::Stop), TcpAction::Drain));
    let error = || "broken".to_string();
    let stopping = TcpEvent::AcceptFailed { error: error(), stopping: true };
    assert!(matches!(run_tcp_tunnel(stopping), TcpAction::Drain));
    match run_tcp_tunnel(TcpEvent::AcceptFailed { error: error(), stopping: false }) {
        TcpAction::Fail { error } => assert_eq!(error, "broken"),
        other => panic!("the tunnel should fail: {:?}", other),
    }
}

#[test]
fn a_failed_connection_does_not_end_its_tunnel() {
    let report = |end: TaskEnd| match run_tcp_tunnel(TcpEvent::ConnectionEnded { end }) {
        TcpAction::Continue { report } => report,
        other => panic!("the tunnel should go on: {:?}", other),
    };
    assert_eq!(report(failed("panic")), Some("TCP connection task failed: panic".to_string()));
    assert_eq!(report(TaskEnd::Cancelled), None);
    assert_eq!(report(TaskEnd::Completed), None);
}

#[test]
fn a_connection_is_relayed_once_its_target_is_reached() {
    let target = "10.0.0.1:80";
    assert!(matches!(handle_tcp_connection(ConnectEvent::Connected, target), ConnectAction::Relay));
    assert!(matches!(handle_tcp_connection(ConnectEvent::Stop, target), ConnectAction::Close));
    match handle_tcp_connection(ConnectEvent::TimedOut, target) {
        ConnectAction::Fail { error } => {
            assert_eq!(error, "timed out connecting to target 10.0.0.1:80 after 10s")
        }
        other => panic!("the connection should fail: {:?}", other),
    }
    let refused = ConnectEvent::Failed { error: "refused".to_string() };
    match handle_tcp_connection(refused, target) {
        ConnectAction::Fail { error } => assert_eq!(error, "refused"),
        other => panic!("the connection should fail: {:?}", other),
    }
}

#[test]
fn connections_that_do_not_end_in_time_are_aborted() {
    let grace = ShutdownStage::Grace;
    let step = drain_tcp_connections(grace, ShutdownEvent::Ended { end: failed("x") });
    assert_eq!(step.stage, grace);
    assert_eq!(step.action, ShutdownAction::Wait);
    assert_eq!(
        step.report,
        Some("TCP connection task failed during shutdown: x".to_string())
    );
    let step = drain_tcp_connections(grace, ShutdownEvent::TimedOut);
    assert_eq!(step.stage, ShutdownStage::Aborted);
    assert_eq!(step.action, ShutdownAction::Abort);
    assert_eq!(
        step.report,
        Some(
            "Warning: TCP connection tasks did not stop within 3s; aborting them.".to_string()
        )
    );
    let step = drain_tcp_connections(step.stage, ShutdownEvent::Ended { end: failed("y") });
    assert_eq!(step.report, Some("TCP connection task failed after abort: y".to_string()));
    let step = drain_tcp_connections(step.stage, ShutdownEvent::Ended { end: TaskEnd::Cancelled });
    assert_eq!(step.report, None);
    let step = drain_tcp_connections(step.stage, ShutdownEvent::Empty);
    assert_eq!(step.action, ShutdownAction::Done);
}

#[test]
fn a_worker_that_does_not_end_in_time_is_aborted() {
    let grace = ShutdownStage::Grace;
    let label = "tunnel worker";
    let done = wait_for_task_shutdown(grace, ShutdownEvent::Ended { end: TaskEnd::Completed }, label);
    assert_eq!(done.action, ShutdownAction::Done);
    assert_eq!(done.report, None);
    let done = wait_for_task_shutdown(grace, ShutdownEvent::Ended { end: failed("x") }, label);
    assert_eq!(done.report, Some("tunnel worker failed while stopping: x".to_string()));
    let late = wait_for_task_shutdown(grace, ShutdownEvent::TimedOut, label);
    assert_eq!(late.action, ShutdownAction::Abort);
    assert_eq!(
        late.report,
        Some("Warning: tunnel worker did not stop within 3s; aborting it.".to_string())
    );
    let done = wait_for_task_shutdown(late.stage, ShutdownEvent::Ended { end: failed("y") }, label);
    assert_eq!(done.action, ShutdownAction::Done);
    assert_eq!(done.report, Some("tunnel worker failed after abort: y".to_string()));
}

#[test]
fn a_tunnel_stops_when_it_is_told_or_left_alone() {
    assert!(wait_for_shutdown(true, true));
    assert!(wait_for_shutdown(false, false));
    assert!(!wait_for_shutdown(false, true));
}

#[test]
fn a_udp_tunnel_outlives_a_datagram_that_is_not_forwarded() {
    let error = || "unreachable".to_string();
    assert!(matches!(run_udp_tunnel(UdpEvent::Received, "dns"), UdpAction::Forward));
    match run_udp_tunnel(UdpEvent::ForwardFailed { error: error(), stopping: false }, "dns") {
        UdpAction::Continue { report } => assert_eq!(
            report,
            Some("UDP tunnel 'dns' forward failed: unreachable".to_string())
        ),
        other => panic!("the tunnel should go on: {:?}", other),
    }
    match run_udp_tunnel(UdpEvent::Forwarded, "dns") {
        UdpAction::Continue { report } => assert_eq!(report, None),
        other => panic!("the tunnel should go on: {:?}", other),
    }
    for event in [
        UdpEvent::Stop,
        UdpEvent::ForwardFailed { error: error(), stopping: true },
        UdpEvent::ReceiveFailed { error: error(), stopping: true },
    ] {
        assert!(matches!(run_udp_tunnel(event, "dns"), UdpAction::Finish));
    }
    match run_udp_tunnel(UdpEvent::ReceiveFailed { error: error(), stopping: false }, "dns") {
        UdpAction::Fail { error } => assert_eq!(error, "unreachable"),
        other => panic!("the tunnel should fail: {:?}", other),
    }
}

#[test]
fn datagrams_are_sent_wholly_or_not_at_all() {
    assert_eq!(datagram_sent(Some(5), 5), Ok(()));
    assert_eq!(datagram_sent(Some(4), 5), Err(DatagramFault::Partial));
    assert_eq!(datagram_sent(None, 5), Err(DatagramFault::ListenerClosed));
    assert_eq!(DatagramFault::Partial.message(), "UDP socket sent a partial datagram");
    assert_eq!(DatagramFault::ListenerClosed.message(), "UDP listener closed");
}

#[test]
fn sockets_towards_a_target_have_its_family() {
    let v4 = SocketAddr::V4 { ip: Ipv4Addr::new(1, 2, 3, 4), port: 5 };
    assert_eq!(upstream_bind_addr(v4), SocketAddr::V4 { ip: Ipv4Addr::new(0, 0, 0, 0), port: 0 });
    let v6 = SocketAddr::V6 {
        ip6: Ipv6Addr { segments: [1, 0, 0, 0, 0, 0, 0, 2] },
        scope_id: 3,
        port: 4,
    };
    assert_eq!(
        upstream_bind_addr(v6),
        SocketAddr::V6 { ip6: Ipv6Addr { segments: [0; 8] }, scope_id: 0, port: 0 }
    );
    assert_eq!(
        tune_socket_buffers(UDP_SOCKET_BUFFER_SIZE, 7),
        vec![(SocketBuffer::Receive, 4 * 1024 * 1024), (SocketBuffer::Send, 7)]
    );
}
