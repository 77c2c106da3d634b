use torchat::bridge::{BootstrapStep, TorManager, TorStatus};
use torchat::socks::{
    connect_address, greeting_reply, parse_greeting, parse_request, reply, Greeting, ProxyAction, ProxyConnection, ProxyPhase, Request,
};

#[test]
fn greeting_with_no_auth_is_accepted() {
    assert_eq!(parse_greeting(&[5, 1, 0]), Greeting::Accept { consumed: 3 });
    assert_eq!(greeting_reply(true), vec![5, 0]);
    assert_eq!(parse_greeting(&[5, 2, 2, 0, 9]), Greeting::Accept { consumed: 4 });
}

#[test]
fn greeting_without_no_auth_is_rejected() {
    assert_eq!(parse_greeting(&[5, 1, 2]), Greeting::Reject { consumed: 3 });
    assert_eq!(greeting_reply(false), vec![5, 0xFF]);
    assert_eq!(parse_greeting(&[4, 1, 0]), Greeting::BadVersion);
    assert_eq!(parse_greeting(&[5, 2, 0]), Greeting::Incomplete);
    assert_eq!(parse_greeting(&[]), Greeting::Incomplete);
}

#[test]
fn domain_request_connects() {
    let mut b = vec![5, 1, 0, 3, 5];
    b.extend_from_slice(b"alice");
    b.extend_from_slice(&[0, 80]);
    match parse_request(&b) {
        Request::Connect { host, port, consumed } => {
            assert_eq!(host, "alice");
            assert_eq!(port, 80);
            assert_eq!(consumed, 12);
            assert_eq!(connect_address(&host, port), "alice:80");
        }
        _ => panic!("expected a connect request"),
    }
    assert_eq!(reply(0), vec![5, 0, 0, 1, 0, 0, 0, 0, 0, 0]);
}

#[test]
fn ipv4_and_ipv6_requests() {
    match parse_request(&[5, 1, 0, 1, 127, 0, 0, 1, 0x1f, 0x90]) {
        Request::Connect { host, port, consumed } => {
            assert_eq!(host, "127.0.0.1");
            assert_eq!(port, 8080);
            assert_eq!(consumed, 10);
        }
        _ => panic!("expected a connect request"),
    }
    let mut b = vec![5, 1, 0, 4];
    b.extend_from_slice(&[0x20, 0x01, 0x0d, 0xb8, 0, 0, 0, 0, 0, 0, 0, 0, 0, 0, 0, 1]);
    b.extend_from_slice(&[1, 187]);
    match parse_request(&b) {
        Request::Connect { host, port, .. } => {
            assert_eq!(host, "2001:db8:0:0:0:0:0:1");
            assert_eq!(port, 443);
        }
        _ => panic!("expected a connect request"),
    }
}

#[test]
fn unsupported_requests_get_reply_codes() {
    assert!(matches!(parse_request(&[5, 2, 0, 1]), Request::Refuse { reply: 7 }));
    assert!(matches!(parse_request(&[5, 1, 0, 9]), Request::Refuse { reply: 8 }));
    assert!(matches!(parse_request(&[5, 1, 0]), Request::Incomplete));
    assert!(matches!(parse_request(&[5, 1, 0, 3, 2, 0xff, 0xfe, 0, 80]), Request::BadDomain));
    assert_eq!(reply(4), vec![5, 4, 0, 1, 0, 0, 0, 0, 0, 0]);
}

#[test]
fn bootstrap_twice_while_connected_same_port() {
    let mut m = TorManager::new();
    assert_eq!(m.begin_bootstrap(), BootstrapStep::Start);
    m.report_progress(150);
    assert!(matches!(m.current_status(), TorStatus::Bootstrapping(100)));
    m.complete(41000);
    assert_eq!(m.begin_bootstrap(), BootstrapStep::AlreadyConnected(41000));
    assert_eq!(m.begin_bootstrap(), BootstrapStep::AlreadyConnected(41000));
    m.stop();
    assert!(matches!(m.current_status(), TorStatus::Stopped));
}

#[test]
fn bootstrap_failure_is_error() {
    let mut m = TorManager::new();
    m.begin_bootstrap();
    m.fail("no route".to_string());
    match m.current_status() {
        TorStatus::Error(e) => assert_eq!(e, "no route"),
        _ => panic!("expected an error status"),
    }
    m.complete(1);
    assert!(matches!(m.current_status(), TorStatus::Error(_)));
}

#[test]
fn onion_urls() {
    assert!(TorManager::is_onion_url("http://abcdef.onion/api"));
    assert!(TorManager::is_onion_url("HTTP://ABCDEF.ONION"));
    assert!(!TorManager::is_onion_url("http://abcdef.onion.example.com"));
    assert!(!TorManager::is_onion_url("https://example.com"));
}

#[test]
fn onion_url_normalisation() {
    assert_eq!(TorManager::normalize_onion_url(" https://abc.onion/x "), "http://abc.onion/x");
    assert_eq!(TorManager::normalize_onion_url("https://example.com"), "https://example.com");
    assert_eq!(TorManager::normalize_onion_url("abc.onion"), "http://abc.onion");
    assert_eq!(TorManager::normalize_onion_url("http://abc.onion"), "http://abc.onion");
}

#[test]
fn proxy_handshake_scenario() {
    let mut c = ProxyConnection::new();
    match c.on_bytes(&[5, 1]) {
        ProxyAction::Read => {}
        _ => panic!("expected to wait for more bytes"),
    }
    match c.on_bytes(&[0]) {
        ProxyAction::Send { bytes } => assert_eq!(bytes, vec![5, 0]),
        _ => panic!("expected the method choice"),
    }
    assert_eq!(c.phase, ProxyPhase::AwaitRequest);
    let mut req = vec![5, 1, 0, 3, 5];
    req.extend_from_slice(b"alice");
    req.extend_from_slice(&[0, 0x50]);
    match c.on_bytes(&req) {
        ProxyAction::Connect { address } => assert_eq!(address, "alice:80"),
        _ => panic!("expected a connect"),
    }
    match c.on_connected(true) {
        ProxyAction::SendAndRelay { bytes } => assert_eq!(bytes, vec![5, 0, 0, 1, 0, 0, 0, 0, 0, 0]),
        _ => panic!("expected the success reply"),
    }
    assert_eq!(c.phase, ProxyPhase::Relaying);
}

#[test]
fn proxy_refusals() {
    let mut c = ProxyConnection::new();
    match c.on_bytes(&[5, 1, 2]) {
        ProxyAction::SendAndClose { bytes } => assert_eq!(bytes, vec![5, 0xFF]),
        _ => panic!("expected no acceptable method"),
    }
    assert_eq!(c.phase, ProxyPhase::Closed);
    let mut c = ProxyConnection::new();
    c.on_bytes(&[5, 1, 0]);
    match c.on_bytes(&[5, 1, 0, 1, 10, 0, 0, 1, 0, 80]) {
        ProxyAction::Connect { address } => assert_eq!(address, "10.0.0.1:80"),
        _ => panic!("expected a connect"),
    }
    match c.on_connected(false) {
        ProxyAction::SendAndClose { bytes } => assert_eq!(bytes, vec![5, 4, 0, 1, 0, 0, 0, 0, 0, 0]),
        _ => panic!("expected host unreachable"),
    }
    let mut c = ProxyConnection::new();
    c.on_bytes(&[5, 1, 0]);
    match c.on_bytes(&[5, 3, 0, 1]) {
        ProxyAction::SendAndClose { bytes } => assert_eq!(bytes[1], 7),
        _ => panic!("expected command not supported"),
    }
    let mut c = ProxyConnection::new();
    assert!(matches!(c.on_bytes(&[4, 1, 0]), ProxyAction::Close));
}
