use regex::RegexSet;

use resocks5::http::connect::ConnectRequest;
use resocks5::http::response::{Response, CONNECTION_ESTABLISHED};
use resocks5::http::session::{
    handshake_timeout, ipv4_literal_port, recovered_host, Ending, HttpSession, SessionAction,
    SessionEvent, SessionState,
};
use resocks5::logger::log_config::LogKind;

fn request(target: &str, user: Option<&str>) -> ConnectRequest {
    ConnectRequest {
        target: target.to_string(),
        pipelined: b"early".to_vec(),
        client_user: user.map(|u| u.to_string()),
    }
}

fn start(target: &str, user: Option<&str>, is_direct: bool) -> (HttpSession, SessionAction) {
    HttpSession::begin(request(target, user), is_direct, true, false, 256)
}

#[test]
fn only_ipv4_literals_have_a_port_to_keep() {
    for (target, port) in [
        ("1.2.3.4:443", Some("443")),
        ("203.0.113.9:80", Some("80")),
        ("0.0.0.0:x", Some("x")),
        ("255.255.255.255:", Some("")),
        ("256.1.1.1:443", None),
        ("1.2.3:443", None),
        ("1.2.3.4.5:443", None),
        ("01.2.3.4:443", None),
        ("1.2.3.004:443", None),
        ("1..3.4:443", None),
        ("1.2.3.4", None),
        (" 1.2.3.4:443", None),
        ("example.com:443", None),
        ("[::1]:443", None),
        ("1.2.3.4:5:443", None),
        ("1.2.3.1000:443", None),
        ("1.2.3.+4:443", None),
        ("", None),
    ] {
        assert_eq!(ipv4_literal_port(target), port, "{target}");
    }
}

#[test]
fn pool_client_gets_200_only_when_connected() {
    let none = RegexSet::empty();
    let (mut s, action) = start("example.com:443", Some("alice"), false);
    assert!(matches!(action, SessionAction::DialPool(t) if t == "example.com:443"));
    assert_eq!(s.state(), SessionState::Dialing);
    assert_eq!(s.target(), "example.com:443");
    assert_eq!(s.buffered(), b"early");
    let (action, log) = s.step(SessionEvent::Connected, &none).unwrap();
    assert!(matches!(action, SessionAction::EstablishAndTunnel(p) if p == b"early"));
    assert!(log.is_none());
    assert_eq!(s.state(), SessionState::Tunneling);
    assert!(s.buffered().is_empty());
    assert!(s.step(SessionEvent::Connected, &none).is_none());
    assert_eq!(CONNECTION_ESTABLISHED, "HTTP/1.1 200 Connection Established\r\n\r\n");
}

#[test]
fn failed_dial_is_502_or_403_for_a_banned_target() {
    let banned = RegexSet::new(["^bad\\.test:", "other"]).unwrap();
    for (target, response) in [
        ("bad.test:443", Response::Forbidden),
        ("another.example:1", Response::Forbidden),
        ("good.test:443", Response::BadGateway),
        ("xbad.test:443", Response::BadGateway),
    ] {
        for direct in [false, true] {
            let (mut s, _) = start(target, Some("alice"), direct);
            if direct {
                assert!(matches!(
                    s.step(SessionEvent::DirectSlot(true), &banned),
                    Some((SessionAction::DialDirect, None))
                ));
            }
            let (action, log) =
                s.step(SessionEvent::ConnectFailed("refused".to_string()), &banned).unwrap();
            assert!(matches!(action, SessionAction::Refuse(r, Ending::Failed) if r == response));
            assert!(log.is_none());
            assert_eq!(s.state(), SessionState::Closed);
        }
    }
}

#[test]
fn direct_client_needs_a_slot() {
    let none = RegexSet::empty();
    // Also behind an IP literal: a direct client is never recovered.
    let (mut s, action) = start("1.2.3.4:443", Some("alice"), true);
    assert!(matches!(action, SessionAction::AcquireDirectSlot));
    let (action, log) = s.step(SessionEvent::DirectSlot(false), &none).unwrap();
    assert!(matches!(action, SessionAction::Refuse(Response::ServiceUnavailable, Ending::Quiet)));
    let log = log.unwrap();
    assert_eq!(log.kind, LogKind::ConnectionError);
    assert_eq!(
        log.text,
        "Direct cap reached (256) — dropping client=alice target=1.2.3.4:443"
    );

    let (mut s, _) = start("1.2.3.4:443", Some("alice"), true);
    s.step(SessionEvent::DirectSlot(true), &none).unwrap();
    let (action, _) = s.step(SessionEvent::Connected, &none).unwrap();
    assert!(matches!(action, SessionAction::EstablishAndTunnel(p) if p == b"early"));
}

#[test]
fn anonymous_client_is_never_direct() {
    let (_, action) = start("example.com:443", None, true);
    assert!(matches!(action, SessionAction::DialPool(_)));
}

#[test]
fn recovered_host_is_dialed_in_place_of_the_ip() {
    let none = RegexSet::empty();
    let (mut s, action) = start("203.0.113.9:443", None, false);
    assert!(matches!(action, SessionAction::EstablishAndPeek));
    let event =
        SessionEvent::ClientPayload(b"hello".to_vec(), Some("recovered.example".to_string()));
    let (action, log) = s.step(event, &none).unwrap();
    assert!(matches!(action, SessionAction::DialPool(t) if t == "recovered.example:443"));
    let log = log.unwrap();
    assert_eq!(log.kind, LogKind::CacheWrite);
    assert_eq!(
        log.text,
        "Recovered host recovered.example:443 from payload for IP 203.0.113.9:443 [client=anon]"
    );
    let (action, _) = s.step(SessionEvent::Connected, &none).unwrap();
    assert!(matches!(action, SessionAction::Tunnel(p) if p == b"hello"));
}

#[test]
fn payload_without_a_host_falls_back_to_the_ip() {
    let none = RegexSet::empty();
    let (mut s, _) = start("203.0.113.9:443", Some("u"), false);
    let (action, log) =
        s.step(SessionEvent::ClientPayload(b"??".to_vec(), None), &none).unwrap();
    assert!(matches!(action, SessionAction::DialPool(t) if t == "203.0.113.9:443"));
    assert_eq!(
        log.unwrap().text,
        "No host recoverable from payload for 203.0.113.9:443 — using IP [client=u]"
    );
    // The 200 is out: no error status can follow.
    let (action, log) =
        s.step(SessionEvent::ConnectFailed("boom".to_string()), &none).unwrap();
    assert!(matches!(action, SessionAction::Close(Ending::Failed)));
    let log = log.unwrap();
    assert_eq!(log.kind, LogKind::ConnectionError);
    assert_eq!(log.text, "Recovery upstream failed for 203.0.113.9:443: boom [client=u]");
}

#[test]
fn upstream_that_speaks_first_is_relayed() {
    let none = RegexSet::empty();
    let (mut s, _) = start("203.0.113.9:22", None, false);
    let (action, log) =
        s.step(SessionEvent::UpstreamGreeted(b"SSH-2.0".to_vec()), &none).unwrap();
    assert!(matches!(action, SessionAction::GreetAndTunnel(b) if b == b"SSH-2.0"));
    let log = log.unwrap();
    assert_eq!(log.kind, LogKind::Attempt);
    assert_eq!(
        log.text,
        "Client silent; upstream 203.0.113.9:22 greeted first — forwarding by IP without recovery [client=anon]"
    );
    assert_eq!(s.state(), SessionState::Tunneling);
}

#[test]
fn peek_that_comes_to_nothing_closes() {
    let none = RegexSet::empty();
    for (event, ending) in [
        (SessionEvent::ClientClosed, Ending::Quiet),
        (SessionEvent::PeekFailed, Ending::Failed),
    ] {
        let (mut s, _) = start("203.0.113.9:22", None, false);
        let (action, log) = s.step(event, &none).unwrap();
        assert!(matches!(action, SessionAction::Close(e) if e == ending));
        assert!(log.is_none());
        assert_eq!(s.state(), SessionState::Closed);
    }
    let (mut s, _) = start("203.0.113.9:22", Some("u"), false);
    let (action, _) = s.step(SessionEvent::BudgetExpired(12), &none).unwrap();
    assert!(matches!(
        action,
        SessionAction::Fail(text) if text
            == "client sent no payload within the remaining 12s of the client-protocol budget ? recovery peek timeout [client=u]"
    ));
}

#[test]
fn expired_budget_sends_nothing() {
    let (s, action) =
        HttpSession::begin(request("203.0.113.9:443", None), false, true, true, 256);
    assert_eq!(s.state(), SessionState::Closed);
    assert!(matches!(action, SessionAction::Fail(text) if text.contains("remaining 0s")));
    assert_eq!(
        handshake_timeout(3),
        "client HTTP CONNECT timed out with only 3s left of the client-protocol budget"
    );
}

#[test]
fn recovery_can_be_switched_off() {
    let (s, action) =
        HttpSession::begin(request("203.0.113.9:443", None), false, false, true, 256);
    assert_eq!(s.state(), SessionState::Dialing);
    assert!(matches!(action, SessionAction::DialPool(_)));
}

#[test]
fn events_that_cannot_happen_change_nothing() {
    let none = RegexSet::empty();
    let (mut s, _) = start("example.com:443", None, false);
    for event in [
        SessionEvent::DirectSlot(true),
        SessionEvent::BudgetExpired(1),
        SessionEvent::PeekFailed,
        SessionEvent::ClientClosed,
        SessionEvent::UpstreamGreeted(vec![1]),
        SessionEvent::ClientPayload(vec![1], None),
    ] {
        assert!(s.step(event, &none).is_none());
        assert_eq!(s.state(), SessionState::Dialing);
        assert_eq!(s.buffered(), b"early");
    }
}

#[test]
fn host_of_a_client_hello_goes_before_that_of_a_request() {
    let (sni, host) = (Some("tls.test".to_string()), Some("http.test".to_string()));
    assert_eq!(recovered_host(sni.clone(), host.clone()), sni);
    assert_eq!(recovered_host(sni.clone(), None), sni);
    assert_eq!(recovered_host(None, host.clone()), host);
    assert_eq!(recovered_host(None, None), None);
}
