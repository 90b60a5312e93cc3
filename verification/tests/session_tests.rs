use siren_tunnel::error::{Endpoint, SessionError};
use siren_tunnel::resolver::parse_override;
use siren_tunnel::session::{Action, Event, Session, SessionState};

fn ipv4_handshake(credential: &[u8], addr: [u8; 4], port: u16, payload: &[u8]) -> Vec<u8> {
    let mut b = Vec::new();
    b.extend_from_slice(credential);
    b.push(1);
    b.extend_from_slice(&addr);
    b.push((port >> 8) as u8);
    b.push((port & 0xff) as u8);
    b.extend_from_slice(payload);
    b
}

#[test]
fn session_reaches_relaying_without_override() {
    let mut s = Session::new(vec![0u8; 16], None);
    let m = ipv4_handshake(&[0u8; 16], [93, 184, 216, 34], 80, &[]);
    let a = s.on_event(Event::InboundMessage(m));
    match a {
        Action::Connect(t) => {
            assert_eq!(t.host, b"93.184.216.34".to_vec());
            assert_eq!(t.port, 80);
        },
        _ => panic!("expected a connect action"),
    }
    assert_eq!(s.state, SessionState::Authenticated);
    assert_eq!(s.connect_attempts, 1);
    let a = s.on_event(Event::ConnectSucceeded);
    assert!(matches!(a, Action::WriteOutbound(b) if b.is_empty()));
    assert_eq!(s.state, SessionState::Relaying);
    let t = s.effective_target.as_ref().unwrap();
    assert_eq!(t.host, b"93.184.216.34".to_vec());
    assert_eq!(t.port, 80);
}

#[test]
fn override_redirects_every_session() {
    let ov = parse_override(b"10.0.0.5:8443").unwrap();
    let mut s = Session::new(vec![0u8; 16], Some(ov));
    let m = ipv4_handshake(&[0u8; 16], [93, 184, 216, 34], 80, &[]);
    let a = s.on_event(Event::InboundMessage(m));
    match a {
        Action::Connect(t) => {
            assert_eq!(t.host, b"10.0.0.5".to_vec());
            assert_eq!(t.port, 8443);
        },
        _ => panic!("expected a connect action"),
    }
    s.on_event(Event::ConnectSucceeded);
    assert_eq!(s.state, SessionState::Relaying);
    let t = s.effective_target.as_ref().unwrap();
    assert_eq!(t.host, b"10.0.0.5".to_vec());
    assert_eq!(t.port, 8443);
}

#[test]
fn credential_mismatch_closes_without_connecting() {
    let mut s = Session::new(vec![1u8; 16], None);
    let m = ipv4_handshake(&[0u8; 16], [93, 184, 216, 34], 80, &[]);
    let a = s.on_event(Event::InboundMessage(m));
    assert!(matches!(a, Action::CloseInbound));
    assert_eq!(s.state, SessionState::Closed);
    assert_eq!(s.connect_attempts, 0);
    assert_eq!(s.bytes_in, 0);
    assert_eq!(s.bytes_out, 0);
    assert_eq!(s.last_error, Some(SessionError::Auth));
}

#[test]
fn malformed_handshake_closes_without_connecting() {
    let mut s = Session::new(vec![0u8; 16], None);
    let a = s.on_event(Event::InboundMessage(vec![0u8; 5]));
    assert!(matches!(a, Action::CloseInbound));
    assert_eq!(s.state, SessionState::Closed);
    assert_eq!(s.connect_attempts, 0);
    assert_eq!(s.last_error, Some(SessionError::Decode));
}

#[test]
fn handshake_payload_is_first_outbound_write() {
    let mut s = Session::new(vec![0u8; 16], None);
    let m = ipv4_handshake(&[0u8; 16], [10, 0, 0, 1], 9000, &[1, 2, 3]);
    s.on_event(Event::InboundMessage(m));
    let a = s.on_event(Event::ConnectSucceeded);
    assert!(matches!(a, Action::WriteOutbound(b) if b == vec![1, 2, 3]));
    let a = s.on_event(Event::InboundMessage(vec![4, 5]));
    assert!(matches!(a, Action::WriteOutbound(b) if b == vec![4, 5]));
    assert_eq!(s.bytes_in, 5);
}

#[test]
fn inbound_data_before_connect_is_queued_in_order() {
    let mut s = Session::new(vec![0u8; 16], None);
    let m = ipv4_handshake(&[0u8; 16], [10, 0, 0, 1], 9000, &[1]);
    s.on_event(Event::InboundMessage(m));
    let a = s.on_event(Event::InboundMessage(vec![2, 3]));
    assert!(matches!(a, Action::Wait));
    let a = s.on_event(Event::ConnectSucceeded);
    assert!(matches!(a, Action::WriteOutbound(b) if b == vec![1, 2, 3]));
}

#[test]
fn connect_failure_closes_inbound() {
    let mut s = Session::new(vec![0u8; 16], None);
    let m = ipv4_handshake(&[0u8; 16], [10, 0, 0, 1], 9000, &[]);
    s.on_event(Event::InboundMessage(m));
    let a = s.on_event(Event::ConnectFailed);
    assert!(matches!(a, Action::CloseInbound));
    assert_eq!(s.state, SessionState::Closed);
    assert_eq!(s.last_error, Some(SessionError::UpstreamConnect));
}

fn relaying_session() -> Session {
    let mut s = Session::new(vec![0u8; 16], None);
    let m = ipv4_handshake(&[0u8; 16], [10, 0, 0, 1], 9000, &[]);
    s.on_event(Event::InboundMessage(m));
    s.on_event(Event::ConnectSucceeded);
    assert_eq!(s.state, SessionState::Relaying);
    s
}

#[test]
fn relay_copies_both_directions() {
    let mut s = relaying_session();
    let a = s.on_event(Event::InboundMessage(vec![1, 2]));
    assert!(matches!(a, Action::WriteOutbound(b) if b == vec![1, 2]));
    let a = s.on_event(Event::OutboundData(vec![3, 4, 5]));
    assert!(matches!(a, Action::SendInbound(b) if b == vec![3, 4, 5]));
    assert_eq!(s.bytes_in, 2);
    assert_eq!(s.bytes_out, 3);
}

#[test]
fn outbound_close_closes_inbound_at_once() {
    let mut s = relaying_session();
    let a = s.on_event(Event::OutboundClosed);
    assert!(matches!(a, Action::CloseInbound));
    assert_eq!(s.state, SessionState::Closing);
    // No further outbound writes, whatever still arrives.
    let a = s.on_event(Event::InboundMessage(vec![9]));
    assert!(matches!(a, Action::Wait));
    let a = s.on_event(Event::InboundClosed);
    assert!(matches!(a, Action::Wait));
    assert_eq!(s.state, SessionState::Closed);
}

#[test]
fn inbound_close_closes_outbound() {
    let mut s = relaying_session();
    let a = s.on_event(Event::InboundClosed);
    assert!(matches!(a, Action::CloseOutbound));
    assert_eq!(s.state, SessionState::Closing);
}

#[test]
fn relay_errors_are_tagged_with_their_endpoint() {
    let mut s = relaying_session();
    s.on_event(Event::OutboundFailed);
    assert_eq!(s.last_error, Some(SessionError::RelayIo(Endpoint::Outbound)));
    let mut s = relaying_session();
    s.on_event(Event::InboundFailed);
    assert_eq!(s.last_error, Some(SessionError::RelayIo(Endpoint::Inbound)));
}

#[test]
fn closed_session_ignores_everything() {
    let mut s = relaying_session();
    s.on_event(Event::OutboundClosed);
    s.on_event(Event::InboundClosed);
    assert_eq!(s.state, SessionState::Closed);
    let a = s.on_event(Event::InboundMessage(vec![1]));
    assert!(matches!(a, Action::Wait));
    let a = s.on_event(Event::OutboundData(vec![1]));
    assert!(matches!(a, Action::Wait));
    assert_eq!(s.state, SessionState::Closed);
}

#[test]
fn late_connect_during_teardown_is_released() {
    let mut s = Session::new(vec![0u8; 16], None);
    let m = ipv4_handshake(&[0u8; 16], [10, 0, 0, 1], 9000, &[]);
    s.on_event(Event::InboundMessage(m));
    // The client goes away while the connect is still in flight.
    let a = s.on_event(Event::InboundClosed);
    assert!(matches!(a, Action::Wait));
    assert_eq!(s.state, SessionState::Closing);
    // The connect lands afterwards: the fresh stream is closed at once.
    let a = s.on_event(Event::ConnectSucceeded);
    assert!(matches!(a, Action::CloseOutbound));
    assert_eq!(s.state, SessionState::Closed);
}
