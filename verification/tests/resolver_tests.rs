use siren_tunnel::codec::{Address, HandshakeHeader};
use siren_tunnel::error::SessionError;
use siren_tunnel::gate::credentials_match;
use siren_tunnel::resolver::{format_ipv4, format_ipv6, parse_override, resolve_target};

#[test]
fn parse_override_accepts_host_port() {
    let o = parse_override(b"10.0.0.5:8443").unwrap();
    assert_eq!(o.host, b"10.0.0.5".to_vec());
    assert_eq!(o.port, 8443);
}

#[test]
fn parse_override_rejects_not_a_port() {
    assert!(matches!(parse_override(b"not-a-port"), Err(SessionError::Config)));
}

#[test]
fn parse_override_rejects_empty_host() {
    assert!(matches!(parse_override(b":443"), Err(SessionError::Config)));
}

#[test]
fn parse_override_rejects_empty_port() {
    assert!(matches!(parse_override(b"host:"), Err(SessionError::Config)));
}

#[test]
fn parse_override_rejects_port_zero() {
    assert!(matches!(parse_override(b"host:0"), Err(SessionError::Config)));
}

#[test]
fn parse_override_rejects_port_too_big() {
    assert!(matches!(parse_override(b"host:65536"), Err(SessionError::Config)));
    assert!(matches!(parse_override(b"host:99999999999999999999"), Err(SessionError::Config)));
}

#[test]
fn parse_override_rejects_non_digit_port() {
    assert!(matches!(parse_override(b"host:44x"), Err(SessionError::Config)));
}

#[test]
fn parse_override_accepts_edges() {
    assert_eq!(parse_override(b"h:1").unwrap().port, 1);
    assert_eq!(parse_override(b"h:65535").unwrap().port, 65535);
    // Leading zeros change nothing about the value.
    assert_eq!(parse_override(b"h:0443").unwrap().port, 443);
}

#[test]
fn parse_override_splits_at_first_colon() {
    // A second colon lands in the port part and makes the string invalid.
    assert!(matches!(parse_override(b"a:1:2"), Err(SessionError::Config)));
}

#[test]
fn ipv4_dotted_decimal() {
    assert_eq!(format_ipv4(&[93, 184, 216, 34]), b"93.184.216.34".to_vec());
    assert_eq!(format_ipv4(&[0, 0, 0, 0]), b"0.0.0.0".to_vec());
    assert_eq!(format_ipv4(&[255, 255, 255, 255]), b"255.255.255.255".to_vec());
}

#[test]
fn ipv6_full_hex_groups() {
    let a = [
        0x20u8, 0x01, 0x0d, 0xb8, 0, 0, 0, 0, 0, 0, 0, 0, 0, 0, 0, 0x01,
    ];
    assert_eq!(
        format_ipv6(&a),
        b"2001:0db8:0000:0000:0000:0000:0000:0001".to_vec()
    );
}

#[test]
fn resolver_prefers_override() {
    let h = HandshakeHeader {
        credential: vec![0u8; 16],
        address: Address::Ipv4(vec![93, 184, 216, 34]),
        port: 80,
    };
    let ov = Some(parse_override(b"10.0.0.5:8443").unwrap());
    let t = resolve_target(&h, &ov);
    assert_eq!(t.host, b"10.0.0.5".to_vec());
    assert_eq!(t.port, 8443);
}

#[test]
fn resolver_uses_requested_target_without_override() {
    let h = HandshakeHeader {
        credential: vec![0u8; 16],
        address: Address::Domain(b"example.com".to_vec()),
        port: 443,
    };
    let t = resolve_target(&h, &None);
    assert_eq!(t.host, b"example.com".to_vec());
    assert_eq!(t.port, 443);
}

#[test]
fn gate_accepts_equal_and_rejects_unequal() {
    assert!(credentials_match(&[0u8; 16], &[0u8; 16]));
    let mut other = [0u8; 16];
    other[15] = 1;
    assert!(!credentials_match(&[0u8; 16], &other));
    other[15] = 0;
    other[0] = 128;
    assert!(!credentials_match(&[0u8; 16], &other));
}
