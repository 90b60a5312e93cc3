use siren_tunnel::codec::{decode_header, encode_header, Address, HandshakeHeader, MIN_HEADER_LEN};
use siren_tunnel::error::SessionError;

fn header_bytes(credential: &[u8], addr_type: u8, addr: &[u8], port: u16, payload: &[u8]) -> Vec<u8> {
    let mut b = Vec::new();
    b.extend_from_slice(credential);
    b.push(addr_type);
    if addr_type == 2 {
        b.push(addr.len() as u8);
    }
    b.extend_from_slice(addr);
    b.push((port >> 8) as u8);
    b.push((port & 0xff) as u8);
    b.extend_from_slice(payload);
    b
}

#[test]
fn decode_ipv4_header() {
    let b = header_bytes(&[0u8; 16], 1, &[93, 184, 216, 34], 80, &[]);
    let (h, payload) = decode_header(&b).unwrap();
    assert_eq!(h.credential, vec![0u8; 16]);
    match h.address {
        Address::Ipv4(a) => assert_eq!(a, vec![93, 184, 216, 34]),
        _ => panic!("wrong address kind"),
    }
    assert_eq!(h.port, 80);
    assert!(payload.is_empty());
}

#[test]
fn decode_keeps_payload() {
    let b = header_bytes(&[7u8; 16], 1, &[10, 0, 0, 5], 8443, &[9, 8, 7]);
    let (h, payload) = decode_header(&b).unwrap();
    assert_eq!(h.port, 8443);
    assert_eq!(payload, vec![9, 8, 7]);
}

#[test]
fn decode_domain_header() {
    let b = header_bytes(&[1u8; 16], 2, b"example.com", 443, &[5]);
    let (h, payload) = decode_header(&b).unwrap();
    match h.address {
        Address::Domain(d) => assert_eq!(d, b"example.com".to_vec()),
        _ => panic!("wrong address kind"),
    }
    assert_eq!(h.port, 443);
    assert_eq!(payload, vec![5]);
}

#[test]
fn decode_ipv6_header() {
    let addr = [
        0x20u8, 0x01, 0x0d, 0xb8, 0, 0, 0, 0, 0, 0, 0, 0, 0, 0, 0, 0x01,
    ];
    let b = header_bytes(&[2u8; 16], 3, &addr, 53, &[]);
    let (h, _) = decode_header(&b).unwrap();
    match h.address {
        Address::Ipv6(a) => assert_eq!(a, addr.to_vec()),
        _ => panic!("wrong address kind"),
    }
    assert_eq!(h.port, 53);
}

#[test]
fn every_short_input_fails() {
    // No byte sequence shorter than the minimum header length decodes.
    let long = header_bytes(&[0u8; 16], 1, &[1, 2, 3, 4], 80, &[]);
    for n in 0..MIN_HEADER_LEN {
        let r = decode_header(&long[..n]);
        assert!(matches!(r, Err(SessionError::Decode)));
    }
}

#[test]
fn unknown_addr_type_fails() {
    for t in [0u8, 4, 5, 255] {
        let b = header_bytes(&[0u8; 16], t, &[1, 2, 3, 4], 80, &[]);
        assert!(matches!(decode_header(&b), Err(SessionError::Decode)));
    }
}

#[test]
fn truncated_domain_fails() {
    let mut b = Vec::new();
    b.extend_from_slice(&[0u8; 16]);
    b.push(2);
    b.push(40);  // declares 40 domain bytes ...
    b.extend_from_slice(b"short");  // ... but delivers 5 and no port
    assert!(matches!(decode_header(&b), Err(SessionError::Decode)));
}

#[test]
fn domain_roundtrip() {
    let h = HandshakeHeader {
        credential: vec![3u8; 16],
        address: Address::Domain(b"relay.example".to_vec()),
        port: 65535,
    };
    let wire = encode_header(&h);
    let (h2, payload) = decode_header(&wire).unwrap();
    assert_eq!(h2.credential, vec![3u8; 16]);
    match h2.address {
        Address::Domain(d) => assert_eq!(d, b"relay.example".to_vec()),
        _ => panic!("wrong address kind"),
    }
    assert_eq!(h2.port, 65535);
    assert!(payload.is_empty());
}

#[test]
fn encode_ipv4_exact() {
    let h = HandshakeHeader {
        credential: vec![0u8; 16],
        address: Address::Ipv4(vec![93, 184, 216, 34]),
        port: 80,
    };
    let mut expected = vec![0u8; 16];
    expected.extend_from_slice(&[1, 93, 184, 216, 34, 0, 80]);
    assert_eq!(encode_header(&h), expected);
}
