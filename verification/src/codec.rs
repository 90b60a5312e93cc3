//! The handshake codec: a pure parser (and serializer) for the first inbound
//! message of a session.
//!
//! Wire layout of a handshake, bit-exact:
//! `[credential: 16 bytes][addr_type: 1 byte][address: per addr_type][port: 2
//! bytes big-endian][payload: rest of the message]`, where `addr_type` selects
//! among IPv4 (4 address bytes), domain (1 length byte + that many bytes) and
//! IPv6 (16 address bytes).  A header is either fully decodable from the given
//! bytes or decoding fails outright: a length that would read past the buffer
//! is a failure, never a wait for more bytes.

use vstd::prelude::*;

use crate::error::SessionError;

verus! {

/// Width of the fixed credential field at the start of every handshake.
pub const CREDENTIAL_LEN: usize = 16;

/// The shortest possible valid handshake: credential, address-type byte, a
/// zero-length domain (one length byte) and the two port bytes.
pub const MIN_HEADER_LEN: usize = 20;

/// Address-type tag for a 4-byte IPv4 address.
pub const ADDR_TYPE_IPV4: u8 = 1;

/// Address-type tag for a length-prefixed domain name.
pub const ADDR_TYPE_DOMAIN: u8 = 2;

/// Address-type tag for a 16-byte IPv6 address.
pub const ADDR_TYPE_IPV6: u8 = 3;

/// Mathematical model of a requested destination address.
#[verifier::ext_equal]
pub enum AddrModel {
    Ipv4(Seq<u8>),
    Domain(Seq<u8>),
    Ipv6(Seq<u8>),
}

impl AddrModel {
    /// Each address kind carries exactly the bytes its wire form allows.
    pub open spec fn wf(self) -> bool {
        match self {
            AddrModel::Ipv4(s) => s.len() == 4,
            AddrModel::Domain(s) => s.len() <= 255,
            AddrModel::Ipv6(s) => s.len() == 16,
        }
    }
}

/// Mathematical model of a decoded handshake header.
#[verifier::ext_equal]
pub struct HeaderModel {
    pub credential: Seq<u8>,
    pub address: AddrModel,
    pub port: int,
}

impl HeaderModel {
    pub open spec fn wf(self) -> bool {
        &&& self.credential.len() == CREDENTIAL_LEN
        &&& self.address.wf()
        &&& 0 <= self.port < 0x10000
    }
}

/// A requested destination address as declared by the client.
pub enum Address {
    /// A 4-byte IPv4 address.
    Ipv4(Vec<u8>),
    /// A domain name of at most 255 bytes.
    Domain(Vec<u8>),
    /// A 16-byte IPv6 address.
    Ipv6(Vec<u8>),
}

impl View for Address {
    type V = AddrModel;

    open spec fn view(&self) -> AddrModel {
        match self {
            Address::Ipv4(v) => AddrModel::Ipv4(v@),
            Address::Domain(v) => AddrModel::Domain(v@),
            Address::Ipv6(v) => AddrModel::Ipv6(v@),
        }
    }
}

/// The transient result of decoding one handshake: who the client claims to
/// be and where it asks to go.
pub struct HandshakeHeader {
    /// The fixed-size opaque identity token.
    pub credential: Vec<u8>,
    /// The requested destination host.
    pub address: Address,
    /// The requested destination port.
    pub port: u16,
}

impl View for HandshakeHeader {
    type V = HeaderModel;

    open spec fn view(&self) -> HeaderModel {
        HeaderModel {
            credential: self.credential@,
            address: self.address@,
            port: self.port as int,
        }
    }
}

impl HandshakeHeader {
    pub open spec fn wf(self) -> bool {
        self@.wf()
    }
}

/// The value of a 2-byte big-endian port field.
pub open spec fn be16(hi: u8, lo: u8) -> int {
    (hi as int) * 256 + (lo as int)
}

/// What decoding a handshake message means: either the header together with
/// the leftover payload bytes, or nothing.  This is the single source of
/// truth the executable decoder and encoder are verified against.
pub open spec fn spec_decode(b: Seq<u8>) -> Option<(HeaderModel, Seq<u8>)> {
    if b.len() < CREDENTIAL_LEN + 1 {
        None
    } else {
        let credential = b.subrange(0, CREDENTIAL_LEN as int);
        let tag = b[CREDENTIAL_LEN as int];
        if tag == ADDR_TYPE_IPV4 {
            if b.len() >= 23 {
                Some(
                    (
                        HeaderModel {
                            credential,
                            address: AddrModel::Ipv4(b.subrange(17, 21)),
                            port: be16(b[21], b[22]),
                        },
                        b.subrange(23, b.len() as int),
                    ),
                )
            } else {
                None
            }
        } else if tag == ADDR_TYPE_DOMAIN {
            if b.len() < 18 {
                None
            } else {
                let dlen = b[17] as int;
                if b.len() >= 20 + dlen {
                    Some(
                        (
                            HeaderModel {
                                credential,
                                address: AddrModel::Domain(b.subrange(18, 18 + dlen)),
                                port: be16(b[18 + dlen], b[19 + dlen]),
                            },
                            b.subrange(20 + dlen, b.len() as int),
                        ),
                    )
                } else {
                    None
                }
            }
        } else if tag == ADDR_TYPE_IPV6 {
            if b.len() >= 35 {
                Some(
                    (
                        HeaderModel {
                            credential,
                            address: AddrModel::Ipv6(b.subrange(17, 33)),
                            port: be16(b[33], b[34]),
                        },
                        b.subrange(35, b.len() as int),
                    ),
                )
            } else {
                None
            }
        } else {
            None
        }
    }
}

/// Copies `b[start..end]` into a fresh vector.
pub(crate) fn copy_range(b: &[u8], start: usize, end: usize) -> (r: Vec<u8>)
    requires
        start <= end <= b@.len(),
    ensures
        r@ == b@.subrange(start as int, end as int),
{
    let mut r: Vec<u8> = Vec::new();
    let mut i: usize = start;
    while i < end
        invariant
            start <= i <= end <= b@.len(),
            r@ == b@.subrange(start as int, i as int),
        decreases end - i,
    {
        r.push(b[i]);
        proof {
            assert(b@.subrange(start as int, i + 1) =~= b@.subrange(start as int, i as int)
                + seq![b@[i as int]]);
        }
        i = i + 1;
    }
    r
}

/// Decodes the first inbound message of a session into a header and the
/// leftover payload bytes.  Succeeds exactly on the inputs `spec_decode`
/// accepts; in particular every input shorter than `MIN_HEADER_LEN` fails,
/// and no prefix of a failing input is ever consumed as a header.
pub fn decode_header(b: &[u8]) -> (r: Result<(HandshakeHeader, Vec<u8>), SessionError>)
    ensures
        match r {
            Ok(hp) => spec_decode(b@) == Some((hp.0@, hp.1@)) && hp.0.wf(),
            Err(e) => spec_decode(b@) is None && e == SessionError::Decode,
        },
        b@.len() < MIN_HEADER_LEN ==> r is Err,
{
    proof {
        if b@.len() < MIN_HEADER_LEN {
            lemma_short_input_rejected(b@);
        }
    }
    let n = b.len();
    if n < CREDENTIAL_LEN + 1 {
        return Err(SessionError::Decode);
    }
    let tag = b[CREDENTIAL_LEN];
    if tag == ADDR_TYPE_IPV4 {
        if n < 23 {
            return Err(SessionError::Decode);
        }
        let credential = copy_range(b, 0, CREDENTIAL_LEN);
        let address = copy_range(b, 17, 21);
        let port: u16 = (b[21] as u16) * 256 + (b[22] as u16);
        let payload = copy_range(b, 23, n);
        Ok((HandshakeHeader { credential, address: Address::Ipv4(address), port }, payload))
    } else if tag == ADDR_TYPE_DOMAIN {
        if n < 18 {
            return Err(SessionError::Decode);
        }
        let dlen = b[17] as usize;
        if n < 20 + dlen {
            return Err(SessionError::Decode);
        }
        let credential = copy_range(b, 0, CREDENTIAL_LEN);
        let address = copy_range(b, 18, 18 + dlen);
        let port: u16 = (b[18 + dlen] as u16) * 256 + (b[19 + dlen] as u16);
        let payload = copy_range(b, 20 + dlen, n);
        Ok((HandshakeHeader { credential, address: Address::Domain(address), port }, payload))
    } else if tag == ADDR_TYPE_IPV6 {
        if n < 35 {
            return Err(SessionError::Decode);
        }
        let credential = copy_range(b, 0, CREDENTIAL_LEN);
        let address = copy_range(b, 17, 33);
        let port: u16 = (b[33] as u16) * 256 + (b[34] as u16);
        let payload = copy_range(b, 35, n);
        Ok((HandshakeHeader { credential, address: Address::Ipv6(address), port }, payload))
    } else {
        Err(SessionError::Decode)
    }
}

/// The wire form of an address: its type tag, a length byte for domains, and
/// the address bytes themselves.
pub open spec fn spec_addr_encoding(a: AddrModel) -> Seq<u8> {
    match a {
        AddrModel::Ipv4(s) => seq![ADDR_TYPE_IPV4] + s,
        AddrModel::Domain(s) => seq![ADDR_TYPE_DOMAIN, s.len() as u8] + s,
        AddrModel::Ipv6(s) => seq![ADDR_TYPE_IPV6] + s,
    }
}

/// The wire form of a whole header (without payload).
pub open spec fn spec_encode(h: HeaderModel) -> Seq<u8> {
    h.credential + spec_addr_encoding(h.address) + seq![(h.port / 256) as u8, (h.port % 256) as u8]
}

/// Serializes a header back into its wire form.
pub fn encode_header(h: &HandshakeHeader) -> (r: Vec<u8>)
    requires
        h.wf(),
    ensures
        r@ == spec_encode(h@),
{
    let mut out: Vec<u8> = Vec::new();
    out.extend_from_slice(h.credential.as_slice());
    match &h.address {
        Address::Ipv4(a) => {
            out.push(ADDR_TYPE_IPV4);
            out.extend_from_slice(a.as_slice());
        },
        Address::Domain(d) => {
            out.push(ADDR_TYPE_DOMAIN);
            out.push(d.len() as u8);
            out.extend_from_slice(d.as_slice());
        },
        Address::Ipv6(a) => {
            out.push(ADDR_TYPE_IPV6);
            out.extend_from_slice(a.as_slice());
        },
    }
    out.push((h.port / 256) as u8);
    out.push((h.port % 256) as u8);
    proof {
        assert(out@ =~= spec_encode(h@));
    }
    out
}

/// Every input shorter than the absolute minimum header length fails to
/// decode: no byte sequence under `MIN_HEADER_LEN` bytes is ever accepted as
/// a header.
pub proof fn lemma_short_input_rejected(b: Seq<u8>)
    requires
        b.len() < MIN_HEADER_LEN,
    ensures
        spec_decode(b) is None,
{
}

/// Round-trip law: re-encoding a decoded header and decoding it again yields
/// the identical header, with any payload carried through unchanged.
pub proof fn lemma_encode_decode_roundtrip(h: HeaderModel, payload: Seq<u8>)
    requires
        h.wf(),
    ensures
        spec_decode(spec_encode(h) + payload) == Some((h, payload)),
{
    let b = spec_encode(h) + payload;
    assert(b.subrange(0, CREDENTIAL_LEN as int) =~= h.credential);
    match h.address {
        AddrModel::Ipv4(s) => {
            assert(b[16] == ADDR_TYPE_IPV4);
            assert(b.subrange(17, 21) =~= s);
            assert(b[21] == (h.port / 256) as u8);
            assert(b[22] == (h.port % 256) as u8);
            assert(be16((h.port / 256) as u8, (h.port % 256) as u8) == h.port);
            assert(b.subrange(23, b.len() as int) =~= payload);
            assert(spec_decode(b) =~~= Some((h, payload)));
        },
        AddrModel::Domain(s) => {
            let dlen = s.len() as int;
            assert(b[16] == ADDR_TYPE_DOMAIN);
            assert(b[17] == s.len() as u8);
            assert(b[17] as int == dlen);
            assert(b.subrange(18, 18 + dlen) =~= s);
            assert(b[18 + dlen] == (h.port / 256) as u8);
            assert(b[19 + dlen] == (h.port % 256) as u8);
            assert(be16((h.port / 256) as u8, (h.port % 256) as u8) == h.port);
            assert(b.subrange(20 + dlen, b.len() as int) =~= payload);
            assert(spec_decode(b) =~~= Some((h, payload)));
        },
        AddrModel::Ipv6(s) => {
            assert(b[16] == ADDR_TYPE_IPV6);
            assert(b.subrange(17, 33) =~= s);
            assert(b[33] == (h.port / 256) as u8);
            assert(b[34] == (h.port % 256) as u8);
            assert(be16((h.port / 256) as u8, (h.port % 256) as u8) == h.port);
            assert(b.subrange(35, b.len() as int) =~= payload);
            assert(spec_decode(b) =~~= Some((h, payload)));
        },
    }
}

} // verus!
