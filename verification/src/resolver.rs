//! The upstream resolver: validation of the deployment-configured override
//! address and the choice of the address a session actually dials.
//!
//! An override must match the shape `<non-empty-host>:<port>` with a decimal
//! port between 1 and 65535; an override that fails the shape rule is a
//! configuration error surfaced at bind time, never a silent fallback to the
//! client-requested target.  Absent an override, the effective target is the
//! client-requested one, with IPv4 and IPv6 addresses rendered into the text
//! form a dialer takes.

use vstd::prelude::*;

use crate::codec::{copy_range, AddrModel, Address, HandshakeHeader};
use crate::error::SessionError;

verus! {

/// Mathematical model of a dialable target: host bytes and a port number.
#[verifier::ext_equal]
pub struct TargetModel {
    pub host: Seq<u8>,
    pub port: int,
}

/// The address a session dials: a textual host (domain name or IP literal,
/// as bytes) and a port.
pub struct DialTarget {
    pub host: Vec<u8>,
    pub port: u16,
}

impl View for DialTarget {
    type V = TargetModel;

    open spec fn view(&self) -> TargetModel {
        TargetModel { host: self.host@, port: self.port as int }
    }
}

/// A deployment-configured upstream address used in place of every
/// client-requested target.  Validity invariant: non-empty host, port at
/// least 1 (a `u16` bounds it above).
pub struct OverrideAddress {
    pub host: Vec<u8>,
    pub port: u16,
}

impl View for OverrideAddress {
    type V = TargetModel;

    open spec fn view(&self) -> TargetModel {
        TargetModel { host: self.host@, port: self.port as int }
    }
}

impl OverrideAddress {
    pub open spec fn wf(self) -> bool {
        self.host@.len() > 0 && self.port >= 1
    }
}

/// An ASCII decimal digit.
pub open spec fn is_digit(c: u8) -> bool {
    48 <= c <= 57
}

/// Whether every byte of `s` is an ASCII decimal digit.
pub open spec fn all_digits(s: Seq<u8>) -> bool {
    forall|i: int| 0 <= i < s.len() ==> is_digit(#[trigger] s[i])
}

/// The numeric value of a sequence of decimal digit bytes.
pub open spec fn dec_value(s: Seq<u8>) -> int
    decreases s.len(),
{
    if s.len() == 0 {
        0
    } else {
        dec_value(s.drop_last()) * 10 + (s.last() - 48)
    }
}

/// `s` is a valid override string whose (first and only) separating colon
/// stands at index `i`: a non-empty host with no colon of its own, then `:`,
/// then a non-empty run of digits whose value lies in `1..=65535`.
pub open spec fn valid_override_at(s: Seq<u8>, i: int) -> bool {
    &&& 1 <= i < s.len() - 1
    &&& s[i] == ':' as u8
    &&& forall|j: int| 0 <= j < i ==> s[j] != ':' as u8
    &&& all_digits(s.subrange(i + 1, s.len() as int))
    &&& 1 <= dec_value(s.subrange(i + 1, s.len() as int)) <= 65535
}

/// `s` matches the `<non-empty-host>:<1-65535>` shape rule.
pub open spec fn valid_override(s: Seq<u8>) -> bool {
    exists|i: int| valid_override_at(s, i)
}

proof fn lemma_dec_value_nonneg(s: Seq<u8>)
    requires
        all_digits(s),
    ensures
        dec_value(s) >= 0,
    decreases s.len(),
{
    if s.len() > 0 {
        assert(all_digits(s.drop_last()));
        lemma_dec_value_nonneg(s.drop_last());
    }
}

/// The value of a digit string never shrinks as more digits are appended:
/// any prefix values at most the whole.
proof fn lemma_dec_value_prefix_le(s: Seq<u8>, j: int)
    requires
        all_digits(s),
        0 <= j <= s.len(),
    ensures
        dec_value(s.subrange(0, j)) <= dec_value(s),
    decreases s.len() - j,
{
    if j == s.len() {
        assert(s.subrange(0, j) =~= s);
    } else {
        assert(s.subrange(0, j + 1).drop_last() =~= s.subrange(0, j));
        assert(all_digits(s.subrange(0, j)));
        lemma_dec_value_nonneg(s.subrange(0, j));
        assert(dec_value(s.subrange(0, j + 1)) == dec_value(s.subrange(0, j)) * 10 + (s[j]
            - 48));
        lemma_dec_value_prefix_le(s, j + 1);
    }
}

/// A valid override has exactly one candidate split point: the first colon.
proof fn lemma_valid_at_is_first_colon(s: Seq<u8>, i: int, k: int)
    requires
        0 <= i < s.len(),
        s[i] == ':' as u8,
        forall|j: int| 0 <= j < i ==> s[j] != ':' as u8,
        valid_override_at(s, k),
    ensures
        k == i,
{
    if k < i {
        assert(s[k] == ':' as u8);
        assert(false);
    } else if k > i {
        assert(s[i] != ':' as u8);
        assert(false);
    }
}

/// Validates a configured override string against the `host:port` shape rule
/// and splits it.  Returns the override exactly when the string is valid; a
/// failure is a `Config` error — the bind-time kind, distinct from every
/// session-time failure.
pub fn parse_override(s: &[u8]) -> (r: Result<OverrideAddress, SessionError>)
    ensures
        match r {
            Ok(o) => {
                &&& valid_override(s@)
                &&& o.wf()
                &&& valid_override_at(s@, o.host@.len() as int)
                &&& o.host@ == s@.subrange(0, o.host@.len() as int)
                &&& o.port as int == dec_value(
                    s@.subrange(o.host@.len() as int + 1, s@.len() as int),
                )
            },
            Err(e) => !valid_override(s@) && e == SessionError::Config,
        },
{
    let n = s.len();
    let mut i: usize = 0;
    while i < n && s[i] != 58
        invariant
            i <= n == s@.len(),
            forall|j: int| 0 <= j < i ==> s@[j] != ':' as u8,
        decreases n - i,
    {
        i = i + 1;
    }
    if i >= n {
        // No colon anywhere: no split point can satisfy the shape rule.
        proof {
            if valid_override(s@) {
                let k = choose|k: int| valid_override_at(s@, k);
                assert(s@[k] == ':' as u8);
                assert(false);
            }
        }
        return Err(SessionError::Config);
    }
    if i == 0 {
        // The colon is the first byte, so the host part is empty.
        proof {
            if valid_override(s@) {
                let k = choose|k: int| valid_override_at(s@, k);
                lemma_valid_at_is_first_colon(s@, 0, k);
            }
        }
        return Err(SessionError::Config);
    }
    if i + 1 >= n {
        // Nothing after the colon: the port part is empty.
        proof {
            if valid_override(s@) {
                let k = choose|k: int| valid_override_at(s@, k);
                lemma_valid_at_is_first_colon(s@, i as int, k);
            }
        }
        return Err(SessionError::Config);
    }
    let ghost port_part = s@.subrange(i + 1, n as int);
    let mut v: u32 = 0;
    let mut j: usize = i + 1;
    while j < n
        invariant
            1 <= i < i + 1 <= j <= n == s@.len(),
            s@[i as int] == ':' as u8,
            forall|k: int| 0 <= k < i ==> s@[k] != ':' as u8,
            port_part == s@.subrange(i + 1, n as int),
            all_digits(s@.subrange(i + 1, j as int)),
            v as int == dec_value(s@.subrange(i + 1, j as int)),
            v <= 65535,
        decreases n - j,
    {
        let c = s[j];
        if c < 48 || c > 57 {
            // A non-digit in the port part.
            proof {
                if valid_override(s@) {
                    let k = choose|k: int| valid_override_at(s@, k);
                    lemma_valid_at_is_first_colon(s@, i as int, k);
                    assert(is_digit(port_part[j - (i + 1)]));
                    assert(false);
                }
            }
            return Err(SessionError::Config);
        }
        let d = (c - 48) as u32;
        if v > 6553 || (v == 6553 && d > 5) {
            // The digits read so far already exceed 65535; appending more
            // digits can only grow the value.
            proof {
                assert(s@.subrange(i + 1, j + 1).drop_last() =~= s@.subrange(i + 1, j as int));
                assert(dec_value(s@.subrange(i + 1, j + 1)) > 65535);
                if valid_override(s@) {
                    let k = choose|k: int| valid_override_at(s@, k);
                    lemma_valid_at_is_first_colon(s@, i as int, k);
                    assert(port_part.subrange(0, j + 1 - (i + 1)) =~= s@.subrange(i + 1, j + 1));
                    lemma_dec_value_prefix_le(port_part, j + 1 - (i + 1));
                    assert(false);
                }
            }
            return Err(SessionError::Config);
        }
        proof {
            assert(s@.subrange(i + 1, j + 1).drop_last() =~= s@.subrange(i + 1, j as int));
        }
        v = v * 10 + d;
        j = j + 1;
    }
    proof {
        assert(s@.subrange(i + 1, j as int) =~= port_part);
    }
    if v == 0 {
        // All digits, but the value is zero and ports start at 1.
        proof {
            if valid_override(s@) {
                let k = choose|k: int| valid_override_at(s@, k);
                lemma_valid_at_is_first_colon(s@, i as int, k);
                assert(false);
            }
        }
        return Err(SessionError::Config);
    }
    let host = copy_range(s, 0, i);
    let o = OverrideAddress { host, port: v as u16 };
    proof {
        assert(valid_override_at(s@, i as int));
    }
    Ok(o)
}

/// A single decimal digit rendered as its ASCII byte; two-or-more-digit
/// numbers are rendered most-significant first with no leading zeros.
pub open spec fn spec_dec_str(n: int) -> Seq<u8>
    recommends
        n >= 0,
    decreases n,
{
    if n < 10 {
        seq![(48 + n) as u8]
    } else {
        spec_dec_str(n / 10) + seq![(48 + n % 10) as u8]
    }
}

/// The dotted-decimal text form of a 4-byte IPv4 address.
pub open spec fn spec_ipv4_host(s: Seq<u8>) -> Seq<u8>
    recommends
        s.len() == 4,
{
    spec_dec_str(s[0] as int) + seq!['.' as u8] + spec_dec_str(s[1] as int) + seq!['.' as u8]
        + spec_dec_str(s[2] as int) + seq!['.' as u8] + spec_dec_str(s[3] as int)
}

/// One hexadecimal digit, lower case.
pub open spec fn spec_hex_digit(n: int) -> u8
    recommends
        0 <= n < 16,
{
    if n < 10 {
        (48 + n) as u8
    } else {
        (87 + n) as u8
    }
}

/// One 16-bit group of an IPv6 address as four hex digits, leading zeros
/// kept.
pub open spec fn spec_hex_group(hi: u8, lo: u8) -> Seq<u8> {
    seq![
        spec_hex_digit(hi as int / 16),
        spec_hex_digit(hi as int % 16),
        spec_hex_digit(lo as int / 16),
        spec_hex_digit(lo as int % 16),
    ]
}

/// The full (uncompressed) text form of a 16-byte IPv6 address: eight
/// four-digit groups joined by colons.
pub open spec fn spec_ipv6_host(s: Seq<u8>) -> Seq<u8>
    recommends
        s.len() == 16,
{
    spec_hex_group(s[0], s[1]) + seq![':' as u8] + spec_hex_group(s[2], s[3]) + seq![':' as u8]
        + spec_hex_group(s[4], s[5]) + seq![':' as u8] + spec_hex_group(s[6], s[7])
        + seq![':' as u8] + spec_hex_group(s[8], s[9]) + seq![':' as u8] + spec_hex_group(
        s[10],
        s[11],
    ) + seq![':' as u8] + spec_hex_group(s[12], s[13]) + seq![':' as u8] + spec_hex_group(
        s[14],
        s[15],
    )
}

/// The textual host a dialer is handed for a requested address: IP literals
/// are rendered, a domain name is taken as it stands.
pub open spec fn spec_host_bytes(a: AddrModel) -> Seq<u8> {
    match a {
        AddrModel::Ipv4(s) => spec_ipv4_host(s),
        AddrModel::Domain(s) => s,
        AddrModel::Ipv6(s) => spec_ipv6_host(s),
    }
}

/// The model of an optional configured override.
pub open spec fn spec_override_model(o: Option<OverrideAddress>) -> Option<TargetModel> {
    match o {
        Some(x) => Some(x@),
        None => None,
    }
}

/// What the resolver decides: the override when one is configured, the
/// client-requested target otherwise.  Deployment policy, never client
/// input, makes the choice.
pub open spec fn spec_resolve(
    requested: AddrModel,
    requested_port: int,
    ov: Option<TargetModel>,
) -> TargetModel {
    match ov {
        Some(t) => t,
        None => TargetModel { host: spec_host_bytes(requested), port: requested_port },
    }
}

/// Appends the decimal text of one byte.
fn push_dec_u8(out: &mut Vec<u8>, n: u8)
    ensures
        final(out)@ == old(out)@ + spec_dec_str(n as int),
{
    if n >= 100 {
        out.push(48 + n / 100);
        out.push(48 + (n / 10) % 10);
        out.push(48 + n % 10);
        proof {
            let m = n as int;
            assert(m / 10 >= 10 && m / 10 / 10 < 10);
            assert(spec_dec_str(m) == spec_dec_str(m / 10) + seq![(48 + m % 10) as u8]);
            assert(spec_dec_str(m / 10) == spec_dec_str(m / 10 / 10) + seq![
                (48 + (m / 10) % 10) as u8,
            ]);
            assert(spec_dec_str(m / 10 / 10) == seq![(48 + m / 10 / 10) as u8]);
            assert(m / 10 / 10 == m / 100);
            assert(final(out)@ =~= old(out)@ + spec_dec_str(n as int));
        }
    } else if n >= 10 {
        out.push(48 + n / 10);
        out.push(48 + n % 10);
        proof {
            let m = n as int;
            assert(m / 10 < 10);
            assert(spec_dec_str(m) == spec_dec_str(m / 10) + seq![(48 + m % 10) as u8]);
            assert(spec_dec_str(m / 10) == seq![(48 + m / 10) as u8]);
            assert(final(out)@ =~= old(out)@ + spec_dec_str(n as int));
        }
    } else {
        out.push(48 + n);
        proof {
            assert(final(out)@ =~= old(out)@ + spec_dec_str(n as int));
        }
    }
}

/// One lower-case hex digit of a value below 16.
fn hex_digit(n: u8) -> (r: u8)
    requires
        n < 16,
    ensures
        r == spec_hex_digit(n as int),
{
    if n < 10 {
        48 + n
    } else {
        87 + n
    }
}

/// Appends one four-digit hex group of an IPv6 address.
fn push_hex_group(out: &mut Vec<u8>, hi: u8, lo: u8)
    ensures
        final(out)@ == old(out)@ + spec_hex_group(hi, lo),
{
    out.push(hex_digit(hi / 16));
    out.push(hex_digit(hi % 16));
    out.push(hex_digit(lo / 16));
    out.push(hex_digit(lo % 16));
    proof {
        assert(final(out)@ =~= old(out)@ + spec_hex_group(hi, lo));
    }
}

/// Renders a 4-byte IPv4 address in dotted-decimal form.
pub fn format_ipv4(a: &[u8]) -> (r: Vec<u8>)
    requires
        a@.len() == 4,
    ensures
        r@ == spec_ipv4_host(a@),
{
    let mut out: Vec<u8> = Vec::new();
    push_dec_u8(&mut out, a[0]);
    out.push(46);
    push_dec_u8(&mut out, a[1]);
    out.push(46);
    push_dec_u8(&mut out, a[2]);
    out.push(46);
    push_dec_u8(&mut out, a[3]);
    proof {
        assert(out@ =~= spec_ipv4_host(a@));
    }
    out
}

/// Renders a 16-byte IPv6 address as eight colon-separated hex groups.
pub fn format_ipv6(a: &[u8]) -> (r: Vec<u8>)
    requires
        a@.len() == 16,
    ensures
        r@ == spec_ipv6_host(a@),
{
    let mut out: Vec<u8> = Vec::new();
    push_hex_group(&mut out, a[0], a[1]);
    out.push(58);
    push_hex_group(&mut out, a[2], a[3]);
    out.push(58);
    push_hex_group(&mut out, a[4], a[5]);
    out.push(58);
    push_hex_group(&mut out, a[6], a[7]);
    out.push(58);
    push_hex_group(&mut out, a[8], a[9]);
    out.push(58);
    push_hex_group(&mut out, a[10], a[11]);
    out.push(58);
    push_hex_group(&mut out, a[12], a[13]);
    out.push(58);
    push_hex_group(&mut out, a[14], a[15]);
    proof {
        assert(out@ =~= spec_ipv6_host(a@));
    }
    out
}

/// A fresh dial target holding the same host bytes and port.
pub fn copy_target(t: &DialTarget) -> (r: DialTarget)
    ensures
        r@ == t@,
{
    let host = copy_range(t.host.as_slice(), 0, t.host.len());
    proof {
        assert(host@ =~= t.host@);
    }
    DialTarget { host, port: t.port }
}

/// Computes the effective target of a session: the configured override when
/// one is present, otherwise the client-requested address rendered for the
/// dialer.
pub fn resolve_target(header: &HandshakeHeader, ov: &Option<OverrideAddress>) -> (t: DialTarget)
    requires
        header.wf(),
    ensures
        t@ == spec_resolve(header@.address, header@.port, spec_override_model(*ov)),
{
    match ov {
        Some(o) => {
            let host = copy_range(o.host.as_slice(), 0, o.host.len());
            proof {
                assert(host@ =~= o.host@);
            }
            DialTarget { host, port: o.port }
        },
        None => {
            let host = match &header.address {
                Address::Ipv4(s) => format_ipv4(s.as_slice()),
                Address::Domain(s) => copy_range(s.as_slice(), 0, s.len()),
                Address::Ipv6(s) => format_ipv6(s.as_slice()),
            };
            proof {
                assert(host@ =~= spec_host_bytes(header@.address));
            }
            DialTarget { host, port: header.port }
        },
    }
}

} // verus!
