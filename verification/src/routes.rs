//! The computational parts of the routing surface: client-configuration
//! links sharing one credential, the JSON list of known entry points, and
//! protocol-upgrade detection.  All of it is byte formatting with exact
//! contracts; the transport around it stays outside the library.

use vstd::prelude::*;

use vstd::string::StringSliceAdditionalSpecFns;

verus! {

/// What base64's URL-safe alphabet with padding encodes the given bytes to.
pub uninterp spec fn b64_url_of(b: Seq<u8>) -> Seq<u8>;

/// Relies on base64's `engine::general_purpose::URL_SAFE` through
/// `Engine::encode`: the encoding is a function of the input bytes alone,
/// and a padded encoding is four output bytes for every three input bytes
/// begun.
#[verifier::external_body]
fn b64_url(b: &[u8]) -> (r: Vec<u8>)
    ensures
        r@ == b64_url_of(b@),
        r@.len() == 4 * ((b@.len() + 2) / 3),
{
    base64::Engine::encode(&base64::engine::general_purpose::URL_SAFE, b).into_bytes()
}

/// Appends the bytes of a literal.
fn push_lit(out: &mut Vec<u8>, s: &str)
    ensures
        final(out)@ == old(out)@ + s.spec_bytes(),
{
    out.extend_from_slice(s.as_bytes());
}

/// The client-configuration JSON carried inside a vmess link, keys in
/// serialization order.
pub open spec fn vmess_json_of(uuid: Seq<u8>, host: Seq<u8>) -> Seq<u8> {
    ("{\"add\":\"").spec_bytes() + host + ("\",\"aid\":\"0\",\"alpn\":\"\",\"host\":\"").spec_bytes()
        + host + ("\",\"id\":\"").spec_bytes() + uuid + (
    "\",\"net\":\"ws\",\"path\":\"/KR\",\"port\":\"443\",\"ps\":\"siren\",\"sni\":\"\",\"tls\":\"\",\"type\":\"none\",\"v\":\"2\"}").spec_bytes()
}

/// A vmess link: the scheme and the base64 of the configuration JSON.
pub open spec fn vmess_link_of(uuid: Seq<u8>, host: Seq<u8>) -> Seq<u8> {
    ("vmess://").spec_bytes() + b64_url_of(vmess_json_of(uuid, host))
}

/// A vless link for the same endpoint.
pub open spec fn vless_link_of(uuid: Seq<u8>, host: Seq<u8>) -> Seq<u8> {
    ("vless://").spec_bytes() + uuid + ("@").spec_bytes() + host + (
    ":443?encryption=none&type=ws&host=").spec_bytes() + host + (
    "&path=%2FKR&security=tls&sni=").spec_bytes() + host + ("#siren vless").spec_bytes()
}

/// A trojan link for the same endpoint.
pub open spec fn trojan_link_of(uuid: Seq<u8>, host: Seq<u8>) -> Seq<u8> {
    ("trojan://").spec_bytes() + uuid + ("@").spec_bytes() + host + (
    ":443?security=tls&type=ws&host=").spec_bytes() + host + ("&path=%2FKR&sni=").spec_bytes()
        + host + ("#siren trojan").spec_bytes()
}

/// A shadowsocks link: the credential rides base64-encoded in the userinfo.
pub open spec fn ss_link_of(uuid: Seq<u8>, host: Seq<u8>) -> Seq<u8> {
    ("ss://").spec_bytes() + b64_url_of(("none:").spec_bytes() + uuid) + ("@").spec_bytes() + host
        + (":443?plugin=v2ray-plugin;mode=websocket;host=").spec_bytes() + host + (
    ";path=%2FKR#siren ss").spec_bytes()
}

/// The whole body of the link page: the four links, newline-separated.
pub open spec fn siren_links_of(uuid: Seq<u8>, host: Seq<u8>) -> Seq<u8> {
    vmess_link_of(uuid, host) + ("\n").spec_bytes() + vless_link_of(uuid, host) + (
    "\n").spec_bytes() + trojan_link_of(uuid, host) + ("\n").spec_bytes() + ss_link_of(uuid, host)
}

/// Builds the configuration JSON for the vmess link.
pub fn vmess_json(uuid: &[u8], host: &[u8]) -> (r: Vec<u8>)
    ensures
        r@ == vmess_json_of(uuid@, host@),
{
    let mut out: Vec<u8> = Vec::new();
    push_lit(&mut out, "{\"add\":\"");
    out.extend_from_slice(host);
    push_lit(&mut out, "\",\"aid\":\"0\",\"alpn\":\"\",\"host\":\"");
    out.extend_from_slice(host);
    push_lit(&mut out, "\",\"id\":\"");
    out.extend_from_slice(uuid);
    push_lit(
        &mut out,
        "\",\"net\":\"ws\",\"path\":\"/KR\",\"port\":\"443\",\"ps\":\"siren\",\"sni\":\"\",\"tls\":\"\",\"type\":\"none\",\"v\":\"2\"}",
    );
    proof {
        assert(out@ =~= vmess_json_of(uuid@, host@));
    }
    out
}

/// Builds the vmess link.
pub fn vmess_link(uuid: &[u8], host: &[u8]) -> (r: Vec<u8>)
    ensures
        r@ == vmess_link_of(uuid@, host@),
{
    let json = vmess_json(uuid, host);
    let encoded = b64_url(json.as_slice());
    let mut out: Vec<u8> = Vec::new();
    push_lit(&mut out, "vmess://");
    out.extend_from_slice(encoded.as_slice());
    proof {
        assert(out@ =~= vmess_link_of(uuid@, host@));
    }
    out
}

/// Builds the vless link.
pub fn vless_link(uuid: &[u8], host: &[u8]) -> (r: Vec<u8>)
    ensures
        r@ == vless_link_of(uuid@, host@),
{
    let mut out: Vec<u8> = Vec::new();
    push_lit(&mut out, "vless://");
    out.extend_from_slice(uuid);
    push_lit(&mut out, "@");
    out.extend_from_slice(host);
    push_lit(&mut out, ":443?encryption=none&type=ws&host=");
    out.extend_from_slice(host);
    push_lit(&mut out, "&path=%2FKR&security=tls&sni=");
    out.extend_from_slice(host);
    push_lit(&mut out, "#siren vless");
    proof {
        assert(out@ =~= vless_link_of(uuid@, host@));
    }
    out
}

/// Builds the trojan link.
pub fn trojan_link(uuid: &[u8], host: &[u8]) -> (r: Vec<u8>)
    ensures
        r@ == trojan_link_of(uuid@, host@),
{
    let mut out: Vec<u8> = Vec::new();
    push_lit(&mut out, "trojan://");
    out.extend_from_slice(uuid);
    push_lit(&mut out, "@");
    out.extend_from_slice(host);
    push_lit(&mut out, ":443?security=tls&type=ws&host=");
    out.extend_from_slice(host);
    push_lit(&mut out, "&path=%2FKR&sni=");
    out.extend_from_slice(host);
    push_lit(&mut out, "#siren trojan");
    proof {
        assert(out@ =~= trojan_link_of(uuid@, host@));
    }
    out
}

/// Builds the shadowsocks link.
pub fn ss_link(uuid: &[u8], host: &[u8]) -> (r: Vec<u8>)
    ensures
        r@ == ss_link_of(uuid@, host@),
{
    let mut userinfo: Vec<u8> = Vec::new();
    push_lit(&mut userinfo, "none:");
    userinfo.extend_from_slice(uuid);
    proof {
        assert(userinfo@ =~= ("none:").spec_bytes() + uuid@);
    }
    let encoded = b64_url(userinfo.as_slice());
    let mut out: Vec<u8> = Vec::new();
    push_lit(&mut out, "ss://");
    out.extend_from_slice(encoded.as_slice());
    push_lit(&mut out, "@");
    out.extend_from_slice(host);
    push_lit(&mut out, ":443?plugin=v2ray-plugin;mode=websocket;host=");
    out.extend_from_slice(host);
    push_lit(&mut out, ";path=%2FKR#siren ss");
    proof {
        assert(out@ =~= ss_link_of(uuid@, host@));
    }
    out
}

/// Builds the whole link page: all four links sharing the one credential,
/// newline-separated.
pub fn siren_links(uuid: &[u8], host: &[u8]) -> (r: Vec<u8>)
    ensures
        r@ == siren_links_of(uuid@, host@),
{
    let mut out = vmess_link(uuid, host);
    push_lit(&mut out, "\n");
    let mut part = vless_link(uuid, host);
    out.append(&mut part);
    push_lit(&mut out, "\n");
    let mut part = trojan_link(uuid, host);
    out.append(&mut part);
    push_lit(&mut out, "\n");
    let mut part = ss_link(uuid, host);
    out.append(&mut part);
    proof {
        assert(out@ =~= siren_links_of(uuid@, host@));
    }
    out
}

/// The entry points the JSON list endpoint reports.
pub fn vmess_entries() -> (r: Vec<Vec<u8>>)
    ensures
        r@.len() == 1,
        r@[0]@ == ("172.232.231.191:444").spec_bytes(),
{
    let mut entry: Vec<u8> = Vec::new();
    push_lit(&mut entry, "172.232.231.191:444");
    proof {
        assert(entry@ =~= ("172.232.231.191:444").spec_bytes());
    }
    let mut r: Vec<Vec<u8>> = Vec::new();
    r.push(entry);
    r
}

/// A byte mapped to its ASCII lower-case form.
pub open spec fn ascii_lower(c: u8) -> u8 {
    if 65 <= c <= 90 {
        (c + 32) as u8
    } else {
        c
    }
}

/// Whether a protocol-upgrade header value names the websocket protocol,
/// compared ASCII case-insensitively.
pub fn is_websocket_upgrade(h: &[u8]) -> (r: bool)
    ensures
        r == (h@.map_values(|c: u8| ascii_lower(c)) == ("websocket").spec_bytes()),
{
    let w = "websocket".as_bytes();
    let n = h.len();
    if n != w.len() {
        proof {
            assert(h@.map_values(|c: u8| ascii_lower(c)).len() == h@.len());
        }
        return false;
    }
    let mut i: usize = 0;
    while i < n
        invariant
            i <= n,
            n == h@.len() == w@.len(),
            w@ == ("websocket").spec_bytes(),
            forall|j: int| 0 <= j < i ==> ascii_lower(h@[j]) == w@[j],
        decreases n - i,
    {
        let c = h[i];
        let lc = if c >= 65 && c <= 90 {
            c + 32
        } else {
            c
        };
        if lc != w[i] {
            proof {
                assert(h@.map_values(|c: u8| ascii_lower(c))[i as int] == ascii_lower(
                    h@[i as int],
                ));
            }
            return false;
        }
        i = i + 1;
    }
    proof {
        assert(h@.map_values(|c: u8| ascii_lower(c)) =~= ("websocket").spec_bytes());
    }
    true
}

} // verus!
