//! Deployment-level configuration: the identity this endpoint answers to,
//! the host it is reached under, the static relay target, and the page URLs
//! of the routing surface.  Read once at bind time, never mutated by a
//! session.

use vstd::prelude::*;

use crate::codec::CREDENTIAL_LEN;

verus! {

/// The per-deployment configuration injected into every session.
pub struct Config {
    /// The 16-byte credential token every handshake is compared against.
    pub uuid: Vec<u8>,
    /// The host name this endpoint is reached under.
    pub host: String,
    /// Host part of the static relay target.
    pub proxy_addr: String,
    /// Port part of the static relay target.
    pub proxy_port: u16,
    pub main_page_url: String,
    pub sub_page_url: String,
}

impl Config {
    pub open spec fn wf(self) -> bool {
        self.uuid@.len() == CREDENTIAL_LEN
    }

    /// The built-in manual configuration: a nil (all-zero) credential and the
    /// static relay target.  The credential and host are expected to be
    /// overwritten by the caller from its environment.
    pub fn manual() -> (c: Config)
        ensures
            c.wf(),
            c.uuid@.len() == CREDENTIAL_LEN,
            forall|i: int| 0 <= i < c.uuid@.len() ==> c.uuid@[i] == 0u8,
            c.host@ == Seq::<char>::empty(),
            c.proxy_addr@ == "172.232.231.191"@,
            c.proxy_port == 444,
            c.main_page_url@ == "/vmess"@,
            c.sub_page_url@ == Seq::<char>::empty(),
    {
        Config {
            uuid: vec![0u8; CREDENTIAL_LEN],
            host: String::new(),
            proxy_addr: "172.232.231.191".to_owned(),
            proxy_port: 444,
            main_page_url: "/vmess".to_owned(),
            sub_page_url: String::new(),
        }
    }
}

} // verus!
