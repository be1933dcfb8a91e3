//! Websites as the database holds them.

use vstd::prelude::*;

verus! {

/// Where the address of a website's visitor is taken from.
#[derive(Debug, Clone, Copy, PartialEq, Eq, Structural)]
pub enum DatabaseWebsiteRequestIp {
    Raw,
    ProxyProtocol,
    XForwardedFor(Option<usize>),
    XRealIP,
}

impl Default for DatabaseWebsiteRequestIp {
    fn default() -> (r: Self)
        ensures
            r == DatabaseWebsiteRequestIp::Raw,
    {
        DatabaseWebsiteRequestIp::Raw
    }
}

#[derive(Debug, Clone, Copy, PartialEq, Eq, Structural)]
pub struct DatabaseWebsiteConfig {
    pub get_request_ip: DatabaseWebsiteRequestIp,
}

impl Default for DatabaseWebsiteConfig {
    fn default() -> (r: Self)
        ensures
            r.get_request_ip == DatabaseWebsiteRequestIp::Raw,
    {
        DatabaseWebsiteConfig { get_request_ip: DatabaseWebsiteRequestIp::Raw }
    }
}

} // verus!
