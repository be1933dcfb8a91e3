//! Clients of DNS providers.

pub mod base;
pub mod dnspod;
