//! DNS providers as the dashboard's callers name them.

use vstd::prelude::*;

verus! {

#[derive(Debug, Clone, Copy, PartialEq, Eq, Structural)]
pub enum DNSProviderType {
    TENCENT,
}

#[derive(Debug, Clone)]
pub struct DNSProviderTencentConfig {
    pub secret_id: String,
    pub secret_key: String,
}

#[derive(Debug, Clone)]
pub struct DNSProviderUpdate {
    pub id: String,
    pub provider: DNSProviderKind,
}

#[derive(Debug, Clone)]
pub struct DNSProviderCreate {
    pub provider: DNSProviderKind,
}

#[derive(Debug, Clone)]
pub enum DNSProviderKind {
    Tencent(DNSProviderTencentConfig),
}

impl DNSProviderKind {
    /// The type of provider that the configuration is for.
    pub open spec fn type_of(&self) -> DNSProviderType {
        match self {
            DNSProviderKind::Tencent(_) => DNSProviderType::TENCENT,
        }
    }

    pub fn get_type(&self) -> (r: DNSProviderType)
        ensures
            r == self.type_of(),
    {
        match self {
            DNSProviderKind::Tencent(_) => DNSProviderType::TENCENT,
        }
    }
}

} // verus!
