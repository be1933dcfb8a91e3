//! DNS providers as the database holds them.

use crate::utils::{can_hide_middle, replace_sensitive_data, sensitive_text};
use vstd::prelude::*;
use vstd::string::StringExecFns;

verus! {

#[derive(Debug, Clone, Copy, PartialEq, Eq, Structural)]
pub enum DNSProviderType {
    TENCENT,
}

impl DNSProviderType {
    /// The name under which the type is written.
    pub fn name(&self) -> (r: String)
        ensures
            r@ == "TENCENT"@,
    {
        match self {
            DNSProviderType::TENCENT => String::from_str("TENCENT"),
        }
    }
}

#[derive(Debug, Clone)]
pub enum DatabaseDNSProviderKind {
    TENCENT(DatabaseDNSProviderTencent),
}

#[derive(Debug, Clone)]
pub struct DatabaseDNSProviderTencent {
    pub secret_id: String,
    pub secret_key: String,
}

impl DatabaseDNSProviderTencent {
    /// Whether both secrets can be shown with their middle hidden.
    pub open spec fn can_hide(&self) -> bool {
        can_hide_middle(self.secret_id@) && can_hide_middle(self.secret_key@)
    }

    /// The configuration with the middle of both secrets hidden.
    pub fn remove_sensitive_info(&self) -> (r: Self)
        requires
            self.can_hide(),
        ensures
            r.secret_id@ == sensitive_text(self.secret_id@),
            r.secret_key@ == sensitive_text(self.secret_key@),
    {
        Self {
            secret_id: replace_sensitive_data(self.secret_id.as_str()),
            secret_key: replace_sensitive_data(self.secret_key.as_str()),
        }
    }
}

impl DatabaseDNSProviderKind {
    /// The type of provider that the configuration is for.
    pub open spec fn type_of(&self) -> DNSProviderType {
        match self {
            DatabaseDNSProviderKind::TENCENT(_) => DNSProviderType::TENCENT,
        }
    }

    pub fn get_type(&self) -> (r: DNSProviderType)
        ensures
            r == self.type_of(),
    {
        match self {
            DatabaseDNSProviderKind::TENCENT(_) => DNSProviderType::TENCENT,
        }
    }

    /// Whether the secrets of the configuration can be shown with their
    /// middle hidden.
    pub open spec fn can_hide(&self) -> bool {
        match self {
            DatabaseDNSProviderKind::TENCENT(provider) => provider.can_hide(),
        }
    }

    /// The configuration with the middle of its secrets hidden.
    pub fn remove_sensitive_info(&self) -> (r: Self)
        requires
            self.can_hide(),
        ensures
            match (self, r) {
                (
                    DatabaseDNSProviderKind::TENCENT(before),
                    DatabaseDNSProviderKind::TENCENT(after),
                ) => after.secret_id@ == sensitive_text(before.secret_id@) && after.secret_key@
                    == sensitive_text(before.secret_key@),
            },
    {
        match self {
            DatabaseDNSProviderKind::TENCENT(provider) => DatabaseDNSProviderKind::TENCENT(
                provider.remove_sensitive_info(),
            ),
        }
    }
}

#[derive(Debug, Clone)]
pub struct DNSProviderQueryParams {
    pub limit: Option<usize>,
    pub page: Option<usize>,
}

#[derive(Debug, Clone)]
pub struct CreateDatabaseDNSProvider {
    pub provider: DatabaseDNSProviderKind,
    pub domains: Vec<String>,
    pub name: Option<String>,
}

} // verus!
