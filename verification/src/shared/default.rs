//! Values that a configuration takes where it names none.

use vstd::prelude::*;

verus! {

/// Seconds after which a request to a website's backend is given up.
pub fn default_website_config_timeout() -> (seconds: u64)
    ensures
        seconds == 10,
{
    10
}

pub fn default_dashboard_api_port() -> (port: u16)
    ensures
        port == 3000,
{
    3000
}

pub fn default_dashboard_database_max_connections() -> (n: u32)
    ensures
        n == 10,
{
    10
}

} // verus!
