//! The dashboard's configuration.

use vstd::prelude::*;

verus! {

#[derive(Debug, Clone)]
pub struct MainConfig {
    pub port: u16,
    pub database: String,
    pub max_connections: u32,
}

} // verus!
