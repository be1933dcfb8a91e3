//! What the dashboard's callers send and get.

pub mod auth;
pub mod log;
