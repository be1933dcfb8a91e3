//! The records of the dashboard.

pub mod config;
pub mod models;
pub mod response;
