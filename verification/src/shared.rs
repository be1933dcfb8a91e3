//! What the gateway and its management programs have in common.

pub mod default;
pub mod logger;
pub mod mnt_protocols;
pub mod models;
pub mod objectid;
pub mod streams;
