//! Sniffers that classify the first bytes of a connection.

pub mod proxyprotocol;
pub mod tls;
pub mod utils;
