//! Connection classification and backend pooling for a protocol-sniffing
//! reverse-proxy front end, with the records of its management programs.

pub mod address;
pub mod dashboard;
pub mod dnsprovider;
pub mod gateway;
pub mod protocols;
pub mod shared;
pub mod utils;
