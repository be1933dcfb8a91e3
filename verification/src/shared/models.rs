//! The records that the programs exchange and store.

pub mod dns;
pub mod dnsprovider;
pub mod websites;
