//! The gateway: classification of accepted connections and the pools of
//! connections to the backends.

pub mod proxy;
