//! The dashboard's log of what its users did.

use vstd::prelude::*;

verus! {

/// The address that a logged request came from, as text.
#[derive(Debug, Clone)]
pub struct LogAddr(pub String);

#[derive(Debug, Clone)]
pub struct LogQueryParams {
    pub limit: Option<usize>,
    pub page: Option<usize>,
}

} // verus!
