//! The backlog of a listening socket.

use vstd::prelude::*;

verus! {

/// The backlog that listening sockets ask for: a negative number, which
/// the system replaces with the largest that it allows.
pub const LISTEN_BACKLOG_SIZE: i32 = -1;

} // verus!
