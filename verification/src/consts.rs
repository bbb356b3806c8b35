//! Limits that every participant of the protocol shares.

use vstd::prelude::*;

verus! {

/// The size of the buffer for one read or write: no message is longer.
pub const MSG_BUF_SIZE: usize = 1024;

} // verus!
