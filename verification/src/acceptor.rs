//! The acceptor's part of the state: which identity the next connection gets.

use vstd::prelude::*;

verus! {

/// Hands out identities: the first connection gets 0, each later one the
/// successor of the one before. After the last 32-bit value the count
/// starts again at 0.
pub struct Acceptor {
    next_id: u32,
}

impl Acceptor {
    /// The identity that the next connection gets.
    pub closed spec fn next(&self) -> u32 {
        self.next_id
    }

    /// An acceptor that has accepted nothing yet.
    pub fn new() -> (acceptor: Self)
        ensures
            acceptor.next() == 0,
    {
        Acceptor { next_id: 0 }
    }

    /// Take the identity for a connection that was just accepted.
    pub fn assign(&mut self) -> (id: u32)
        ensures
            id == old(self).next(),
            final(self).next() == if id == u32::MAX {
                0
            } else {
                id + 1
            },
    {
        let id = self.next_id;
        self.next_id = if id == u32::MAX {
            0
        } else {
            id + 1
        };
        id
    }
}

} // verus!
