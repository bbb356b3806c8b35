//! The registry of live connections: each identity with the write half of
//! its connection.

use std::collections::HashMap;
use vstd::prelude::*;
use vstd::std_specs::iter::IteratorSpec;

verus! {

broadcast use vstd::std_specs::hash::group_hash_axioms;

/// The connections that are registered, by identity. `H` is the write half
/// of a connection; the registry never looks inside it.
pub struct Registry<H> {
    entries: HashMap<u32, H>,
}

impl<H> View for Registry<H> {
    type V = Map<u32, H>;

    closed spec fn view(&self) -> Map<u32, H> {
        self.entries@
    }
}

impl<H> Registry<H> {
    /// A registry without entries.
    pub fn new() -> (registry: Self)
        ensures
            registry@ == Map::<u32, H>::empty(),
    {
        Registry { entries: HashMap::new() }
    }

    /// The number of registered connections.
    pub fn len(&self) -> (len: usize)
        ensures
            len == self@.len(),
            self@.dom().finite(),
    {
        self.entries.len()
    }

    /// Whether `id` is registered.
    pub fn contains(&self, id: u32) -> (found: bool)
        ensures
            found == self@.contains_key(id),
    {
        self.entries.contains_key(&id)
    }

    /// The write half registered under `id`.
    pub fn get(&self, id: u32) -> (handle: Option<&H>)
        ensures
            match handle {
                Some(h) => self@.contains_key(id) && *h == self@[id],
                None => !self@.contains_key(id),
            },
    {
        self.entries.get(&id)
    }

    /// Register `handle` under `id`; an entry that stood there before is
    /// handed back.
    pub fn insert(&mut self, id: u32, handle: H) -> (previous: Option<H>)
        ensures
            final(self)@ == old(self)@.insert(id, handle),
            match previous {
                Some(h) => old(self)@.contains_key(id) && h == old(self)@[id],
                None => !old(self)@.contains_key(id),
            },
    {
        self.entries.insert(id, handle)
    }

    /// Take the entry of `id` out of the registry.
    pub fn remove(&mut self, id: u32) -> (handle: Option<H>)
        ensures
            final(self)@ == old(self)@.remove(id),
            match handle {
                Some(h) => old(self)@.contains_key(id) && h == old(self)@[id],
                None => !old(self)@.contains_key(id),
            },
    {
        self.entries.remove(&id)
    }

    /// The registered identities, each once, in no particular order.
    pub fn identities(&self) -> (ids: Vec<u32>)
        ensures
            ids@.no_duplicates(),
            ids@.to_set() == self@.dom(),
            ids@.len() == self@.len(),
    {
        let ghost keys = self.entries.keys().remaining();
        let mut ids: Vec<u32> = Vec::new();
        for id in it: self.entries.keys()
            invariant
                it.seq() == keys,
                ids@ == keys.take(it.index() as int).unref(),
        {
            ids.push(*id);
        }
        assert(keys.take(keys.len() as int) == keys);
        ids
    }
}

} // verus!
