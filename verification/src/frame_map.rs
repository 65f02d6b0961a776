//! A mapping kept in two generations, one per frame.
//!
//! Both the input handlers and the action value caches need the same thing:
//! the entries gathered during the running frame, and a frozen copy of what
//! the frame before it gathered, so that a consumer can compare the two and
//! see an edge. [`FrameRotated`] is that pair of mappings together with the
//! rotation that turns one frame into the next.

use std::collections::HashMap;
use vstd::prelude::*;

verus! {

/// Two generations of a mapping from `u64` keys to values of type `V`.
pub struct FrameRotated<V> {
    current: HashMap<u64, V>,
    previous: HashMap<u64, V>,
}

impl<V> FrameRotated<V> {
    /// The entries gathered so far in the running frame.
    pub closed spec fn current(&self) -> Map<u64, V> {
        self.current@
    }

    /// The entries that the previous frame had gathered when it ended.
    pub closed spec fn previous(&self) -> Map<u64, V> {
        self.previous@
    }

    /// A pair of empty generations.
    pub fn new() -> (r: Self)
        ensures
            r.current() == Map::<u64, V>::empty(),
            r.previous() == Map::<u64, V>::empty(),
    {
        FrameRotated { current: HashMap::new(), previous: HashMap::new() }
    }

    /// Ends the running frame: what it gathered becomes the previous
    /// generation, the generation before that is dropped, and the new
    /// running frame starts empty.
    pub fn rotate(&mut self)
        ensures
            final(self).previous() == old(self).current(),
            final(self).current() == Map::<u64, V>::empty(),
    {
        std::mem::swap(&mut self.previous, &mut self.current);
        self.current.clear();
    }

    /// Stores `value` under `key` in the running frame, replacing what was
    /// stored there.
    pub fn insert(&mut self, key: u64, value: V)
        ensures
            final(self).current() == old(self).current().insert(key, value),
            final(self).previous() == old(self).previous(),
    {
        self.current.insert(key, value);
    }

    /// Stores `value` under `key` in the running frame unless the frame
    /// already holds an entry for `key`: the first value seen in a frame is
    /// the one that stays.
    pub fn insert_if_absent(&mut self, key: u64, value: V)
        ensures
            final(self).current() == if old(self).current().contains_key(key) {
                old(self).current()
            } else {
                old(self).current().insert(key, value)
            },
            final(self).previous() == old(self).previous(),
    {
        if !self.current.contains_key(&key) {
            self.current.insert(key, value);
        }
    }

    /// The running frame's entry for `key`.
    pub fn get_current(&self, key: u64) -> (r: Option<&V>)
        ensures
            match r {
                Some(v) => self.current().contains_key(key) && *v == self.current()[key],
                None => !self.current().contains_key(key),
            },
    {
        self.current.get(&key)
    }

    /// The previous frame's entry for `key`.
    pub fn get_previous(&self, key: u64) -> (r: Option<&V>)
        ensures
            match r {
                Some(v) => self.previous().contains_key(key) && *v == self.previous()[key],
                None => !self.previous().contains_key(key),
            },
    {
        self.previous.get(&key)
    }
}

} // verus!
