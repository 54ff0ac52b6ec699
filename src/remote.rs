//! State handed over from the hosting page: id sets and decoded mesh data.
use vstd::prelude::*;
use std::collections::HashSet;

verus! {

/// A set of object ids with a flag telling whether it changed.
pub struct HashI32State {
    pub values: HashSet<i32>,
    pub is_dirty: bool,
}

impl HashI32State {
    pub fn new() -> (r: HashI32State)
        ensures
            r.values@ == Set::<i32>::empty(),
            !r.is_dirty,
    {
        HashI32State { values: HashSet::new(), is_dirty: false }
    }
}

/// Decoded buffers of one shard delivered by the page, waiting to be
/// loaded.
pub struct RemoteMeshData {
    pub is_dirty: bool,
    pub load_level: i32,
    pub decoded_v: Vec<u8>,
    pub decoded_i: Vec<u8>,
    pub decoded_b: Vec<u8>,
    pub decoded_t: Vec<u8>,
}

impl RemoteMeshData {
    pub open spec fn is_clean(&self) -> bool {
        &&& !self.is_dirty
        &&& self.load_level == 0
        &&& self.decoded_v@.len() == 0
        &&& self.decoded_i@.len() == 0
        &&& self.decoded_b@.len() == 0
        &&& self.decoded_t@.len() == 0
    }

    pub fn new() -> (r: RemoteMeshData)
        ensures
            r.is_clean(),
    {
        RemoteMeshData {
            is_dirty: false,
            load_level: 0,
            decoded_v: Vec::new(),
            decoded_i: Vec::new(),
            decoded_b: Vec::new(),
            decoded_t: Vec::new(),
        }
    }

    /// Drops the delivered buffers.
    pub fn clean(&mut self)
        ensures
            final(self).is_clean(),
    {
        self.is_dirty = false;
        self.load_level = 0;
        self.decoded_v = Vec::new();
        self.decoded_i = Vec::new();
        self.decoded_b = Vec::new();
        self.decoded_t = Vec::new();
    }
}

} // verus!
