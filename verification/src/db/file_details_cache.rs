//! The details of the downloaded files, by file id, with the count that the
//! interface reads and whether the table has to be redrawn.
use crate::api::FileDetails;
use std::collections::HashMap;
use vstd::prelude::*;

verus! {

broadcast use vstd::std_specs::hash::group_hash_axioms;

/// The details of the downloaded files, by file id.
pub struct FileDetailsCache {
    map: HashMap<u64, FileDetails>,
    is_changed: bool,
    len: usize,
}

impl FileDetailsCache {
    /// The details held, by file id.
    pub closed spec fn files(self) -> Map<u64, FileDetails> {
        self.map@
    }

    /// Whether the table has to be redrawn.
    pub closed spec fn changed(self) -> bool {
        self.is_changed
    }

    /// The count of files as last stored.
    pub closed spec fn count(self) -> usize {
        self.len
    }

    /// The count is the number of files held.
    pub closed spec fn well_formed(self) -> bool {
        self.len == self.map@.len()
    }

    /// The cache of `map`.
    pub fn new(map: HashMap<u64, FileDetails>) -> (r: Self)
        ensures
            r.well_formed(),
            r.files() == map@,
            !r.changed(),
    {
        let len = map.len();
        FileDetailsCache { map, is_changed: false, len }
    }

    /// Stores `value` under `key`; the table is to be redrawn.
    pub fn insert(&mut self, key: u64, value: FileDetails)
        ensures
            final(self).well_formed(),
            final(self).files() == old(self).files().insert(key, value),
            final(self).changed(),
    {
        self.map.insert(key, value);
        self.is_changed = true;
        self.len = self.map.len();
    }

    /// Forgets the file `key`; the table is to be redrawn.
    pub fn remove(&mut self, key: &u64)
        ensures
            final(self).well_formed(),
            final(self).files() == old(self).files().remove(*key),
            final(self).changed(),
    {
        self.map.remove(key);
        self.is_changed = true;
        self.len = self.map.len();
    }

    /// The details of file `key`, if held.
    pub fn get(&self, key: &u64) -> (r: Option<&FileDetails>)
        ensures
            r == if self.files().contains_key(*key) {
                Some(&self.files()[*key])
            } else {
                None
            },
    {
        self.map.get(key)
    }

    /// The number of files.
    pub fn len(&self) -> (r: usize)
        requires
            self.well_formed(),
        ensures
            r == self.files().len(),
    {
        self.len
    }

    /// Whether the table has to be redrawn. Each call flips the answer the
    /// next call gives.
    pub fn is_changed(&mut self) -> (r: bool)
        ensures
            r == old(self).changed(),
            final(self).changed() == !old(self).changed(),
            final(self).files() == old(self).files(),
            final(self).count() == old(self).count(),
            old(self).well_formed() ==> final(self).well_formed(),
    {
        let ret = self.is_changed;
        self.is_changed = !self.is_changed;
        ret
    }
}

} // verus!
