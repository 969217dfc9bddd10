//! The details of files by file id, in the order they were added, with a flag
//! that tells whether anything was added since the flag was last cleared.
use super::indexed::{
    details_entries, details_get, details_get_index, details_insert, details_len, map_get,
    map_insert,
};
use crate::api::FileDetails;
use indexmap::IndexMap;
use vstd::prelude::*;

verus! {

/// File details by file id, and whether an insertion changed them.
pub struct FileDetailsCache {
    pub map: IndexMap<u64, FileDetails>,
    is_changed: bool,
}

impl FileDetailsCache {
    /// The pairs held, in their order.
    pub closed spec fn entries(&self) -> Seq<(u64, FileDetails)> {
        details_entries(self.map)
    }

    /// Whether an insertion happened.
    pub closed spec fn changed(&self) -> bool {
        self.is_changed
    }

    /// A cache over `map`, not yet changed.
    pub fn new(map: IndexMap<u64, FileDetails>) -> (r: Self)
        ensures
            r.entries() == details_entries(map),
            !r.changed(),
    {
        FileDetailsCache { map, is_changed: false }
    }

    /// Stores `value` under `key` (in place when the key is present, last
    /// otherwise) and marks the cache changed.
    pub fn insert(&mut self, key: u64, value: FileDetails)
        ensures
            final(self).entries() == map_insert(old(self).entries(), key, value),
            final(self).changed(),
    {
        details_insert(&mut self.map, key, value);
        self.is_changed = true;
    }

    /// A copy of the details stored under `key`.
    pub fn get(&self, key: &u64) -> (r: Option<FileDetails>)
        ensures
            r == map_get(self.entries(), *key),
    {
        match details_get(&self.map, *key) {
            Some(v) => Some(v.clone()),
            None => None,
        }
    }

    /// The pair at position `index`, when there is one.
    pub fn get_index(&self, index: usize) -> (r: Option<(u64, FileDetails)>)
        ensures
            match r {
                Some(p) => index < self.entries().len() && p == self.entries()[index as int],
                None => index >= self.entries().len(),
            },
    {
        match details_get_index(&self.map, index) {
            Some((k, v)) => Some((k, v.clone())),
            None => None,
        }
    }

    /// Copies of all details, in the map's order.
    pub fn items(&self) -> (r: Vec<FileDetails>)
        ensures
            r@ == self.entries().map_values(|p: (u64, FileDetails)| p.1),
    {
        let n = details_len(&self.map);
        let mut out: Vec<FileDetails> = Vec::new();
        let mut i: usize = 0;
        while i < n
            invariant
                n == self.entries().len(),
                i <= n,
                out@ == self.entries().take(i as int).map_values(|p: (u64, FileDetails)| p.1),
            decreases n - i,
        {
            match details_get_index(&self.map, i) {
                Some((_, v)) => {
                    out.push(v.clone());
                },
                None => {},
            }
            assert(out@ =~= self.entries().take(i + 1).map_values(|p: (u64, FileDetails)| p.1));
            i = i + 1;
        }
        assert(self.entries().take(n as int) =~= self.entries());
        out
    }

    /// The number of pairs.
    pub fn len(&self) -> (r: usize)
        ensures
            r == self.entries().len(),
    {
        details_len(&self.map)
    }

    /// Whether an insertion happened since the cache was made.
    pub fn is_changed(&self) -> (r: bool)
        ensures
            r == self.changed(),
    {
        self.is_changed
    }
}

} // verus!
