//! The downloaded files, indexed by file id.
use super::local_file::LocalFile;
use std::collections::HashMap;
use vstd::std_specs::hash::spec_hash_map_iter;
use vstd::std_specs::iter::IteratorSpec;
use vstd::prelude::*;

verus! {

broadcast use vstd::std_specs::hash::group_hash_axioms;

/// The downloaded files, indexed by their file id.
pub struct LocalFileCache {
    map: HashMap<u64, LocalFile>,
}

impl LocalFileCache {
    /// The files, by file id.
    pub closed spec fn view(self) -> Map<u64, LocalFile> {
        self.map@
    }

    /// Every file is stored under its own file id.
    pub open spec fn well_formed(self) -> bool {
        forall|k: u64| #[trigger] self.view().contains_key(k) ==> self.view()[k].file_id == k
    }

    /// A cache that holds `local_files`.
    pub fn new(local_files: HashMap<u64, LocalFile>) -> (r: Self)
        ensures
            r.view() == local_files@,
            r.view().dom().finite(),
    {
        LocalFileCache { map: local_files }
    }

    /// Stores `value` under its file id, replacing any file with that id.
    pub fn push(&mut self, value: LocalFile)
        ensures
            final(self).view() == old(self).view().insert(value.file_id, value),
            old(self).well_formed() ==> final(self).well_formed(),
            final(self).view().dom().finite(),
            final(self).view().len() == old(self).view().len() + if old(self).view().contains_key(
                value.file_id,
            ) {
                0int
            } else {
                1int
            },
    {
        let id = value.file_id;
        proof {
            assert(self.map@.dom().finite());
        }
        self.map.insert(id, value);
        proof {
            assert(self.map@.dom().finite());
            if old(self).view().contains_key(id) {
                assert(self.map@.dom() =~= old(self).view().dom());
            } else {
                assert(self.map@.dom() =~= old(self).view().dom().insert(id));
            }
            if old(self).well_formed() {
                assert forall|k: u64| #[trigger] self.view().contains_key(k) implies self.view()[k].file_id
                    == k by {
                    if k != id {
                        assert(old(self).view().contains_key(k));
                    }
                }
            }
        }
    }

    /// The file with id `key`, if there is one.
    pub fn get(&self, key: u64) -> (r: Option<LocalFile>)
        ensures
            r == (if self.view().contains_key(key) {
                Some(self.view()[key])
            } else {
                None
            }),
    {
        match self.map.get(&key) {
            Some(v) => Some(v.clone()),
            None => None,
        }
    }

    /// All the stored files, each once, in no particular order.
    pub fn items(&self) -> (r: Vec<LocalFile>)
        ensures
            r.len() == self.view().len(),
            forall|i: int| 0 <= i < r.len() ==> self.view().values().contains(#[trigger] r@[i]),
            forall|k: u64| #[trigger] self.view().contains_key(k) ==> r@.contains(self.view()[k]),
    {
        let ghost pairs = spec_hash_map_iter(&self.map).remaining();
        let mut out: Vec<LocalFile> = Vec::new();
        for (_k, v) in it: self.map.iter()
            invariant
                pairs == spec_hash_map_iter(&self.map).remaining(),
                it.seq() == pairs,
                out.len() == it.index(),
                forall|j: int| 0 <= j < out.len() ==> #[trigger] out@[j] == *pairs[j].1,
        {
            out.push(v.clone());
        }
        proof {
            assert forall|j: int| 0 <= j < out.len() implies self.view().values().contains(
                #[trigger] out@[j],
            ) by {
                let k = *pairs[j].0;
                assert(self.view().contains_key(k) && self.view()[k] == *pairs[j].1);
            }
            let m = self.view();
            assert forall|k: u64| #[trigger] m.contains_key(k) implies out@.contains(m[k]) by {
                assert(pairs.contains((&k, &m[k])));
                let j = choose|j: int| 0 <= j < pairs.len() && pairs[j] == (&k, &m[k]);
                assert(out@[j] == m[k]);
            }
        }
        out
    }
}

} // verus!
