//! The file lists of mods: the cache of them, the lookup of a file's details
//! in one, and how a list is trimmed to what the downloaded files still need.
use super::keyed::KeyedCache;
use super::update::{
    at_time, lemma_swap_keeps_filter, lemma_swap_multiset, sort_updates, sorted_by_upload,
};
use crate::api::{FileDetails, FileList, FileUpdate};
use vstd::prelude::*;

verus! {

/// The files are in ascending order of file id.
pub open spec fn sorted_by_id(s: Seq<FileDetails>) -> bool {
    forall|i: int, j: int| 0 <= i <= j < s.len() ==> s[i].file_id <= s[j].file_id
}

/// The test that picks the files with id `id`.
pub open spec fn with_id(id: u64) -> spec_fn(FileDetails) -> bool {
    |f: FileDetails| f.file_id == id
}

/// Puts the files in ascending order of file id; files of equal id keep their order.
pub fn sort_files(files: &mut Vec<FileDetails>)
    ensures
        sorted_by_id(final(files)@),
        final(files)@.to_multiset() == old(files)@.to_multiset(),
        final(files)@.len() == old(files)@.len(),
        forall|id: u64|
            #![trigger final(files)@.filter(with_id(id))]
            final(files)@.filter(with_id(id)) == old(files)@.filter(with_id(id)),
{
    let n = files.len();
    if n == 0 {
        return;
    }
    let mut i: usize = 1;
    while i < n
        invariant
            1 <= i <= n,
            n == files@.len(),
            forall|a: int, b: int|
                0 <= a <= b < i ==> (#[trigger] files@[a]).file_id <= (#[trigger] files@[b]).file_id,
            files@.to_multiset() == old(files)@.to_multiset(),
            forall|id: u64|
                #![trigger files@.filter(with_id(id))]
                files@.filter(with_id(id)) == old(files)@.filter(with_id(id)),
        decreases n - i,
    {
        let mut j: usize = i;
        while j > 0 && files[j - 1].file_id > files[j].file_id
            invariant
                0 <= j <= i < n,
                n == files@.len(),
                files@.to_multiset() == old(files)@.to_multiset(),
                forall|id: u64|
                    #![trigger files@.filter(with_id(id))]
                    files@.filter(with_id(id)) == old(files)@.filter(with_id(id)),
                forall|a: int, b: int|
                    0 <= a <= b <= i && a != j && b != j ==> (#[trigger] files@[a]).file_id <= (
                    #[trigger] files@[b]).file_id,
                forall|b: int| j < b <= i ==> files@[j as int].file_id < (#[trigger] files@[b]).file_id,
            decreases j,
        {
            let ghost before = files@;
            let x = files[j - 1].clone();
            let y = files[j].clone();
            files.set(j - 1, y);
            files.set(j, x);
            proof {
                assert(files@ =~= before.update(j - 1, before[j as int]).update(j as int, before[j - 1]));
                lemma_swap_multiset(before, j - 1, j as int);
                assert forall|id: u64| #[trigger]
                    files@.filter(with_id(id)) == old(files)@.filter(with_id(id)) by {
                    lemma_swap_keeps_filter(before, j - 1, with_id(id));
                    assert(before.filter(with_id(id)) == old(files)@.filter(with_id(id)));
                }
                assert forall|a: int, b: int|
                    0 <= a <= b <= i && a != j - 1 && b != j - 1 implies (
                    #[trigger] files@[a]).file_id <= (#[trigger] files@[b]).file_id by {
                    if a == b {
                    } else if a == j as int {
                        assert(before[j - 1].file_id <= before[b].file_id);
                    } else if b == j as int {
                        assert(before[a].file_id <= before[j - 1].file_id);
                    } else {
                        assert(before[a].file_id <= before[b].file_id);
                    }
                }
                assert forall|b: int| j - 1 < b <= i implies files@[j - 1].file_id < (
                #[trigger] files@[b]).file_id by {
                    if b > j {
                        assert(before[j as int].file_id < before[b].file_id);
                    }
                }
            }
            j = j - 1;
        }
        proof {
            assert forall|a: int, b: int| 0 <= a <= b < i + 1 implies (#[trigger] files@[a]).file_id <= (
            #[trigger] files@[b]).file_id by {
                if a == j as int && b != j as int {
                } else if b == j as int && a != j as int {
                    assert(files@[a].file_id <= files@[j - 1].file_id);
                }
            }
        }
        i = i + 1;
    }
}

/// Whether a file of the list has the id `file_id`.
pub open spec fn has_file(s: Seq<FileDetails>, file_id: u64) -> bool {
    exists|i: int| 0 <= i < s.len() && (#[trigger] s[i]).file_id == file_id
}

/// The details of file `file_id` in a list of files in ascending order of
/// file id, found by binary search.
pub fn filedetails_for(files: &Vec<FileDetails>, file_id: u64) -> (r: Option<&FileDetails>)
    requires
        sorted_by_id(files@),
    ensures
        match r {
            Some(fd) => fd.file_id == file_id && files@.contains(*fd),
            None => !has_file(files@, file_id),
        },
{
    let mut lo: usize = 0;
    let mut hi: usize = files.len();
    while lo < hi
        invariant
            lo <= hi <= files@.len(),
            sorted_by_id(files@),
            forall|j: int| 0 <= j < lo ==> (#[trigger] files@[j]).file_id < file_id,
            forall|j: int| hi <= j < files@.len() ==> (#[trigger] files@[j]).file_id > file_id,
        decreases hi - lo,
    {
        let mid = lo + (hi - lo) / 2;
        let id = files[mid].file_id;
        if id == file_id {
            return Some(&files[mid]);
        } else if id < file_id {
            proof {
                assert forall|j: int| 0 <= j < mid + 1 implies (#[trigger] files@[j]).file_id < file_id by {
                    assert(files@[j].file_id <= files@[mid as int].file_id);
                }
            }
            lo = mid + 1;
        } else {
            proof {
                assert forall|j: int| mid <= j < files@.len() implies (#[trigger] files@[j]).file_id
                    > file_id by {
                    assert(files@[mid as int].file_id <= files@[j].file_id);
                }
            }
            hi = mid;
        }
    }
    None
}

/// `k` splits `s` into the files of id below `id` and the rest.
pub open spec fn is_file_split(s: Seq<FileDetails>, id: u64, k: int) -> bool {
    &&& 0 <= k <= s.len()
    &&& forall|j: int| 0 <= j < k ==> (#[trigger] s[j]).file_id < id
    &&& k < s.len() ==> s[k].file_id >= id
}

/// The files from the first one whose id is not below `id`.
pub open spec fn files_from(s: Seq<FileDetails>, id: u64) -> Seq<FileDetails> {
    s.skip(choose|k: int| is_file_split(s, id, k))
}

/// `k` splits `s` into the updates uploaded before `t` and the rest.
pub open spec fn is_update_split(s: Seq<FileUpdate>, t: u64, k: int) -> bool {
    &&& 0 <= k <= s.len()
    &&& forall|j: int| 0 <= j < k ==> (#[trigger] s[j]).uploaded_timestamp < t
    &&& k < s.len() ==> s[k].uploaded_timestamp >= t
}

/// The updates from the first one not uploaded before `t`.
pub open spec fn updates_from(s: Seq<FileUpdate>, t: u64) -> Seq<FileUpdate> {
    s.skip(choose|k: int| is_update_split(s, t, k))
}

/// Drops the files of id below `id` from the front of `files`.
fn drop_files_below(files: &mut Vec<FileDetails>, id: u64)
    ensures
        final(files)@ == files_from(old(files)@, id),
        sorted_by_id(old(files)@) ==> sorted_by_id(final(files)@),
{
    let mut k: usize = 0;
    while k < files.len() && files[k].file_id < id
        invariant
            k <= files@.len(),
            forall|j: int| 0 <= j < k ==> (#[trigger] files@[j]).file_id < id,
        decreases files@.len() - k,
    {
        k = k + 1;
    }
    proof {
        let s = files@;
        assert(is_file_split(s, id, k as int));
        let c = choose|c: int| is_file_split(s, id, c);
        assert(c == k) by {
            if c < k {
                assert(s[c].file_id < id);
            } else if c > k {
                assert(s[k as int].file_id < id);
            }
        }
    }
    let ghost s0 = files@;
    let tail = files.split_off(k);
    *files = tail;
    proof {
        assert(files@ =~= s0.skip(k as int));
        if sorted_by_id(s0) {
            assert forall|i: int, j: int| 0 <= i <= j < files@.len() implies files@[i].file_id
                <= files@[j].file_id by {
                assert(files@[i] == s0[i + k]);
                assert(files@[j] == s0[j + k]);
            }
        }
    }
}

/// Drops the updates uploaded before `t` from the front of `updates`.
fn drop_updates_before(updates: &mut Vec<FileUpdate>, t: u64)
    ensures
        final(updates)@ == updates_from(old(updates)@, t),
        sorted_by_upload(old(updates)@) ==> sorted_by_upload(final(updates)@),
{
    let mut k: usize = 0;
    while k < updates.len() && updates[k].uploaded_timestamp < t
        invariant
            k <= updates@.len(),
            forall|j: int| 0 <= j < k ==> (#[trigger] updates@[j]).uploaded_timestamp < t,
        decreases updates@.len() - k,
    {
        k = k + 1;
    }
    proof {
        let s = updates@;
        assert(is_update_split(s, t, k as int));
        let c = choose|c: int| is_update_split(s, t, c);
        assert(c == k) by {
            if c < k {
                assert(s[c].uploaded_timestamp < t);
            } else if c > k {
                assert(s[k as int].uploaded_timestamp < t);
            }
        }
    }
    let ghost s0 = updates@;
    let tail = updates.split_off(k);
    *updates = tail;
    proof {
        assert(updates@ =~= s0.skip(k as int));
        if sorted_by_upload(s0) {
            assert forall|i: int, j: int| 0 <= i <= j < updates@.len() implies updates@[i].uploaded_timestamp
                <= updates@[j].uploaded_timestamp by {
                assert(updates@[i] == s0[i + k]);
                assert(updates@[j] == s0[j + k]);
            }
        }
    }
}

/// Trims a file list, sorted by file id and by upload time, against the
/// oldest downloaded file of its mod (`oldest_file_id`): files older than it
/// are dropped, and so are the updates uploaded before `earliest_timestamp`.
pub fn prune_file_list(fl: &mut FileList, oldest_file_id: u64, earliest_timestamp: u64)
    ensures
        final(fl).files@ == files_from(old(fl).files@, oldest_file_id),
        final(fl).file_updates@ == updates_from(old(fl).file_updates@, earliest_timestamp),
        sorted_by_id(old(fl).files@) ==> sorted_by_id(final(fl).files@),
        sorted_by_upload(old(fl).file_updates@) ==> sorted_by_upload(final(fl).file_updates@),
{
    drop_files_below(&mut fl.files, oldest_file_id);
    drop_updates_before(&mut fl.file_updates, earliest_timestamp);
}

/// What a trimmed list keeps of a sorted list is exactly its files of id not
/// below the oldest downloaded one, in order.
pub proof fn lemma_files_from_sorted(s: Seq<FileDetails>, id: u64)
    requires
        sorted_by_id(s),
    ensures
        forall|j: int| 0 <= j < files_from(s, id).len() ==> (#[trigger] files_from(s, id)[j]).file_id >= id,
        forall|j: int| 0 <= j < s.len() && s[j].file_id >= id ==> files_from(s, id).contains(s[j]),
        sorted_by_id(files_from(s, id)),
{
    let c = choose|c: int| is_file_split(s, id, c);
    assert(exists|c: int| is_file_split(s, id, c)) by {
        lemma_file_split_exists(s, id);
    }
    let t = files_from(s, id);
    assert(t == s.skip(c));
    assert forall|j: int| 0 <= j < t.len() implies (#[trigger] t[j]).file_id >= id by {
        assert(t[j] == s[c + j]);
        assert(s[c].file_id <= s[c + j].file_id);
    }
    assert forall|j: int| 0 <= j < s.len() && s[j].file_id >= id implies t.contains(s[j]) by {
        if j < c {
            assert(s[j].file_id < id);
        } else {
            assert(t[j - c] == s[j]);
        }
    }
}

proof fn lemma_file_split_exists(s: Seq<FileDetails>, id: u64)
    ensures
        exists|c: int| is_file_split(s, id, c),
    decreases s.len(),
{
    if s.len() == 0 || s[0].file_id >= id {
        assert(is_file_split(s, id, 0));
    } else {
        let t = s.drop_first();
        lemma_file_split_exists(t, id);
        let c = choose|c: int| is_file_split(t, id, c);
        assert forall|j: int| 0 <= j < c + 1 implies (#[trigger] s[j]).file_id < id by {
            if j > 0 {
                assert(s[j] == t[j - 1]);
            }
        }
        if c < t.len() {
            assert(s[c + 1] == t[c]);
        }
        assert(is_file_split(s, id, c + 1));
    }
}

/// The file lists read so far, by game and mod id; a key may also record
/// that the list could not be read.
pub struct FileLists {
    map: KeyedCache<FileList>,
}

impl FileLists {
    /// What is known of the file list of mod `mod_id` of `game`.
    pub closed spec fn lookup(self, game: Seq<char>, mod_id: u32) -> Option<Option<FileList>> {
        self.map.lookup(game, mod_id as u64)
    }

    /// No key is stored twice.
    pub closed spec fn well_formed(self) -> bool {
        self.map.well_formed()
    }

    /// No file list known yet.
    pub fn new() -> (r: Self)
        ensures
            r.well_formed(),
            forall|g: Seq<char>, m: u32| #[trigger] r.lookup(g, m) is None,
    {
        FileLists { map: KeyedCache::new() }
    }

    /// Stores the file list of mod `mod_id` of `game`.
    pub fn insert(&mut self, game: String, mod_id: u32, value: FileList)
        requires
            old(self).well_formed(),
        ensures
            final(self).well_formed(),
            forall|g: Seq<char>, m: u32|
                #[trigger] final(self).lookup(g, m) == if g == game@ && m == mod_id {
                    Some(Some(value))
                } else {
                    old(self).lookup(g, m)
                },
    {
        self.record(game, mod_id, Some(value));
    }

    /// Stores what reading the file list of mod `mod_id` of `game` gave:
    /// the list, or nothing, so that it is not read again.
    pub fn record(&mut self, game: String, mod_id: u32, loaded: Option<FileList>)
        requires
            old(self).well_formed(),
        ensures
            final(self).well_formed(),
            forall|g: Seq<char>, m: u32|
                #[trigger] final(self).lookup(g, m) == if g == game@ && m == mod_id {
                    Some(loaded)
                } else {
                    old(self).lookup(g, m)
                },
    {
        self.map.insert(game, mod_id as u64, loaded);
        proof {
            assert forall|g: Seq<char>, m: u32|
                #[trigger] self.lookup(g, m) == if g == game@ && m == mod_id {
                    Some(loaded)
                } else {
                    old(self).lookup(g, m)
                } by {
                assert(self.map.lookup(g, m as u64) == if g == game@ && m as u64 == mod_id as u64 {
                    Some(loaded)
                } else {
                    old(self).map.lookup(g, m as u64)
                });
            }
        }
    }

    /// Stores what reading the file list of mod `mod_id` of `game` gave, from
    /// its current place (`current`) and, when that failed, from the place
    /// older versions used (`compat`; not read when `current` succeeded): the
    /// first list found, or nothing, so that it is not read again. Returns a
    /// copy of what was stored.
    pub fn record_read(
        &mut self,
        game: String,
        mod_id: u32,
        current: Option<FileList>,
        compat: Option<FileList>,
    ) -> (r: Option<FileList>)
        requires
            old(self).well_formed(),
        ensures
            final(self).well_formed(),
            forall|g: Seq<char>, m: u32|
                #[trigger] final(self).lookup(g, m) == if g == game@ && m == mod_id {
                    Some(
                        if current is Some {
                            current
                        } else {
                            compat
                        },
                    )
                } else {
                    old(self).lookup(g, m)
                },
            ({
                let found = if current is Some {
                    current
                } else {
                    compat
                };
                match r {
                    Some(fl) => found is Some && fl.files@ == found->0.files@ && fl.file_updates@
                        == found->0.file_updates@,
                    None => found is None,
                }
            }),
    {
        let found = match current {
            Some(fl) => Some(fl),
            None => compat,
        };
        let copy = match &found {
            Some(fl) => Some(fl.clone()),
            None => None,
        };
        self.record(game, mod_id, found);
        copy
    }

    /// The file list of mod `mod_id` of `game` as far as it is known: `None`
    /// when it has not been read yet, else the list or the knowledge that
    /// there is none.
    pub fn get(&self, game: &str, mod_id: u32) -> (r: Option<&Option<FileList>>)
        requires
            self.well_formed(),
        ensures
            match self.lookup(game@, mod_id) {
                Some(v) => r == Some(&v),
                None => r is None,
            },
    {
        self.map.get(game, mod_id as u64)
    }
}

/// Puts a file list in the order its lookups rely on: files by id, updates by
/// upload time.
pub fn sort_file_list(fl: &mut FileList)
    ensures
        sorted_by_id(final(fl).files@),
        final(fl).files@.to_multiset() == old(fl).files@.to_multiset(),
        sorted_by_upload(final(fl).file_updates@),
        final(fl).file_updates@.to_multiset() == old(fl).file_updates@.to_multiset(),
        forall|id: u64|
            #![trigger final(fl).files@.filter(with_id(id))]
            final(fl).files@.filter(with_id(id)) == old(fl).files@.filter(with_id(id)),
        forall|t: u64|
            #![trigger final(fl).file_updates@.filter(at_time(t))]
            final(fl).file_updates@.filter(at_time(t)) == old(fl).file_updates@.filter(at_time(t)),
{
    sort_files(&mut fl.files);
    sort_updates(&mut fl.file_updates);
}

} // verus!
