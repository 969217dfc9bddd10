//! The downloaded files paired with their details: by file id, by mod with
//! the newest upload first, and in the order they were found.
use super::file_data::{option_less, FileData};
use super::keyed::KeyedCache;
use super::local_file::LocalFile;
use crate::api::FileDetails;
use crate::text::str_eq;
use std::collections::HashMap;
use vstd::multiset::Multiset;
use vstd::prelude::*;

verus! {

broadcast use vstd::std_specs::hash::group_hash_axioms;

/// The files are in order of upload time, the newest first.
pub open spec fn newest_first(s: Seq<FileData>) -> bool {
    forall|i: int, j: int|
        0 <= i < j < s.len() ==> !option_less(s[i].spec_timestamp(), s[j].spec_timestamp())
}

/// A stored list of a mod, if any, is in order of upload time.
pub open spec fn heap_ok(o: Option<Option<Vec<FileData>>>) -> bool {
    match o {
        Some(Some(v)) => newest_first(v@),
        _ => true,
    }
}

/// The record of `lf` paired with `fd`.
pub open spec fn paired(lf: LocalFile, fd: FileDetails) -> FileData {
    FileData {
        file_id: lf.file_id,
        game: lf.game,
        mod_id: lf.mod_id,
        file_name: lf.file_name,
        local_file: lf,
        file_details: Some(fd),
        md5results: None,
    }
}

/// Whether the time `a` comes before `b`, an unknown time first.
fn is_before(a: Option<u64>, b: Option<u64>) -> (r: bool)
    ensures
        r == option_less(a, b),
{
    match (a, b) {
        (None, Some(_)) => true,
        (Some(x), Some(y)) => x < y,
        _ => false,
    }
}

/// Puts `x` among the files, newest first, after every newer file.
fn push_newest_first(files: &mut Vec<FileData>, x: FileData)
    requires
        newest_first(old(files)@),
    ensures
        newest_first(final(files)@),
        final(files)@.to_multiset() == old(files)@.to_multiset().insert(x),
{
    broadcast use vstd::seq_lib::group_to_multiset_ensures;

    let ghost s = files@;
    let t = x.uploaded_timestamp();
    let mut i: usize = 0;
    while i < files.len() && is_before(t, files[i].uploaded_timestamp())
        invariant
            i <= files@.len(),
            files@ == s,
            t == x.spec_timestamp(),
            forall|j: int| 0 <= j < i ==> option_less(x.spec_timestamp(), #[trigger] s[j].spec_timestamp()),
        decreases files@.len() - i,
    {
        i = i + 1;
    }
    files.insert(i, x);
    proof {
        let u = files@;
        assert(u == s.insert(i as int, x));
        assert forall|a: int, b: int| 0 <= a < b < u.len() implies !option_less(
            u[a].spec_timestamp(),
            u[b].spec_timestamp(),
        ) by {
            let ii = i as int;
            if b < ii {
            } else if b == ii {
                assert(option_less(x.spec_timestamp(), s[a].spec_timestamp()));
            } else if a < ii {
                assert(option_less(x.spec_timestamp(), s[a].spec_timestamp()));
                assert(!option_less(s[ii].spec_timestamp(), s[b - 1].spec_timestamp()) || ii == b - 1);
            } else if a == ii {
                assert(!option_less(x.spec_timestamp(), s[ii].spec_timestamp()));
                assert(!option_less(s[ii].spec_timestamp(), s[b - 1].spec_timestamp()) || ii == b - 1);
            } else {
                assert(!option_less(s[a - 1].spec_timestamp(), s[b - 1].spec_timestamp()));
            }
        }
    }
}

/// The details of `file_id` in a file list: the first with that id.
pub fn find_details(files: &Vec<FileDetails>, file_id: u64) -> (r: Option<&FileDetails>)
    ensures
        match r {
            Some(fd) => exists|i: int|
                0 <= i < files@.len() && files@[i] == *fd && fd.file_id == file_id && forall|j: int|
                    0 <= j < i ==> (#[trigger] files@[j]).file_id != file_id,
            None => forall|j: int| 0 <= j < files@.len() ==> (#[trigger] files@[j]).file_id != file_id,
        },
{
    let mut i: usize = 0;
    while i < files.len()
        invariant
            i <= files@.len(),
            forall|j: int| 0 <= j < i ==> (#[trigger] files@[j]).file_id != file_id,
        decreases files@.len() - i,
    {
        if files[i].file_id == file_id {
            return Some(&files[i]);
        }
        i = i + 1;
    }
    None
}

/// The downloaded files paired with their details: by file id, by mod with
/// the newest upload first, and in the order they were found.
pub struct FileIndex {
    pub file_id_map: HashMap<u64, FileData>,
    pub mod_file_map: KeyedCache<Vec<FileData>>,
    pub files_sorted: Vec<FileData>,
    /// Whether the listing has to be redrawn.
    pub has_changed: bool,
}

impl FileIndex {
    /// The files of mod `mod_id` of `game`, newest first.
    pub closed spec fn mod_files(self, game: Seq<char>, mod_id: u32) -> Option<Seq<FileData>> {
        match self.mod_file_map.lookup(game, mod_id as u64) {
            Some(Some(v)) => Some(v@),
            _ => None,
        }
    }

    /// The lists of the mods are in order of upload time.
    pub closed spec fn well_formed(self) -> bool {
        &&& self.mod_file_map.well_formed()
        &&& forall|g: Seq<char>, m: u64| heap_ok(#[trigger] self.mod_file_map.lookup(g, m))
    }

    /// No file known.
    pub fn new() -> (r: Self)
        ensures
            r.well_formed(),
            r.file_id_map@ == Map::<u64, FileData>::empty(),
            r.files_sorted@ == Seq::<FileData>::empty(),
            forall|g: Seq<char>, m: u32| #[trigger] r.mod_files(g, m) is None,
            !r.has_changed,
    {
        FileIndex {
            file_id_map: HashMap::new(),
            mod_file_map: KeyedCache::new(),
            files_sorted: Vec::new(),
            has_changed: false,
        }
    }

    /// Takes in the downloaded file `lf` with its details `fd`: by its id,
    /// among the files of its mod, and last in the order found.
    pub fn insert_loaded(&mut self, lf: LocalFile, fd: FileDetails)
        requires
            old(self).well_formed(),
        ensures
            final(self).well_formed(),
            final(self).file_id_map@ == old(self).file_id_map@.insert(lf.file_id, paired(lf, fd)),
            final(self).files_sorted@ == old(self).files_sorted@.push(paired(lf, fd)),
            forall|g: Seq<char>, m: u32|
                #[trigger] final(self).mod_files(g, m) == if g == lf.game@ && m == lf.mod_id {
                    final(self).mod_files(g, m)
                } else {
                    old(self).mod_files(g, m)
                },
            final(self).mod_files(lf.game@, lf.mod_id) is Some,
            newest_first(final(self).mod_files(lf.game@, lf.mod_id)->0),
            final(self).mod_files(lf.game@, lf.mod_id)->0.to_multiset() == match old(self).mod_files(
                lf.game@,
                lf.mod_id,
            ) {
                Some(s) => s.to_multiset(),
                None => Multiset::empty(),
            }.insert(paired(lf, fd)),
            final(self).has_changed == old(self).has_changed,
    {
        broadcast use vstd::seq_lib::group_to_multiset_ensures;

        let ghost x = paired(lf, fd);
        let fdata = FileData::new(lf, Some(fd), None);
        let id = fdata.file_id;
        let game = fdata.game.clone();
        let mod_id = fdata.mod_id;
        self.file_id_map.insert(id, fdata.clone());
        let ghost before = self.mod_file_map;
        let mut heap = match self.mod_file_map.remove(game.as_str(), mod_id as u64) {
            Some(Some(v)) => v,
            _ => Vec::new(),
        };
        proof {
            assert(newest_first(heap@));
        }
        let ghost h0 = heap@;
        push_newest_first(&mut heap, fdata.clone());
        self.mod_file_map.insert(game, mod_id as u64, Some(heap));
        self.files_sorted.push(fdata);
        proof {
            assert forall|g: Seq<char>, m: u64| heap_ok(#[trigger] self.mod_file_map.lookup(g, m)) by {
                if !(g == lf.game@ && m == lf.mod_id as u64) {
                    assert(self.mod_file_map.lookup(g, m) == before.lookup(g, m));
                }
            }
            assert forall|g: Seq<char>, m: u32|
                #[trigger] self.mod_files(g, m) == if g == lf.game@ && m == lf.mod_id {
                    self.mod_files(g, m)
                } else {
                    old(self).mod_files(g, m)
                } by {
                if !(g == lf.game@ && m == lf.mod_id) {
                    assert(self.mod_file_map.lookup(g, m as u64) == before.lookup(g, m as u64));
                }
            }
            if old(self).mod_files(lf.game@, lf.mod_id) is None {
                assert(h0 =~= Seq::<FileData>::empty());
            }
        }
    }

    /// Takes in a newly downloaded file `lf`, if its details are known
    /// (`file_details`); the listing is then to be redrawn.
    pub fn add(&mut self, lf: LocalFile, file_details: Option<FileDetails>)
        requires
            old(self).well_formed(),
        ensures
            final(self).well_formed(),
            match file_details {
                None => {
                    &&& final(self).file_id_map@ == old(self).file_id_map@
                    &&& final(self).files_sorted@ == old(self).files_sorted@
                    &&& forall|g: Seq<char>, m: u32| #[trigger] final(self).mod_files(g, m)
                        == old(self).mod_files(g, m)
                    &&& final(self).has_changed == old(self).has_changed
                },
                Some(fd) => {
                    &&& final(self).file_id_map@ == old(self).file_id_map@.insert(
                        lf.file_id,
                        paired(lf, fd),
                    )
                    &&& final(self).files_sorted@ == old(self).files_sorted@.push(paired(lf, fd))
                    &&& final(self).mod_files(lf.game@, lf.mod_id) is Some
                    &&& newest_first(final(self).mod_files(lf.game@, lf.mod_id)->0)
                    &&& final(self).mod_files(lf.game@, lf.mod_id)->0.to_multiset() == match old(
                        self,
                    ).mod_files(lf.game@, lf.mod_id) {
                        Some(s) => s.to_multiset(),
                        None => Multiset::empty(),
                    }.insert(paired(lf, fd))
                    &&& forall|g: Seq<char>, m: u32|
                        !(g == lf.game@ && m == lf.mod_id) ==> #[trigger] final(self).mod_files(g, m)
                            == old(self).mod_files(g, m)
                    &&& final(self).has_changed
                },
            },
    {
        if let Some(fd) = file_details {
            let ghost g0 = lf.game@;
            let ghost m0 = lf.mod_id;
            self.insert_loaded(lf, fd);
            let ghost mid = *self;
            self.has_changed = true;
            assert forall|g: Seq<char>, m: u32| !(g == g0 && m == m0) implies #[trigger] self.mod_files(g, m)
                == old(self).mod_files(g, m) by {
                assert(self.mod_file_map == mid.mod_file_map);
                assert(mid.mod_files(g, m) == old(self).mod_files(g, m));
            }
        }
    }

    /// The first file found whose name is `name`.
    pub fn get_by_filename(&self, name: &str) -> (r: Option<&FileData>)
        ensures
            match r {
                Some(fd) => exists|i: int|
                    0 <= i < self.files_sorted@.len() && self.files_sorted@[i] == *fd
                        && fd.local_file.file_name@ == name@ && forall|j: int|
                        0 <= j < i ==> (#[trigger] self.files_sorted@[j]).local_file.file_name@
                            != name@,
                None => forall|j: int|
                    0 <= j < self.files_sorted@.len() ==> (
                    #[trigger] self.files_sorted@[j]).local_file.file_name@ != name@,
            },
    {
        let mut i: usize = 0;
        while i < self.files_sorted.len()
            invariant
                i <= self.files_sorted@.len(),
                forall|j: int|
                    0 <= j < i ==> (#[trigger] self.files_sorted@[j]).local_file.file_name@ != name@,
            decreases self.files_sorted@.len() - i,
        {
            if str_eq(self.files_sorted[i].local_file.file_name.as_str(), name) {
                return Some(&self.files_sorted[i]);
            }
            i = i + 1;
        }
        None
    }
}

/// Every list of the files of a mod is in order of upload time, the newest
/// first.
pub proof fn lemma_mod_files_newest_first(fi: FileIndex, game: Seq<char>, mod_id: u32)
    requires
        fi.well_formed(),
    ensures
        match fi.mod_files(game, mod_id) {
            Some(s) => newest_first(s),
            None => true,
        },
{
    assert(heap_ok(fi.mod_file_map.lookup(game, mod_id as u64)));
}

} // verus!
