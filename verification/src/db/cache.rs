//! The per-game cache of the earlier layout: the downloaded files, the file
//! lists of their mods, and the details of each downloaded file found in
//! those lists.
use super::file_details_cache::FileDetailsCache;
use super::local_file::LocalFile;
use crate::api::{FileDetails, FileList};
use crate::cache::file_index::find_details;
use crate::cache::keyed::KeyedCache;
use std::collections::HashMap;
use vstd::prelude::*;

verus! {

broadcast use vstd::std_specs::hash::group_hash_axioms;

/// The details of `file_id` in a file list: the first with that id.
pub open spec fn first_details(files: Seq<FileDetails>, file_id: u64) -> Option<FileDetails>
    decreases files.len(),
{
    if files.len() == 0 {
        None
    } else if files[0].file_id == file_id {
        Some(files[0])
    } else {
        first_details(files.drop_first(), file_id)
    }
}

proof fn lemma_first_details(files: Seq<FileDetails>, file_id: u64, i: int)
    requires
        0 <= i <= files.len(),
        forall|j: int| 0 <= j < i ==> (#[trigger] files[j]).file_id != file_id,
        i < files.len() ==> files[i].file_id == file_id,
    ensures
        first_details(files, file_id) == if i < files.len() {
            Some(files[i])
        } else {
            None::<FileDetails>
        },
    decreases files.len(),
{
    if files.len() > 0 && i > 0 {
        let t = files.drop_first();
        assert(files[0].file_id != file_id);
        assert forall|j: int| 0 <= j < i - 1 implies (#[trigger] t[j]).file_id != file_id by {
            assert(t[j] == files[j + 1]);
        }
        if i < files.len() {
            assert(t[i - 1] == files[i]);
        }
        lemma_first_details(t, file_id, i - 1);
    }
}

/// The details that the file lists give of the downloaded files `lfs`, as a
/// map by file id: for each file in turn whose mod's list is known and holds
/// it, the first entry of its id.
pub open spec fn details_of(
    lfs: Seq<LocalFile>,
    lists: spec_fn(Seq<char>, u32) -> Option<FileList>,
) -> Map<u64, FileDetails>
    decreases lfs.len(),
{
    if lfs.len() == 0 {
        Map::empty()
    } else {
        let before = details_of(lfs.drop_last(), lists);
        let lf = lfs.last();
        match lists(lf.game@, lf.mod_id) {
            Some(fl) => match first_details(fl.files@, lf.file_id) {
                Some(fd) => before.insert(lf.file_id, fd),
                None => before,
            },
            None => before,
        }
    }
}

/// The file lists as they are known: a list, when one is stored.
pub open spec fn known_lists(m: KeyedCache<FileList>) -> spec_fn(Seq<char>, u32) -> Option<FileList> {
    |g: Seq<char>, mo: u32|
        match m.lookup(g, mo as u64) {
            Some(Some(fl)) => Some(fl),
            _ => None,
        }
}

/// The per-game cache: the downloaded files, the file lists of their mods
/// by game and mod id, and the details of the downloaded files.
pub struct Cache {
    pub game: String,
    pub local_files: Vec<LocalFile>,
    pub file_list_map: KeyedCache<FileList>,
    pub file_details: FileDetailsCache,
}

impl Cache {
    /// The cache of `game` with the downloaded files `local_files` and the
    /// file lists read for their mods (`file_list_map`): each file's details
    /// are looked up in its mod's list.
    pub fn new(game: String, local_files: Vec<LocalFile>, file_list_map: KeyedCache<FileList>) -> (r: Self)
        requires
            file_list_map.well_formed(),
        ensures
            r.game == game,
            r.local_files@ == local_files@,
            r.file_list_map == file_list_map,
            r.file_details.well_formed(),
            r.file_details.files() == details_of(local_files@, known_lists(file_list_map)),
            !r.file_details.changed(),
    {
        let mut map: HashMap<u64, FileDetails> = HashMap::new();
        let mut i: usize = 0;
        while i < local_files.len()
            invariant
                i <= local_files@.len(),
                file_list_map.well_formed(),
                map@ == details_of(local_files@.take(i as int), known_lists(file_list_map)),
            decreases local_files@.len() - i,
        {
            let lf = &local_files[i];
            proof {
                assert(local_files@.take(i + 1).drop_last() =~= local_files@.take(i as int));
                assert(local_files@.take(i + 1).last() == *lf);
            }
            match stored_list(&file_list_map, lf) {
                Some(fl) => {
                    match find_details(&fl.files, lf.file_id) {
                        Some(fd) => {
                            proof {
                                let k = choose|k: int|
                                    0 <= k < fl.files@.len() && fl.files@[k] == *fd && fd.file_id == lf.file_id
                                        && forall|j: int| 0 <= j < k ==> (#[trigger] fl.files@[j]).file_id != lf.file_id;
                                lemma_first_details(fl.files@, lf.file_id, k);
                            }
                            map.insert(lf.file_id, fd.clone());
                        },
                        None => {
                            proof {
                                lemma_first_details(fl.files@, lf.file_id, fl.files@.len() as int);
                            }
                        },
                    }
                },
                None => {},
            }
            i = i + 1;
        }
        assert(local_files@.take(local_files@.len() as int) =~= local_files@);
        Cache { game, local_files, file_list_map, file_details: FileDetailsCache::new(map) }
    }

    /// Stores the file list of mod `mod_id` of `game`.
    pub fn save_file_list(&mut self, game: &str, fl: FileList, mod_id: u32)
        requires
            old(self).file_list_map.well_formed(),
        ensures
            final(self).file_list_map.well_formed(),
            forall|g: Seq<char>, m: u64|
                #[trigger] final(self).file_list_map.lookup(g, m) == if g == game@ && m == mod_id as u64 {
                    Some(Some(fl))
                } else {
                    old(self).file_list_map.lookup(g, m)
                },
            final(self).local_files == old(self).local_files,
            final(self).file_details == old(self).file_details,
    {
        self.file_list_map.insert(game.to_string(), mod_id as u64, Some(fl));
    }

    /// Whether a downloaded file of id `file_id` is already known; such a
    /// file is not saved again.
    pub fn has_local_file(&self, file_id: u64) -> (r: bool)
        ensures
            r == exists|i: int| 0 <= i < self.local_files@.len() && (#[trigger] self.local_files@[i]).file_id == file_id,
    {
        let mut i: usize = 0;
        while i < self.local_files.len()
            invariant
                i <= self.local_files@.len(),
                forall|j: int| 0 <= j < i ==> (#[trigger] self.local_files@[j]).file_id != file_id,
            decreases self.local_files@.len() - i,
        {
            if self.local_files[i].file_id == file_id {
                return true;
            }
            i = i + 1;
        }
        false
    }

    /// Takes in a newly saved downloaded file `lf`; tells whether its details
    /// are already known.
    pub fn save_local_file(&mut self, lf: LocalFile) -> (r: bool)
        requires
            old(self).file_details.well_formed(),
        ensures
            final(self).local_files@ == old(self).local_files@.push(lf),
            r == old(self).file_details.files().contains_key(lf.file_id),
            final(self).file_details == old(self).file_details,
            final(self).file_list_map == old(self).file_list_map,
    {
        let id = lf.file_id;
        self.local_files.push(lf);
        self.file_details.get(&id).is_some()
    }
}

/// The stored file list of the mod of `lf`, if there is one.
fn stored_list<'a>(m: &'a KeyedCache<FileList>, lf: &LocalFile) -> (r: Option<&'a FileList>)
    requires
        m.well_formed(),
    ensures
        match known_lists(*m)(lf.game@, lf.mod_id) {
            Some(fl) => r == Some(&fl),
            None => r is None,
        },
{
    match m.get(lf.game.as_str(), lf.mod_id as u64) {
        Some(Some(fl)) => Some(fl),
        _ => None,
    }
}

} // verus!
