//! The update check of the per-game layout: a file's replacements are found by
//! searching the update history for the file reached so far, at most once more
//! than the history has entries (more searches mean the chain runs in a circle).
use super::local_file::LocalFile;
use super::path_type::{download_dir, spec_download_dir};
use crate::api::{FileList, FileUpdate};
use crate::cache::update::{at_time, sort_updates, sorted_by_upload, UpdateChain};
use crate::path::{path_join, spec_push};
use std::collections::{HashMap, HashSet};
use vstd::prelude::*;

verus! {

broadcast use vstd::std_specs::hash::group_hash_axioms;

/// The first update of the history that replaces the file `id`.
pub open spec fn first_replacing(updates: Seq<FileUpdate>, id: u64) -> Option<FileUpdate>
    decreases updates.len(),
{
    if updates.len() == 0 {
        None
    } else if updates[0].old_file_id == id {
        Some(updates[0])
    } else {
        first_replacing(updates.drop_first(), id)
    }
}

/// Following replacements from `state` for at most `steps` searches: the end
/// of the chain, or `None` when the searches run out before it.
pub open spec fn search_chain(updates: Seq<FileUpdate>, steps: nat, state: (bool, u64, Seq<char>)) -> Option<
    (bool, u64, Seq<char>),
>
    decreases steps,
{
    if steps == 0 {
        None
    } else {
        match first_replacing(updates, state.1) {
            Some(u) => search_chain(updates, (steps - 1) as nat, (true, u.new_file_id, u.new_file_name@)),
            None => Some(state),
        }
    }
}

proof fn lemma_first_replacing(updates: Seq<FileUpdate>, id: u64, i: int)
    requires
        0 <= i <= updates.len(),
        forall|j: int| 0 <= j < i ==> (#[trigger] updates[j]).old_file_id != id,
        i < updates.len() ==> updates[i].old_file_id == id,
    ensures
        first_replacing(updates, id) == if i < updates.len() {
            Some(updates[i])
        } else {
            None::<FileUpdate>
        },
    decreases updates.len(),
{
    if updates.len() > 0 && i > 0 {
        let t = updates.drop_first();
        assert(updates[0].old_file_id != id);
        assert forall|j: int| 0 <= j < i - 1 implies (#[trigger] t[j]).old_file_id != id by {
            assert(t[j] == updates[j + 1]);
        }
        if i < updates.len() {
            assert(t[i - 1] == updates[i]);
        }
        lemma_first_replacing(t, id, i - 1);
    }
}

/// The position of the first update that replaces `id`.
fn find_replacing(updates: &Vec<FileUpdate>, id: u64) -> (r: Option<usize>)
    ensures
        match r {
            Some(i) => i < updates@.len() && first_replacing(updates@, id) == Some(updates@[i as int]),
            None => first_replacing(updates@, id) is None,
        },
{
    let mut i: usize = 0;
    while i < updates.len()
        invariant
            i <= updates@.len(),
            forall|j: int| 0 <= j < i ==> (#[trigger] updates@[j]).old_file_id != id,
        decreases updates@.len() - i,
    {
        if updates[i].old_file_id == id {
            proof {
                lemma_first_replacing(updates@, id, i as int);
            }
            return Some(i);
        }
        i = i + 1;
    }
    proof {
        lemma_first_replacing(updates@, id, i as int);
    }
    None
}

/// Follows the replacements of file `file_id` named `file_name`: each step
/// takes the first update that replaces the file reached so far. Stops at the
/// end of the chain; gives `None` when the chain has not ended after one
/// search more than there are updates, that is, when it runs in a circle.
pub fn search_update_chain(file_id: u64, file_name: &String, updates: &Vec<FileUpdate>) -> (r: Option<
    UpdateChain,
>)
    ensures
        match r {
            Some(c) => search_chain(updates@, updates@.len() + 1, (false, file_id, file_name@)) == Some(
                (c.has_update, c.latest_file_id, c.latest_file_name@),
            ),
            None => search_chain(updates@, updates@.len() + 1, (false, file_id, file_name@)) is None,
        },
{
    let n = updates.len();
    let mut has_update = false;
    let mut current_id = file_id;
    let mut latest = file_name.clone();
    let mut k: usize = 0;
    while k < n
        invariant
            n == updates@.len(),
            k <= n,
            search_chain(updates@, (n + 1) as nat, (false, file_id, file_name@)) == search_chain(
                updates@,
                (n + 1 - k) as nat,
                (has_update, current_id, latest@),
            ),
        decreases n - k,
    {
        match find_replacing(updates, current_id) {
            Some(i) => {
                current_id = updates[i].new_file_id;
                latest = updates[i].new_file_name.clone();
                has_update = true;
            },
            None => {
                return Some(UpdateChain { has_update, latest_file_id: current_id, latest_file_name: latest });
            },
        }
        k = k + 1;
    }
    // The last of the `n + 1` searches: a history of `n` updates replaces a
    // file at most `n` times unless its replacements run in a circle.
    proof {
        reveal_with_fuel(search_chain, 2);
        assert((n + 1 - k) as nat == 1nat);
    }
    match find_replacing(updates, current_id) {
        Some(_) => None,
        None => Some(UpdateChain { has_update, latest_file_id: current_id, latest_file_name: latest }),
    }
}

/// Whether the file has an update: its chain ended after at least one
/// replacement, at a file that is not downloaded (`latest_exists`).
pub fn file_has_update(chain: &Option<UpdateChain>, latest_exists: bool) -> (r: bool)
    ensures
        r == match chain {
            Some(c) => c.has_update && !latest_exists,
            None => false,
        },
{
    match chain {
        Some(c) => !latest_exists && c.has_update,
        None => false,
    }
}

/// What the update check of one downloaded file needs next.
pub enum CheckStep {
    /// The check is over: whether the file has an update.
    Done(bool),
    /// The file list of the file's mod is not known: it is to be requested,
    /// stored, and handed to `check_fetched`.
    NeedFileList,
    /// The file was replaced: it has an update unless the newest file of its
    /// chain, at this path, is already downloaded.
    NeedExists(String),
}

/// `r` is what the check of `lf` gives once the update history `updates` of
/// its mod is known: the chain of replacements is searched; when it ends after
/// a replacement, the newest file's path in the download directory decides;
/// otherwise there is no update.
pub open spec fn step_after_history(
    r: CheckStep,
    lf: LocalFile,
    updates: Seq<FileUpdate>,
    data_local_dir: Seq<char>,
) -> bool {
    match search_chain(updates, updates.len() + 1, (false, lf.file_id, lf.file_name@)) {
        Some(end) => if end.0 {
            r matches CheckStep::NeedExists(p) && p@ == spec_push(
                spec_download_dir(data_local_dir, lf.game@),
                end.2,
            )
        } else {
            r == CheckStep::Done(false)
        },
        None => r == CheckStep::Done(false),
    }
}

fn check_history(lf: &LocalFile, updates: &Vec<FileUpdate>, data_local_dir: &str) -> (r: CheckStep)
    ensures
        step_after_history(r, *lf, updates@, data_local_dir@),
{
    match search_update_chain(lf.file_id, &lf.file_name, updates) {
        Some(c) => {
            if c.has_update {
                let dir = download_dir(data_local_dir, lf.game.as_str());
                CheckStep::NeedExists(path_join(dir.as_str(), c.latest_file_name.as_str()))
            } else {
                CheckStep::Done(false)
            }
        },
        None => CheckStep::Done(false),
    }
}

/// The mods found to have updates, and the file lists known, by mod id.
pub struct UpdateChecker {
    pub updatable_mods: HashSet<u32>,
    pub file_lists: HashMap<u32, FileList>,
}

impl UpdateChecker {
    /// No mod checked yet, no file list known.
    pub fn new() -> (r: Self)
        ensures
            r.updatable_mods@ == Set::<u32>::empty(),
            r.file_lists@ == Map::<u32, FileList>::empty(),
    {
        UpdateChecker { updatable_mods: HashSet::new(), file_lists: HashMap::new() }
    }

    /// No mod checked yet, with the file lists `file_lists` known.
    pub fn new_with_file_lists(file_lists: HashMap<u32, FileList>) -> (r: Self)
        ensures
            r.updatable_mods@ == Set::<u32>::empty(),
            r.file_lists@ == file_lists@,
    {
        UpdateChecker { updatable_mods: HashSet::new(), file_lists }
    }

    /// Whether mod `mod_id` was already found to have an update; its files
    /// need no further check.
    pub fn is_updatable(&self, mod_id: u32) -> (r: bool)
        ensures
            r == self.updatable_mods@.contains(mod_id),
    {
        self.updatable_mods.contains(&mod_id)
    }

    /// The update check of the downloaded file `lf`, whose download directory
    /// lies under `data_local_dir`: a file of a mod already found updatable has
    /// an update; otherwise the mod's known file list decides, and without one
    /// the list has to be requested.
    pub fn check_file(&self, lf: &LocalFile, data_local_dir: &str) -> (r: CheckStep)
        ensures
            self.updatable_mods@.contains(lf.mod_id) ==> r == CheckStep::Done(true),
            !self.updatable_mods@.contains(lf.mod_id) ==> match self.file_lists@.get(lf.mod_id) {
                Some(fl) => step_after_history(r, *lf, fl.file_updates@, data_local_dir@),
                None => r == CheckStep::NeedFileList,
            },
    {
        if self.updatable_mods.contains(&lf.mod_id) {
            return CheckStep::Done(true);
        }
        match self.file_lists.get(&lf.mod_id) {
            Some(fl) => check_history(lf, &fl.file_updates, data_local_dir),
            None => CheckStep::NeedFileList,
        }
    }

    /// The update check of `lf` with the file list `fl` just fetched for its
    /// mod: the updates are put in upload order (updates of equal time keep
    /// their order), then the history decides. The ordered list comes back too.
    pub fn check_fetched(&self, lf: &LocalFile, fl: FileList, data_local_dir: &str) -> (r: (
        CheckStep,
        FileList,
    ))
        ensures
            r.1.files == fl.files,
            sorted_by_upload(r.1.file_updates@),
            r.1.file_updates@.to_multiset() == fl.file_updates@.to_multiset(),
            forall|t: u64|
                #![trigger r.1.file_updates@.filter(at_time(t))]
                r.1.file_updates@.filter(at_time(t)) == fl.file_updates@.filter(at_time(t)),
            step_after_history(r.0, *lf, r.1.file_updates@, data_local_dir@),
    {
        let mut fl = fl;
        sort_updates(&mut fl.file_updates);
        let step = check_history(lf, &fl.file_updates, data_local_dir);
        (step, fl)
    }

    /// Records that a file of mod `mod_id` has an update.
    pub fn mark_updatable(&mut self, mod_id: u32)
        ensures
            final(self).updatable_mods@ == old(self).updatable_mods@.insert(mod_id),
            final(self).file_lists@ == old(self).file_lists@,
    {
        self.updatable_mods.insert(mod_id);
    }
}

} // verus!
