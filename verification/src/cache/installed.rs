//! The mods installed in the install directory, by directory name, in load
//! order.
use super::indexed::{
    has_key, installed_entries, installed_get, installed_insert, installed_key_at, installed_len,
    installed_move_index, installed_new, installed_shift_remove, installed_swap_indices, key_index, keys_unique,
    map_get, map_insert, map_move_index, map_shift_remove, map_swap_indices,
};
use super::metadata_index::MetadataIndex;
use super::modfile_metadata::{installed_removed, put_dir, ModFileMetadata};
use crate::api::{FileDetails, ModInfo};
use crate::install::installed_mod::ModDirectory;
use indexmap::IndexMap;
use vstd::prelude::*;

verus! {

/// The load order after moving the mod at `src` to `dest`: nothing moves when
/// `src` is not a position; a `dest` past the end means the front;
/// neighbours trade places, others move with the mods in between shifting.
pub open spec fn spec_move_to_index(
    s: Seq<(Seq<char>, ModDirectory)>,
    src: int,
    dest: int,
) -> Seq<(Seq<char>, ModDirectory)> {
    if s.len() == 0 || src >= s.len() {
        s
    } else {
        let d = if dest >= s.len() {
            0
        } else {
            dest
        };
        if src - d == 1 || d - src == 1 {
            map_swap_indices(s, src, d)
        } else {
            map_move_index(s, src, d)
        }
    }
}

/// Reordering keeps the mods, each once.
proof fn lemma_reorder_keeps(s: Seq<(Seq<char>, ModDirectory)>, src: int, dest: int)
    requires
        keys_unique(s),
        0 <= src,
        0 <= dest,
    ensures
        keys_unique(spec_move_to_index(s, src, dest)),
        spec_move_to_index(s, src, dest).to_multiset() == s.to_multiset(),
        spec_move_to_index(s, src, dest).len() == s.len(),
{
    broadcast use vstd::seq_lib::group_to_multiset_ensures;

    if s.len() == 0 || src >= s.len() {
    } else {
        let d = if dest >= s.len() {
            0
        } else {
            dest
        };
        if src - d == 1 || d - src == 1 {
            let t = map_swap_indices(s, src, d);
            let u = s.update(src, s[d]);
            assert(u.to_multiset() == s.to_multiset().remove(s[src]).insert(s[d]));
            assert(t.to_multiset() == u.to_multiset().remove(u[d]).insert(s[src]));
            assert(u[d] == s[d]);
            assert forall|i: int, j: int| 0 <= i < t.len() && 0 <= j < t.len() && i != j implies t[i].0
                != t[j].0 by {
                let si = if i == src {
                    d
                } else if i == d {
                    src
                } else {
                    i
                };
                let sj = if j == src {
                    d
                } else if j == d {
                    src
                } else {
                    j
                };
                assert(t[i] == s[si]);
                assert(t[j] == s[sj]);
            }
        } else {
            let r = s.remove(src);
            let t = r.insert(d, s[src]);
            assert(t == map_move_index(s, src, d));
            assert(r.to_multiset() == s.to_multiset().remove(s[src]));
            assert(t.to_multiset() == r.to_multiset().insert(s[src]));
            assert(s.to_multiset().remove(s[src]).insert(s[src]) =~= s.to_multiset());
            assert forall|i: int, j: int| 0 <= i < t.len() && 0 <= j < t.len() && i != j implies t[i].0
                != t[j].0 by {
                let ri = if i < d {
                    i
                } else {
                    i - 1
                };
                let rj = if j < d {
                    j
                } else {
                    j - 1
                };
                let si = if i == d {
                    src
                } else if ri < src {
                    ri
                } else {
                    ri + 1
                };
                let sj = if j == d {
                    src
                } else if rj < src {
                    rj
                } else {
                    rj + 1
                };
                assert(t[i] == s[si]);
                assert(t[j] == s[sj]);
            }
        }
    }
}

/// The installed mods, by directory name, in load order.
pub struct Installed {
    pub mods: IndexMap<String, ModDirectory>,
    /// Whether the listing of installed mods has to be redrawn.
    pub has_changed: bool,
    /// Whether the listing of archives has to be redrawn.
    pub archives_has_changed: bool,
}

impl Installed {
    /// The directories and what each holds, in load order.
    pub open spec fn entries(self) -> Seq<(Seq<char>, ModDirectory)> {
        installed_entries(self.mods)
    }

    /// No directory is listed twice.
    pub open spec fn well_formed(self) -> bool {
        keys_unique(self.entries())
    }

    /// No installed mod known yet; the listing is to be drawn.
    pub fn new() -> (r: Self)
        ensures
            r.well_formed(),
            r.entries() == Seq::<(Seq<char>, ModDirectory)>::empty(),
            r.has_changed,
            !r.archives_has_changed,
    {
        Installed { mods: installed_new(), has_changed: true, archives_has_changed: false }
    }

    /// The directory `name` and what it holds, if it is listed.
    pub fn get(&self, name: &str) -> (r: Option<(String, ModDirectory)>)
        ensures
            match map_get(self.entries(), name@) {
                Some(v) => r is Some && (r->0).0@ == name@ && (r->0).1 == v,
                None => r is None,
            },
    {
        match installed_get(&self.mods, name) {
            Some(v) => Some((name.to_string(), v.clone())),
            None => None,
        }
    }

    /// Lists the directory `dir_name` holding `mod_dir`; a mod from Nexus
    /// is recorded in the metadata index, its file's record filled in from
    /// `file_details` and `mod_info`.
    pub fn add_dir(
        &mut self,
        metadata_index: &mut MetadataIndex,
        dir_name: String,
        mod_dir: ModDirectory,
        file_details: Option<FileDetails>,
        mod_info: Option<ModInfo>,
    )
        requires
            old(self).well_formed(),
            old(metadata_index).well_formed(),
        ensures
            final(self).well_formed(),
            final(metadata_index).well_formed(),
            final(self).entries() == map_insert(old(self).entries(), dir_name@, mod_dir),
            final(self).has_changed == old(self).has_changed,
            final(self).archives_has_changed == old(self).archives_has_changed,
            match mod_dir {
                ModDirectory::Nexus(im) => {
                    let m = final(metadata_index).files()[im.file_id];
                    &&& m.file_id == im.file_id
                    &&& final(metadata_index).added(
                        *old(metadata_index),
                        Some(im.installation_file@),
                        m,
                    )
                    &&& m.installed_mods@ == put_dir(
                        if old(metadata_index).files().contains_key(im.file_id) {
                            old(metadata_index).files()[im.file_id].installed_mods@
                        } else {
                            Seq::empty()
                        },
                        (dir_name, im),
                    )
                },
                _ => *final(metadata_index) == *old(metadata_index),
            },
    {
        if let ModDirectory::Nexus(im) = &mod_dir {
            metadata_index.add_installed(dir_name.clone(), im.file_id, im.clone(), file_details, mod_info);
        }
        installed_insert(&mut self.mods, dir_name, mod_dir);
    }

    /// Adds a newly installed directory, as `add_dir` does; the listing is to
    /// be redrawn.
    pub fn add(
        &mut self,
        metadata_index: &mut MetadataIndex,
        dir_name: String,
        md: ModDirectory,
        file_details: Option<FileDetails>,
        mod_info: Option<ModInfo>,
    )
        requires
            old(self).well_formed(),
            old(metadata_index).well_formed(),
        ensures
            final(self).well_formed(),
            final(metadata_index).well_formed(),
            final(self).entries() == map_insert(old(self).entries(), dir_name@, md),
            final(self).has_changed,
            final(self).archives_has_changed == old(self).archives_has_changed,
            match md {
                ModDirectory::Nexus(im) => {
                    let m = final(metadata_index).files()[im.file_id];
                    &&& m.file_id == im.file_id
                    &&& final(metadata_index).added(
                        *old(metadata_index),
                        Some(im.installation_file@),
                        m,
                    )
                    &&& m.installed_mods@ == put_dir(
                        if old(metadata_index).files().contains_key(im.file_id) {
                            old(metadata_index).files()[im.file_id].installed_mods@
                        } else {
                            Seq::empty()
                        },
                        (dir_name, im),
                    )
                },
                _ => *final(metadata_index) == *old(metadata_index),
            },
    {
        self.add_dir(metadata_index, dir_name, md, file_details, mod_info);
        self.has_changed = true;
    }

    /// Forgets the directory `dir_name`, once it has been removed from disk.
    /// For a mod from Nexus the installation leaves its file's record, which
    /// is forgotten when nothing refers to the file any more. Returns whether
    /// the directory was listed.
    pub fn delete(&mut self, metadata_index: &mut MetadataIndex, dir_name: &String) -> (r: bool)
        requires
            old(self).well_formed(),
            old(metadata_index).well_formed(),
            match map_get(old(self).entries(), dir_name@) {
                Some(ModDirectory::Nexus(im)) => old(metadata_index).files().contains_key(im.file_id),
                _ => true,
            },
        ensures
            final(self).well_formed(),
            final(metadata_index).well_formed(),
            r == (map_get(old(self).entries(), dir_name@) is Some),
            final(self).entries() == map_shift_remove(old(self).entries(), dir_name@),
            final(self).has_changed == (old(self).has_changed || r),
            match map_get(old(self).entries(), dir_name@) {
                Some(ModDirectory::Nexus(im)) => {
                    let fid = im.file_id;
                    let before = old(metadata_index).files()[fid];
                    exists|m: ModFileMetadata, archives: bool|
                        {
                            &&& installed_removed(before, m, dir_name@, archives)
                            &&& final(self).archives_has_changed == (
                            old(self).archives_has_changed || archives)
                            &&& final(metadata_index).files() == if m.installed_mods@.len() == 0
                                && m.mod_archives@.len() == 0 {
                                old(metadata_index).files().remove(fid)
                            } else {
                                old(metadata_index).files().insert(fid, m)
                            }
                        }
                },
                _ => *final(metadata_index) == *old(metadata_index) && final(self).archives_has_changed
                    == old(self).archives_has_changed,
            },
    {
        let ghost mi0 = *metadata_index;
        match installed_shift_remove(&mut self.mods, dir_name.as_str()) {
            Some(mod_dir) => {
                if let ModDirectory::Nexus(im) = mod_dir {
                    let fid = im.file_id;
                    let archives = metadata_index.remove_installed(fid, dir_name);
                    let ghost m = metadata_index.files()[fid];
                    let ghost mi1 = *metadata_index;
                    if archives {
                        self.archives_has_changed = true;
                    }
                    metadata_index.delete_if_unreferenced(fid);
                    proof {
                        assert(mi1.files().contains_key(fid));
                        if m.installed_mods@.len() == 0 && m.mod_archives@.len() == 0 {
                            assert(metadata_index.files() =~= mi0.files().remove(fid));
                        } else {
                            assert(metadata_index.files() == mi1.files());
                        }
                    }
                }
                self.has_changed = true;
                true
            },
            None => false,
        }
    }

    /// Moves the mod at position `src_index` of the load order to
    /// `dest_index`; a destination past the end means the front. Nothing
    /// happens when there is no mod at `src_index`. Returns whether the order
    /// may have changed and is to be saved.
    pub fn move_to_index(&mut self, src_index: usize, dest_index: usize) -> (r: bool)
        requires
            old(self).well_formed(),
        ensures
            final(self).well_formed(),
            final(self).entries() == spec_move_to_index(
                old(self).entries(),
                src_index as int,
                dest_index as int,
            ),
            r == (old(self).entries().len() > 0 && src_index < old(self).entries().len()),
            final(self).has_changed == (old(self).has_changed || r),
            final(self).archives_has_changed == old(self).archives_has_changed,
    {
        proof {
            lemma_reorder_keeps(self.entries(), src_index as int, dest_index as int);
        }
        let len = installed_len(&self.mods);
        if len == 0 || src_index >= len {
            return false;
        }
        let dest = if dest_index >= len {
            0
        } else {
            dest_index
        };
        let diff = if src_index > dest {
            src_index - dest
        } else {
            dest - src_index
        };
        if diff == 1 {
            installed_swap_indices(&mut self.mods, src_index, dest);
        } else {
            installed_move_index(&mut self.mods, src_index, dest);
        }
        self.has_changed = true;
        true
    }

    /// The directory names in load order.
    pub fn load_order(&self) -> (r: Vec<String>)
        ensures
            r@.len() == self.entries().len(),
            forall|i: int| 0 <= i < r@.len() ==> (#[trigger] r@[i])@ == self.entries()[i].0,
    {
        let n = installed_len(&self.mods);
        let mut r: Vec<String> = Vec::new();
        let mut i: usize = 0;
        while i < n
            invariant
                n == self.entries().len(),
                i <= n,
                r@.len() == i,
                forall|j: int| 0 <= j < i ==> (#[trigger] r@[j])@ == self.entries()[j].0,
            decreases n - i,
        {
            match installed_key_at(&self.mods, i) {
                Some(k) => r.push(k),
                None => {
                    return r;
                },
            }
            i = i + 1;
        }
        r
    }
}

/// Moving a mod in the load order keeps the installed mods, each once.
pub proof fn lemma_move_keeps_mods(before: Installed, after: Installed, src_index: usize, dest_index: usize)
    requires
        before.well_formed(),
        after.entries() == spec_move_to_index(before.entries(), src_index as int, dest_index as int),
    ensures
        after.well_formed(),
        after.entries().to_multiset() == before.entries().to_multiset(),
{
    lemma_reorder_keeps(before.entries(), src_index as int, dest_index as int);
}

/// Listing a directory under a new name and then forgetting that name leaves
/// the listing as it was, order included.
pub proof fn lemma_dir_add_then_delete_restores(
    listing: Seq<(Seq<char>, ModDirectory)>,
    name: Seq<char>,
    md: ModDirectory,
)
    requires
        keys_unique(listing),
        map_get(listing, name) is None,
    ensures
        map_shift_remove(map_insert(listing, name, md), name) == listing,
{
    let t = listing.push((name, md));
    assert(!has_key(listing, name));
    assert(map_insert(listing, name, md) == t);
    assert(t[listing.len() as int].0 == name);
    assert(has_key(t, name));
    let i = key_index(t, name);
    assert(i == listing.len()) by {
        if i < listing.len() {
            assert(t[i] == listing[i]);
        }
    }
    assert(t.remove(i) =~= listing);
}

/// Moving the mod at `src` to `dest` takes it out and puts it back at `dest`
/// (at the front when `dest` is past the end): it ends at that position and
/// every other mod keeps its order relative to the others.
pub proof fn lemma_move_is_remove_then_insert(s: Seq<(Seq<char>, ModDirectory)>, src: int, dest: int)
    requires
        0 <= src < s.len(),
        0 <= dest,
    ensures
        ({
            let d = if dest < s.len() {
                dest
            } else {
                0
            };
            &&& spec_move_to_index(s, src, dest) == s.remove(src).insert(d, s[src])
            &&& spec_move_to_index(s, src, dest)[d] == s[src]
        }),
{
    let d = if dest < s.len() {
        dest
    } else {
        0
    };
    let t = s.remove(src).insert(d, s[src]);
    if src - d == 1 || d - src == 1 {
        let w = map_swap_indices(s, src, d);
        assert(w =~= t) by {
            assert forall|i: int| 0 <= i < t.len() implies w[i] == t[i] by {
                if src < d {
                    if i < src {
                    } else if i == src {
                        assert(t[i] == s.remove(src)[i]);
                    } else if i == d {
                    } else {
                        assert(t[i] == s.remove(src)[i - 1]);
                    }
                } else {
                    if i < d {
                    } else if i == d {
                    } else if i == src {
                        assert(t[i] == s.remove(src)[i - 1]);
                    } else {
                        assert(t[i] == s.remove(src)[i - 1]);
                    }
                }
            }
        }
    }
}

} // verus!
