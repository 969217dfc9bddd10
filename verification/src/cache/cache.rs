//! The cache of API records and of what is known of the downloaded and
//! installed files, and how new API records are taken into it.
use super::archive_files::{ArchiveEntry, ArchiveFile, ArchiveFiles, ArchiveStatus};
use super::indexed::{map_get, map_insert, map_shift_remove};
use super::installed::Installed;
use super::modfile_metadata::{installed_removed, put_dir};
use crate::install::installed_mod::ModDirectory;
use super::file_lists::{
    filedetails_for, files_from, has_file, sort_file_list, sorted_by_id, updates_from, with_id,
    prune_file_list, FileLists,
};
use super::md5result_map::Md5ResultMap;
use super::metadata_index::MetadataIndex;
use super::modfile_metadata::ModFileMetadata;
use super::modinfo_map::ModInfoMap;
use super::update::{at_time, sorted_by_upload};
use crate::api::{FileDetails, FileList, Md5Results, ModInfo};
use crate::text::parse_u64;
use vstd::prelude::*;

verus! {

/// `after` is `before` with the details of the records of `ids` filled in from
/// `files` where they were missing and `files` has the file.
pub open spec fn details_filled(
    before: Map<u64, ModFileMetadata>,
    after: Map<u64, ModFileMetadata>,
    ids: Seq<u64>,
    files: Seq<FileDetails>,
) -> bool {
    &&& after.dom() == before.dom()
    &&& forall|k: u64| #[trigger]
        after.contains_key(k) ==> if before[k].file_details is None && ids.contains(k) && has_file(
            files,
            k,
        ) {
            exists|fd: FileDetails|
                files.contains(fd) && fd.file_id == k && after[k] == (ModFileMetadata {
                    file_details: Some(fd),
                    ..before[k]
                })
        } else {
            after[k] == before[k]
        }
}

/// `after` is `before` with the mod description of the records of `ids` set
/// to `mi` where it was missing.
pub open spec fn mod_info_filled(
    before: Map<u64, ModFileMetadata>,
    after: Map<u64, ModFileMetadata>,
    ids: Seq<u64>,
    mi: ModInfo,
) -> bool {
    &&& after.dom() == before.dom()
    &&& forall|k: u64| #[trigger]
        after.contains_key(k) ==> after[k] == if before[k].mod_info is None && ids.contains(k) {
            ModFileMetadata { mod_info: Some(mi), ..before[k] }
        } else {
            before[k]
        }
}

/// The time of the last update check, as saved: the number the file holds,
/// or 0 when there is no file or it holds no number.
pub open spec fn spec_last_updated(contents: Option<Seq<char>>) -> u64 {
    match contents {
        Some(c) => match crate::text::spec_parse_u64(c) {
            Some(t) => t,
            None => 0,
        },
        None => 0,
    }
}

/// Reads the time of the last update check from the contents of its file,
/// if the file could be read.
pub fn load_last_updated(contents: Option<&str>) -> (r: u64)
    ensures
        r == spec_last_updated(
            match contents {
                Some(c) => Some(c@),
                None => None,
            },
        ),
{
    match contents {
        Some(c) => match parse_u64(c) {
            Some(t) => t,
            None => 0,
        },
        None => 0,
    }
}

/// The earliest upload time among the records of `ids` that have details:
/// `u64::MAX` when none has.
pub open spec fn earliest_upload(files: Map<u64, ModFileMetadata>, ids: Seq<u64>) -> u64
    decreases ids.len(),
{
    if ids.len() == 0 {
        u64::MAX
    } else {
        let rest = earliest_upload(files, ids.drop_last());
        let t = if files.contains_key(ids.last()) {
            match files[ids.last()].file_details {
                Some(fd) => fd.uploaded_timestamp,
                None => u64::MAX,
            }
        } else {
            u64::MAX
        };
        if t < rest {
            t
        } else {
            rest
        }
    }
}

/// The earliest upload time among the records of `ids` that have details.
fn earliest_upload_of(index: &MetadataIndex, ids: &Vec<u64>) -> (r: u64)
    ensures
        r == earliest_upload(index.files(), ids@),
{
    let mut t: u64 = 18446744073709551615u64;
    let mut i: usize = 0;
    while i < ids.len()
        invariant
            i <= ids@.len(),
            t == earliest_upload(index.files(), ids@.take(i as int)),
        decreases ids@.len() - i,
    {
        assert(ids@.take(i + 1).drop_last() =~= ids@.take(i as int));
        let u = match index.get_by_file_id(ids[i]) {
            Some(m) => match &m.file_details {
                Some(fd) => fd.uploaded_timestamp,
                None => 18446744073709551615u64,
            },
            None => 18446744073709551615u64,
        };
        if u < t {
            t = u;
        }
        i = i + 1;
    }
    assert(ids@.take(ids@.len() as int) =~= ids@);
    t
}

/// The listing `entries` with the status of the archive file `name` set to
/// `st`, when an archive file of that name is listed.
pub open spec fn set_archive_status(
    entries: Seq<(Seq<char>, ArchiveEntry)>,
    name: Seq<char>,
    st: ArchiveStatus,
) -> Seq<(Seq<char>, ArchiveEntry)> {
    match map_get(entries, name) {
        Some(ArchiveEntry::File(a)) => map_insert(entries, name, ArchiveEntry::File(ArchiveFile { status: st, ..a })),
        _ => entries,
    }
}

/// The listing `entries` with the status of each archive file of `names` set
/// to `st`, one after the other.
pub open spec fn set_archive_statuses(
    entries: Seq<(Seq<char>, ArchiveEntry)>,
    names: Seq<Seq<char>>,
    st: ArchiveStatus,
) -> Seq<(Seq<char>, ArchiveEntry)>
    decreases names.len(),
{
    if names.len() == 0 {
        entries
    } else {
        set_archive_status(set_archive_statuses(entries, names.drop_last(), st), names.last(), st)
    }
}

/// The file names of the archives of a record, in its order.
pub open spec fn record_archive_names(m: ModFileMetadata) -> Seq<Seq<char>> {
    m.mod_archives@.map_values(|e: (String, ArchiveFile)| e.1.file_name@)
}

/// The API records read so far and what is known of the mod files.
pub struct Cache {
    pub archives: ArchiveFiles,
    pub installed: Installed,
    pub file_lists: FileLists,
    pub metadata_index: MetadataIndex,
    pub md5result: Md5ResultMap,
    pub mod_info: ModInfoMap,
    pub last_update_check: u64,
}

impl Cache {
    /// Every part is well formed.
    pub open spec fn well_formed(self) -> bool {
        &&& self.file_lists.well_formed()
        &&& self.metadata_index.well_formed()
        &&& self.md5result.well_formed()
        &&& self.mod_info.well_formed()
        &&& self.archives.well_formed()
        &&& self.installed.well_formed()
    }

    /// An empty cache, with the last update check at `last_update_check`:
    /// nothing read from the API, no archive, no installed mod.
    pub fn new(last_update_check: u64) -> (r: Self)
        ensures
            r.well_formed(),
            r.last_update_check == last_update_check,
            r.metadata_index.files() == Map::<u64, ModFileMetadata>::empty(),
            r.archives.entries().len() == 0,
            r.installed.entries().len() == 0,
            forall|g: Seq<char>, m: u32| #[trigger] r.file_lists.lookup(g, m) is None,
            forall|g: Seq<char>, m: u32| #[trigger] r.mod_info.lookup(g, m) is None,
            forall|g: Seq<char>, f: u64| #[trigger] r.md5result.lookup(g, f) is None,
    {
        Cache {
            archives: ArchiveFiles::new(),
            installed: Installed::new(),
            file_lists: FileLists::new(),
            metadata_index: MetadataIndex::new(),
            md5result: Md5ResultMap::new(),
            mod_info: ModInfoMap::new(),
            last_update_check,
        }
    }

    /// Sets, in the listing of archives, the status of every archive of the
    /// record of `file_id` to `st`; nothing when there is no such record.
    fn set_record_archives(&mut self, file_id: u64, st: ArchiveStatus)
        requires
            old(self).well_formed(),
        ensures
            final(self).well_formed(),
            final(self).archives.entries() == if old(self).metadata_index.files().contains_key(file_id) {
                set_archive_statuses(
                    old(self).archives.entries(),
                    record_archive_names(old(self).metadata_index.files()[file_id]),
                    st,
                )
            } else {
                old(self).archives.entries()
            },
            final(self).archives.has_changed == (old(self).archives.has_changed || (
            old(self).metadata_index.files().contains_key(file_id) && old(
                self,
            ).metadata_index.files()[file_id].mod_archives@.len() > 0)),
            final(self).metadata_index == old(self).metadata_index,
            final(self).installed == old(self).installed,
            final(self).file_lists == old(self).file_lists,
            final(self).mod_info == old(self).mod_info,
            final(self).md5result == old(self).md5result,
            final(self).last_update_check == old(self).last_update_check,
    {
        let mut names: Vec<String> = Vec::new();
        match self.metadata_index.get_by_file_id(file_id) {
            Some(m) => {
                let mut k: usize = 0;
                while k < m.mod_archives.len()
                    invariant
                        k <= m.mod_archives@.len(),
                        names@.len() == k,
                        forall|j: int| 0 <= j < k ==> #[trigger] names@[j]@ == m.mod_archives@[j].1.file_name@,
                    decreases m.mod_archives@.len() - k,
                {
                    names.push(m.mod_archives[k].1.file_name.clone());
                    k = k + 1;
                }
            },
            None => {},
        }
        let ghost all_names: Seq<Seq<char>> = names@.map_values(|n: String| n@);
        proof {
            if self.metadata_index.files().contains_key(file_id) {
                assert(all_names =~= record_archive_names(self.metadata_index.files()[file_id]));
            } else {
                assert(all_names =~= Seq::<Seq<char>>::empty());
            }
        }
        let ghost start = self.archives.entries();
        let mut i: usize = 0;
        while i < names.len()
            invariant
                i <= names@.len(),
                all_names == names@.map_values(|n: String| n@),
                self.archives.well_formed(),
                self.archives.entries() == set_archive_statuses(start, all_names.take(i as int), st),
                self.archives.has_changed == (old(self).archives.has_changed || i > 0),
                self.metadata_index == old(self).metadata_index,
                self.installed == old(self).installed,
                self.file_lists == old(self).file_lists,
                self.mod_info == old(self).mod_info,
                self.md5result == old(self).md5result,
                self.last_update_check == old(self).last_update_check,
            decreases names@.len() - i,
        {
            proof {
                assert(all_names.take(i + 1).drop_last() =~= all_names.take(i as int));
                assert(all_names.take(i + 1).last() == names@[i as int]@);
            }
            self.archives.set_status(names[i].as_str(), st);
            i = i + 1;
        }
        proof {
            assert(all_names.take(names@.len() as int) =~= all_names);
        }
    }

    /// Lists the directory `dir_name` holding `md` as `Installed::add` does;
    /// for a mod from Nexus, every archive of its file is also marked
    /// installed in the listing of archives.
    pub fn add_installed_dir(
        &mut self,
        dir_name: String,
        md: ModDirectory,
        file_details: Option<FileDetails>,
        mod_info: Option<ModInfo>,
    )
        requires
            old(self).well_formed(),
        ensures
            final(self).well_formed(),
            final(self).installed.entries() == map_insert(old(self).installed.entries(), dir_name@, md),
            final(self).installed.has_changed,
            old(self).archives.has_changed ==> final(self).archives.has_changed,
            match md {
                ModDirectory::Nexus(im) => {
                    let m = final(self).metadata_index.files()[im.file_id];
                    &&& m.file_id == im.file_id
                    &&& final(self).metadata_index.added(
                        old(self).metadata_index,
                        Some(im.installation_file@),
                        m,
                    )
                    &&& m.installed_mods@ == put_dir(
                        if old(self).metadata_index.files().contains_key(im.file_id) {
                            old(self).metadata_index.files()[im.file_id].installed_mods@
                        } else {
                            Seq::empty()
                        },
                        (dir_name, im),
                    )
                    &&& final(self).archives.entries() == set_archive_statuses(
                        old(self).archives.entries(),
                        record_archive_names(m),
                        ArchiveStatus::Installed,
                    )
                },
                _ => final(self).metadata_index == old(self).metadata_index && final(self).archives
                    == old(self).archives,
            },
            final(self).file_lists == old(self).file_lists,
            final(self).mod_info == old(self).mod_info,
            final(self).md5result == old(self).md5result,
            final(self).last_update_check == old(self).last_update_check,
    {
        let fid = match &md {
            ModDirectory::Nexus(im) => Some(im.file_id),
            _ => None,
        };
        self.installed.add(&mut self.metadata_index, dir_name, md, file_details, mod_info);
        if let Some(f) = fid {
            self.set_record_archives(f, ArchiveStatus::Installed);
        }
    }

    /// Forgets the installed directory `dir_name` as `Installed::delete`
    /// does; when the file it held is then installed nowhere, every archive
    /// of that file is marked downloaded in the listing of archives. Returns
    /// whether the directory was listed.
    pub fn delete_installed_dir(&mut self, dir_name: &String) -> (r: bool)
        requires
            old(self).well_formed(),
            match map_get(old(self).installed.entries(), dir_name@) {
                Some(ModDirectory::Nexus(im)) => old(self).metadata_index.files().contains_key(im.file_id),
                _ => true,
            },
        ensures
            final(self).well_formed(),
            r == (map_get(old(self).installed.entries(), dir_name@) is Some),
            final(self).installed.entries() == map_shift_remove(old(self).installed.entries(), dir_name@),
            match map_get(old(self).installed.entries(), dir_name@) {
                Some(ModDirectory::Nexus(im)) => {
                    let fid = im.file_id;
                    let before = old(self).metadata_index.files()[fid];
                    exists|m: ModFileMetadata, archives: bool|
                        {
                            &&& installed_removed(before, m, dir_name@, archives)
                            &&& final(self).metadata_index.files() == if m.installed_mods@.len() == 0
                                && m.mod_archives@.len() == 0 {
                                old(self).metadata_index.files().remove(fid)
                            } else {
                                old(self).metadata_index.files().insert(fid, m)
                            }
                            &&& final(self).archives.entries() == if m.installed_mods@.len() == 0 {
                                set_archive_statuses(
                                    old(self).archives.entries(),
                                    record_archive_names(m),
                                    ArchiveStatus::Downloaded,
                                )
                            } else {
                                old(self).archives.entries()
                            }
                        }
                },
                _ => final(self).metadata_index == old(self).metadata_index && final(self).archives.entries()
                    == old(self).archives.entries(),
            },
            final(self).file_lists == old(self).file_lists,
            final(self).mod_info == old(self).mod_info,
            final(self).md5result == old(self).md5result,
            final(self).last_update_check == old(self).last_update_check,
    {
        let fid = match self.installed.get(dir_name.as_str()) {
            Some((_, ModDirectory::Nexus(im))) => Some(im.file_id),
            _ => None,
        };
        let r = self.installed.delete(&mut self.metadata_index, dir_name);
        if let Some(f) = fid {
            let still_installed = match self.metadata_index.get_by_file_id(f) {
                Some(m) => m.installed_mods.len() > 0,
                None => true,
            };
            if !still_installed {
                self.set_record_archives(f, ArchiveStatus::Downloaded);
            }
        }
        r
    }

    /// Fills in the missing details of the records of `ids` from `files`.
    fn fill_details(&mut self, ids: &Vec<u64>, files: &Vec<FileDetails>)
        requires
            old(self).well_formed(),
            sorted_by_id(files@),
        ensures
            final(self).well_formed(),
            details_filled(old(self).metadata_index.files(), final(self).metadata_index.files(), ids@, files@),
            forall|n: Seq<char>| #[trigger] final(self).metadata_index.archive_file_id(n)
                == old(self).metadata_index.archive_file_id(n),
            forall|g: Seq<char>, mo: u32| #[trigger] final(self).metadata_index.modfiles(g, mo)
                == old(self).metadata_index.modfiles(g, mo),
            final(self).file_lists == old(self).file_lists,
            final(self).mod_info == old(self).mod_info,
            final(self).md5result == old(self).md5result,
            final(self).last_update_check == old(self).last_update_check,
            final(self).archives == old(self).archives,
            final(self).installed == old(self).installed,
    {
        let ghost start = self.metadata_index.files();
        let mut i: usize = 0;
        while i < ids.len()
            invariant
                i <= ids@.len(),
                sorted_by_id(files@),
                self.archives == old(self).archives,
                self.installed == old(self).installed,
                self.well_formed(),
                details_filled(start, self.metadata_index.files(), ids@.take(i as int), files@),
                forall|n: Seq<char>| #[trigger] self.metadata_index.archive_file_id(n)
                    == old(self).metadata_index.archive_file_id(n),
                forall|g: Seq<char>, mo: u32| #[trigger] self.metadata_index.modfiles(g, mo)
                    == old(self).metadata_index.modfiles(g, mo),
                self.file_lists == old(self).file_lists,
                self.mod_info == old(self).mod_info,
                self.md5result == old(self).md5result,
                self.last_update_check == old(self).last_update_check,
                start == old(self).metadata_index.files(),
            decreases ids@.len() - i,
        {
            let id = ids[i];
            let ghost cur = self.metadata_index.files();
            let ghost prefix = ids@.take(i as int);
            let ghost next = ids@.take(i + 1);
            proof {
                assert(next =~= prefix.push(id));
            }
            match filedetails_for(files, id) {
                Some(fd) => {
                    let ghost f = *fd;
                    self.metadata_index.fill_file_details(id, fd.clone());
                    proof {
                        let after = self.metadata_index.files();
                        assert(after.dom() =~= start.dom());
                        assert forall|k: u64| #[trigger] after.contains_key(k) implies if start[k].file_details
                            is None && next.contains(k) && has_file(files@, k) {
                            exists|fd2: FileDetails|
                                files@.contains(fd2) && fd2.file_id == k && after[k] == (ModFileMetadata {
                                    file_details: Some(fd2),
                                    ..start[k]
                                })
                        } else {
                            after[k] == start[k]
                        } by {
                            assert(cur.contains_key(k));
                            if k == id {
                                if start[k].file_details is None {
                                    if prefix.contains(k) && has_file(files@, k) {
                                        assert(cur[k].file_details is Some);
                                        assert(after[k] == cur[k]);
                                    } else {
                                        assert(cur[k] == start[k]);
                                        assert(after[k] == (ModFileMetadata {
                                            file_details: Some(f),
                                            ..start[k]
                                        }));
                                        assert(next[i as int] == k);
                                    }
                                } else {
                                    assert(cur[k].file_details is Some);
                                    assert(after[k] == cur[k]);
                                }
                            } else {
                                assert(after[k] == cur[k]);
                                if next.contains(k) {
                                    let j = choose|j: int| 0 <= j < next.len() && next[j] == k;
                                    assert(prefix[j] == k);
                                }
                            }
                        }
                    }
                },
                None => {
                    proof {
                        let after = self.metadata_index.files();
                        assert(after.dom() =~= start.dom());
                        assert forall|k: u64| #[trigger] after.contains_key(k) implies if start[k].file_details
                            is None && next.contains(k) && has_file(files@, k) {
                            exists|fd2: FileDetails|
                                files@.contains(fd2) && fd2.file_id == k && after[k] == (ModFileMetadata {
                                    file_details: Some(fd2),
                                    ..start[k]
                                })
                        } else {
                            after[k] == start[k]
                        } by {
                            if k != id && next.contains(k) {
                                let j = choose|j: int| 0 <= j < next.len() && next[j] == k;
                                assert(prefix[j] == k);
                            }
                        }
                    }
                },
            }
            i = i + 1;
        }
        proof {
            assert(ids@.take(ids@.len() as int) =~= ids@);
        }
    }

    /// Takes in the file list of mod `mod_id` of `game` fetched from the API:
    /// puts it in order, fills in the missing details of the mod's downloaded
    /// files from it, and, when the mod has downloaded files, trims it to the
    /// files not older than the oldest of them and drops the updates uploaded
    /// before the earliest of them (by the details now known of them). The list
    /// is stored and returned.
    pub fn save_file_list(&mut self, fl: FileList, game: &str, mod_id: u32) -> (r: FileList)
        requires
            old(self).well_formed(),
            match old(self).metadata_index.modfiles(game@, mod_id) {
                Some(s) => s.len() > 0,
                None => true,
            },
        ensures
            final(self).well_formed(),
            sorted_by_id(r.files@),
            sorted_by_upload(r.file_updates@),
            exists|files: Seq<FileDetails>, updates: Seq<crate::api::FileUpdate>| {
                &&& files.to_multiset() == fl.files@.to_multiset()
                &&& sorted_by_id(files)
                &&& updates.to_multiset() == fl.file_updates@.to_multiset()
                &&& sorted_by_upload(updates)
                &&& forall|id: u64|
                    #![trigger files.filter(with_id(id))]
                    files.filter(with_id(id)) == fl.files@.filter(with_id(id))
                &&& forall|t: u64|
                    #![trigger updates.filter(at_time(t))]
                    updates.filter(at_time(t)) == fl.file_updates@.filter(at_time(t))
                &&& match old(self).metadata_index.modfiles(game@, mod_id) {
                    Some(ids) => {
                        &&& r.files@ == files_from(files, ids[0])
                        &&& r.file_updates@ == updates_from(
                            updates,
                            earliest_upload(final(self).metadata_index.files(), ids),
                        )
                        &&& details_filled(
                            old(self).metadata_index.files(),
                            final(self).metadata_index.files(),
                            ids,
                            files,
                        )
                    },
                    None => {
                        &&& r.files@ == files
                        &&& r.file_updates@ == updates
                        &&& final(self).metadata_index.files() == old(self).metadata_index.files()
                    },
                }
            },
            forall|n: Seq<char>| #[trigger] final(self).metadata_index.archive_file_id(n)
                == old(self).metadata_index.archive_file_id(n),
            forall|g: Seq<char>, mo: u32| #[trigger] final(self).metadata_index.modfiles(g, mo)
                == old(self).metadata_index.modfiles(g, mo),
            forall|g: Seq<char>, m: u32|
                #[trigger] final(self).file_lists.lookup(g, m) == if g == game@ && m == mod_id {
                    Some(Some(final(self).file_lists.lookup(g, m)->0->0))
                } else {
                    old(self).file_lists.lookup(g, m)
                },
            ({
                let stored = final(self).file_lists.lookup(game@, mod_id)->0->0;
                stored.files@ == r.files@ && stored.file_updates@ == r.file_updates@
            }),
            final(self).mod_info == old(self).mod_info,
            final(self).md5result == old(self).md5result,
            final(self).last_update_check == old(self).last_update_check,
            final(self).archives == old(self).archives,
            final(self).installed == old(self).installed,
    {
        let mut fl = fl;
        sort_file_list(&mut fl);
        let ghost files = fl.files@;
        let ghost updates = fl.file_updates@;
        match self.metadata_index.get_modfiles(game, mod_id) {
            Some(ids) => {
                self.fill_details(&ids, &fl.files);
                let oldest = ids[0];
                let earliest = earliest_upload_of(&self.metadata_index, &ids);
                prune_file_list(&mut fl, oldest, earliest);
            },
            None => {},
        }
        let stored = fl.clone();
        self.file_lists.insert(game.to_string(), mod_id, stored);
        fl
    }

    /// Takes in the description of a mod fetched from the API: the mod's
    /// downloaded files that lack one get it, and it is stored.
    pub fn save_modinfo(&mut self, mi: ModInfo)
        requires
            old(self).well_formed(),
        ensures
            final(self).well_formed(),
            mod_info_filled(
                old(self).metadata_index.files(),
                final(self).metadata_index.files(),
                match old(self).metadata_index.modfiles(mi.domain_name@, mi.mod_id) {
                    Some(ids) => ids,
                    None => Seq::empty(),
                },
                mi,
            ),
            forall|n: Seq<char>| #[trigger] final(self).metadata_index.archive_file_id(n)
                == old(self).metadata_index.archive_file_id(n),
            forall|g: Seq<char>, mo: u32| #[trigger] final(self).metadata_index.modfiles(g, mo)
                == old(self).metadata_index.modfiles(g, mo),
            forall|g: Seq<char>, m: u32|
                #[trigger] final(self).mod_info.lookup(g, m) == if g == mi.domain_name@ && m
                    == mi.mod_id {
                    Some(Some(mi))
                } else {
                    old(self).mod_info.lookup(g, m)
                },
            final(self).file_lists == old(self).file_lists,
            final(self).md5result == old(self).md5result,
            final(self).last_update_check == old(self).last_update_check,
            final(self).archives == old(self).archives,
            final(self).installed == old(self).installed,
    {
        let ghost start = self.metadata_index.files();
        let ids = match self.metadata_index.get_modfiles(mi.domain_name.as_str(), mi.mod_id) {
            Some(ids) => ids,
            None => Vec::new(),
        };
        let mut i: usize = 0;
        while i < ids.len()
            invariant
                i <= ids@.len(),
                self.well_formed(),
                mod_info_filled(start, self.metadata_index.files(), ids@.take(i as int), mi),
                forall|n: Seq<char>| #[trigger] self.metadata_index.archive_file_id(n)
                    == old(self).metadata_index.archive_file_id(n),
                forall|g: Seq<char>, mo: u32| #[trigger] self.metadata_index.modfiles(g, mo)
                    == old(self).metadata_index.modfiles(g, mo),
                self.file_lists == old(self).file_lists,
                self.mod_info == old(self).mod_info,
                self.md5result == old(self).md5result,
                self.last_update_check == old(self).last_update_check,
                self.archives == old(self).archives,
                self.installed == old(self).installed,
                start == old(self).metadata_index.files(),
            decreases ids@.len() - i,
        {
            let id = ids[i];
            let ghost cur = self.metadata_index.files();
            let ghost prefix = ids@.take(i as int);
            let ghost next = ids@.take(i + 1);
            proof {
                assert(next =~= prefix.push(id));
            }
            self.metadata_index.fill_mod_info(id, mi.clone());
            proof {
                let after = self.metadata_index.files();
                assert(after.dom() =~= start.dom());
                assert forall|k: u64| #[trigger] after.contains_key(k) implies after[k] == if start[k].mod_info
                    is None && next.contains(k) {
                    ModFileMetadata { mod_info: Some(mi), ..start[k] }
                } else {
                    start[k]
                } by {
                    assert(cur.contains_key(k));
                    if k == id {
                        assert(next[i as int] == k);
                        if start[k].mod_info is None && prefix.contains(k) {
                            assert(cur[k].mod_info is Some);
                        }
                    } else if next.contains(k) {
                        let j = choose|j: int| 0 <= j < next.len() && next[j] == k;
                        assert(prefix[j] == k);
                    }
                }
            }
            i = i + 1;
        }
        proof {
            assert(ids@.take(ids@.len() as int) =~= ids@);
        }
        self.mod_info.insert(mi);
    }

    /// Takes in the result of an md5 lookup fetched from the API: its mod
    /// description is taken in as by `save_modinfo`, and the result is stored
    /// under the mod's game and the file's id.
    pub fn save_md5result(&mut self, res: Md5Results)
        requires
            old(self).well_formed(),
        ensures
            final(self).well_formed(),
            forall|g: Seq<char>, f: u64|
                #[trigger] final(self).md5result.lookup(g, f) == if g == res.mod_info.domain_name@
                    && f == res.file_details.file_id {
                    Some(Some(res))
                } else {
                    old(self).md5result.lookup(g, f)
                },
            forall|g: Seq<char>, m: u32|
                #[trigger] final(self).mod_info.lookup(g, m) == if g == res.mod_info.domain_name@ && m
                    == res.mod_info.mod_id {
                    Some(Some(res.mod_info))
                } else {
                    old(self).mod_info.lookup(g, m)
                },
            final(self).file_lists == old(self).file_lists,
            final(self).last_update_check == old(self).last_update_check,
            final(self).archives == old(self).archives,
            final(self).installed == old(self).installed,
    {
        self.save_modinfo(res.mod_info.clone());
        let game = res.mod_info.domain_name.clone();
        self.md5result.insert(game, res);
    }

    /// Records the time of the last update check; returns the text to write
    /// to its file, which `load_last_updated` reads back as `time`.
    pub fn save_last_updated(&mut self, time: u64) -> (r: String)
        ensures
            r@ == crate::text::decimal(time as nat),
            spec_last_updated(Some(r@)) == time,
            final(self).last_update_check == time,
            final(self).file_lists == old(self).file_lists,
            final(self).metadata_index == old(self).metadata_index,
            final(self).mod_info == old(self).mod_info,
            final(self).md5result == old(self).md5result,
            final(self).archives == old(self).archives,
            final(self).installed == old(self).installed,
    {
        self.last_update_check = time;
        proof {
            crate::text::lemma_parse_decimal(time);
        }
        crate::text::u64_to_string(time)
    }
}

/// The time saved as the text of the last update check is the time read
/// back from that text.
pub proof fn lemma_last_updated_round_trip(time: u64)
    ensures
        spec_last_updated(Some(crate::text::decimal(time as nat))) == time,
{
    crate::text::lemma_parse_decimal(time);
}

} // verus!
