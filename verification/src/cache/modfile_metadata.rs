//! Everything known of one file of a mod: its details, the mod's
//! description, the archives of it that were downloaded and the directories it
//! was installed to.
use super::archive_files::{ArchiveFile, ArchiveMetadata, ArchiveStatus};
use super::local_file::{StatusWrapper, UpdateStatus};
use crate::api::{FileDetails, ModInfo};
use crate::install::installed_mod::InstalledMod;
use vstd::prelude::*;

verus! {

/// Everything known of one file of a mod. Install directories and archives are
/// each listed under their name, a name at most once.
pub struct ModFileMetadata {
    pub game: String,
    pub mod_id: u32,
    pub file_id: u64,
    pub file_details: Option<FileDetails>,
    pub installed_mods: Vec<(String, InstalledMod)>,
    pub mod_archives: Vec<(String, ArchiveFile)>,
    pub mod_info: Option<ModInfo>,
    pub update_status: StatusWrapper,
}

/// The names of the install directories.
pub open spec fn dir_names(d: Seq<(String, InstalledMod)>) -> Seq<Seq<char>> {
    d.map_values(|e: (String, InstalledMod)| e.0@)
}

/// Whether an archive of the list is kept under the name `name`.
pub open spec fn has_archive_named(a: Seq<(String, ArchiveFile)>, name: Seq<char>) -> bool {
    exists|i: int| 0 <= i < a.len() && (#[trigger] a[i]).0@ == name
}

/// The position of the first archive of the list kept under `name`.
pub open spec fn first_archive_named(a: Seq<(String, ArchiveFile)>, name: Seq<char>) -> int {
    choose|i: int|
        0 <= i < a.len() && (#[trigger] a[i]).0@ == name && forall|j: int|
            0 <= j < i ==> (#[trigger] a[j]).0@ != name
}

/// The archive list `a` with the archive `e.1` put in under the name `e.0`: it
/// replaces the first archive kept under that name, or is added at the end
/// when there is none.
pub open spec fn put_archive(a: Seq<(String, ArchiveFile)>, e: (String, ArchiveFile)) -> Seq<
    (String, ArchiveFile),
> {
    if has_archive_named(a, e.0@) {
        a.update(first_archive_named(a, e.0@), e)
    } else {
        a.push(e)
    }
}

/// Whether an install directory of the list has the name `name`.
pub open spec fn has_dir_named(d: Seq<(String, InstalledMod)>, name: Seq<char>) -> bool {
    exists|i: int| 0 <= i < d.len() && (#[trigger] d[i]).0@ == name
}

/// The position of the first install directory of the list named `name`.
pub open spec fn first_dir_named(d: Seq<(String, InstalledMod)>, name: Seq<char>) -> int {
    choose|i: int|
        0 <= i < d.len() && (#[trigger] d[i]).0@ == name && forall|j: int|
            0 <= j < i ==> (#[trigger] d[j]).0@ != name
}

/// The list `d` with the entry `e` put in: it replaces the first entry of its
/// name, or is added at the end when there is none.
pub open spec fn put_dir(d: Seq<(String, InstalledMod)>, e: (String, InstalledMod)) -> Seq<
    (String, InstalledMod),
> {
    if has_dir_named(d, e.0@) {
        d.update(first_dir_named(d, e.0@), e)
    } else {
        d.push(e)
    }
}

/// `after` is `before` with the installation in `dir_name` forgotten: no
/// directory of that name is left, the others stay; when none is left, every
/// archive is marked downloaded, else the archives are unchanged. `r` tells
/// whether there are archives. The file's identity, details and description
/// stay.
pub open spec fn installed_removed(
    before: ModFileMetadata,
    after: ModFileMetadata,
    dir_name: Seq<char>,
    r: bool,
) -> bool {
    &&& r == (before.mod_archives@.len() > 0)
    &&& !dir_names(after.installed_mods@).contains(dir_name)
    &&& forall|n: Seq<char>|
        n != dir_name ==> (dir_names(before.installed_mods@).contains(n) <==> dir_names(
            after.installed_mods@,
        ).contains(n))
    &&& after.installed_mods@.len() == 0 ==> all_set_to(
        before.mod_archives@,
        after.mod_archives@,
        ArchiveStatus::Downloaded,
    )
    &&& after.installed_mods@.len() > 0 ==> after.mod_archives == before.mod_archives
    &&& after.file_details == before.file_details
    &&& after.mod_info == before.mod_info
    &&& after.game == before.game
    &&& after.mod_id == before.mod_id
    &&& after.file_id == before.file_id
    &&& after.update_status == before.update_status
}

/// `after` is the archive `before` with the update status of its metadata,
/// if it has any, set to `st`.
pub open spec fn archive_status_set(before: ArchiveFile, after: ArchiveFile, st: UpdateStatus) -> bool {
    &&& after.file_name == before.file_name
    &&& after.size == before.size
    &&& after.status == before.status
    &&& match before.mod_data {
        Some(md) => after.mod_data is Some && after.mod_data->0 == (ArchiveMetadata {
            update_status: after.mod_data->0.update_status,
            ..md
        }) && after.mod_data->0.update_status.view_status() == st,
        None => after.mod_data is None,
    }
}

/// `after` is the installation `before` with its update status set to `st`.
pub open spec fn dir_status_set(
    before: (String, InstalledMod),
    after: (String, InstalledMod),
    st: UpdateStatus,
) -> bool {
    &&& after.0 == before.0
    &&& after.1 == (InstalledMod { update_status: after.1.update_status, ..before.1 })
    &&& after.1.update_status.view_status() == st
}

/// The archive list `after` is `before` with every status set to `s`.
pub open spec fn all_set_to(
    before: Seq<(String, ArchiveFile)>,
    after: Seq<(String, ArchiveFile)>,
    s: ArchiveStatus,
) -> bool {
    &&& after.len() == before.len()
    &&& forall|i: int|
        0 <= i < after.len() ==> (#[trigger] after[i]).1.status == s && after[i].0 == before[i].0
            && after[i].1.file_name == before[i].1.file_name && after[i].1.size == before[i].1.size
            && after[i].1.mod_data == before[i].1.mod_data
}

fn set_all_status(archives: &mut Vec<(String, ArchiveFile)>, s: ArchiveStatus)
    ensures
        all_set_to(old(archives)@, final(archives)@, s),
{
    let n = archives.len();
    let mut i: usize = 0;
    while i < n
        invariant
            n == archives.len(),
            n == old(archives)@.len(),
            i <= n,
            forall|j: int|
                0 <= j < n ==> (#[trigger] archives@[j]).0 == old(archives)@[j].0
                    && archives@[j].1.file_name == old(archives)@[j].1.file_name
                    && archives@[j].1.size == old(archives)@[j].1.size && archives@[j].1.mod_data
                    == old(archives)@[j].1.mod_data,
            forall|j: int| 0 <= j < i ==> (#[trigger] archives@[j]).1.status == s,
        decreases n - i,
    {
        let (name, mut a) = archives.remove(i);
        a.status = s;
        archives.insert(i, (name, a));
        i = i + 1;
    }
}

fn find_archive(archives: &Vec<(String, ArchiveFile)>, name: &String) -> (r: Option<usize>)
    ensures
        match r {
            Some(i) => i < archives@.len() && archives@[i as int].0@ == name@ && forall|j: int|
                0 <= j < i ==> (#[trigger] archives@[j]).0@ != name@,
            None => forall|j: int| 0 <= j < archives@.len() ==> (#[trigger] archives@[j]).0@ != name@,
        },
{
    let mut i: usize = 0;
    while i < archives.len()
        invariant
            i <= archives@.len(),
            forall|j: int| 0 <= j < i ==> (#[trigger] archives@[j]).0@ != name@,
        decreases archives@.len() - i,
    {
        if archives[i].0 == *name {
            return Some(i);
        }
        i = i + 1;
    }
    None
}

fn find_dir(dirs: &Vec<(String, InstalledMod)>, name: &String) -> (r: Option<usize>)
    ensures
        match r {
            Some(i) => i < dirs@.len() && dirs@[i as int].0@ == name@ && forall|j: int|
                0 <= j < i ==> (#[trigger] dirs@[j]).0@ != name@,
            None => forall|j: int| 0 <= j < dirs@.len() ==> (#[trigger] dirs@[j]).0@ != name@,
        },
{
    let mut i: usize = 0;
    while i < dirs.len()
        invariant
            i <= dirs@.len(),
            forall|j: int| 0 <= j < i ==> (#[trigger] dirs@[j]).0@ != name@,
        decreases dirs@.len() - i,
    {
        if dirs[i].0 == *name {
            return Some(i);
        }
        i = i + 1;
    }
    None
}

impl ModFileMetadata {
    /// The record of file `file_id` of mod `mod_id` of `game`, with nothing else known yet.
    pub fn new(game: String, mod_id: u32, file_id: u64) -> (r: Self)
        ensures
            r.game == game,
            r.mod_id == mod_id,
            r.file_id == file_id,
            r.file_details is None,
            r.installed_mods@.len() == 0,
            r.mod_archives@.len() == 0,
            r.mod_info is None,
            r.update_status.view_status() == UpdateStatus::UpToDate(0),
    {
        ModFileMetadata {
            game,
            mod_id,
            file_id,
            file_details: None,
            installed_mods: Vec::new(),
            mod_archives: Vec::new(),
            mod_info: None,
            update_status: StatusWrapper::new(UpdateStatus::UpToDate(0)),
        }
    }

    /// Whether the file is installed somewhere.
    pub fn is_installed(&self) -> (r: bool)
        ensures
            r == (self.installed_mods@.len() > 0),
    {
        self.installed_mods.len() > 0
    }

    /// Whether nothing refers to the file any more: it is neither installed nor downloaded.
    pub fn is_unreferenced(&self) -> (r: bool)
        ensures
            r == (self.installed_mods@.len() == 0 && self.mod_archives@.len() == 0),
    {
        self.installed_mods.len() == 0 && self.mod_archives.len() == 0
    }

    /// The file's name from its details, if known.
    pub fn name(&self) -> (r: Option<String>)
        ensures
            r == (match self.file_details {
                Some(fd) => Some(fd.name),
                None => None,
            }),
    {
        match &self.file_details {
            Some(fd) => Some(fd.name.clone()),
            None => None,
        }
    }

    /// The upload time of the file, if known.
    pub fn uploaded_timestamp(&self) -> (r: Option<u64>)
        ensures
            r == (match self.file_details {
                Some(fd) => Some(fd.uploaded_timestamp),
                None => None,
            }),
    {
        match &self.file_details {
            Some(fd) => Some(fd.uploaded_timestamp),
            None => None,
        }
    }

    /// Records the file's details.
    pub fn set_file_details(&mut self, fd: FileDetails)
        ensures
            final(self).file_details == Some(fd),
            final(self).installed_mods == old(self).installed_mods,
            final(self).mod_archives == old(self).mod_archives,
            final(self).mod_info == old(self).mod_info,
    {
        self.file_details = Some(fd);
    }

    /// The mod's name: from the mod's description when it has one, else the
    /// first install directory that recorded one.
    pub fn mod_name(&self) -> (r: Option<String>)
        ensures
            match self.mod_info {
                Some(mi) if mi.name is Some => r == mi.name,
                _ => match r {
                    Some(n) => exists|i: int|
                        0 <= i < self.installed_mods@.len() && (#[trigger] self.installed_mods@[i]).1.mod_name
                            == Some(n) && forall|j: int|
                            0 <= j < i ==> (#[trigger] self.installed_mods@[j]).1.mod_name is None,
                    None => forall|i: int|
                        0 <= i < self.installed_mods@.len() ==> (
                        #[trigger] self.installed_mods@[i]).1.mod_name is None,
                },
            },
    {
        if let Some(mi) = &self.mod_info {
            if let Some(n) = &mi.name {
                return Some(n.clone());
            }
        }
        let mut i: usize = 0;
        while i < self.installed_mods.len()
            invariant
                i <= self.installed_mods@.len(),
                match self.mod_info {
                    Some(mi) => mi.name is None,
                    None => true,
                },
                forall|j: int| 0 <= j < i ==> (#[trigger] self.installed_mods@[j]).1.mod_name is None,
            decreases self.installed_mods@.len() - i,
        {
            if let Some(n) = &self.installed_mods[i].1.mod_name {
                return Some(n.clone());
            }
            i = i + 1;
        }
        None
    }

    /// Puts `archive` in the file's archives under the name `name`, replacing
    /// the first one kept under that name.
    pub fn insert_archive(&mut self, name: String, archive: ArchiveFile)
        ensures
            final(self).mod_archives@ == put_archive(old(self).mod_archives@, (name, archive)),
            final(self).game == old(self).game,
            final(self).mod_id == old(self).mod_id,
            final(self).file_id == old(self).file_id,
            final(self).installed_mods == old(self).installed_mods,
            final(self).file_details == old(self).file_details,
            final(self).mod_info == old(self).mod_info,
            final(self).update_status == old(self).update_status,
    {
        let pos = find_archive(&self.mod_archives, &name);
        let ghost a = self.mod_archives@;
        let ghost nm = name@;
        match pos {
            Some(p) => {
                proof {
                    let k = first_archive_named(a, nm);
                    assert(has_archive_named(a, nm)) by {
                        assert(a[p as int].0@ == nm);
                    }
                    assert(k == p) by {
                        if k < p {
                            assert(a[k].0@ == nm);
                        } else if k > p {
                            assert(a[p as int].0@ != nm);
                        }
                    }
                }
                self.mod_archives.set(p, (name, archive));
            },
            None => {
                self.mod_archives.push((name, archive));
            },
        }
    }

    /// Adds an archive of the file under its own file name, replacing one kept
    /// under that name. When the file is installed, the archive is marked
    /// installed.
    pub fn add_archive(&mut self, archive: ArchiveFile)
        ensures
            final(self).mod_archives@ == put_archive(
                old(self).mod_archives@,
                (
                    archive.file_name,
                    ArchiveFile {
                        status: if old(self).installed_mods@.len() > 0 {
                            ArchiveStatus::Installed
                        } else {
                            archive.status
                        },
                        ..archive
                    },
                ),
            ),
            final(self).game == old(self).game,
            final(self).mod_id == old(self).mod_id,
            final(self).file_id == old(self).file_id,
            final(self).installed_mods == old(self).installed_mods,
            final(self).file_details == old(self).file_details,
            final(self).mod_info == old(self).mod_info,
    {
        let mut archive = archive;
        if self.installed_mods.len() > 0 {
            archive.status = ArchiveStatus::Installed;
        }
        let name = archive.file_name.clone();
        self.insert_archive(name, archive);
    }

    /// Records an installation of the file in `dir_name`; all of its archives
    /// are marked installed.
    pub fn add_installed_dir(&mut self, dir_name: String, mod_dir: InstalledMod)
        ensures
            final(self).installed_mods@ == put_dir(old(self).installed_mods@, (dir_name, mod_dir)),
            all_set_to(old(self).mod_archives@, final(self).mod_archives@, ArchiveStatus::Installed),
            final(self).file_details == old(self).file_details,
            final(self).mod_info == old(self).mod_info,
            final(self).game == old(self).game,
            final(self).mod_id == old(self).mod_id,
            final(self).file_id == old(self).file_id,
            final(self).update_status == old(self).update_status,
    {
        set_all_status(&mut self.mod_archives, ArchiveStatus::Installed);
        let pos = find_dir(&self.installed_mods, &dir_name);
        let ghost d = self.installed_mods@;
        let ghost name = dir_name@;
        if let Some(p) = pos {
            proof {
                let k = first_dir_named(d, name);
                assert(has_dir_named(d, name)) by {
                    assert(d[p as int].0@ == name);
                }
                assert(k == p) by {
                    if k < p {
                        assert(d[k].0@ == name);
                    } else if k > p {
                        assert(d[p as int].0@ != name);
                    }
                }
            }
            self.installed_mods.set(p, (dir_name, mod_dir));
        } else {
            self.installed_mods.push((dir_name, mod_dir));
        }
    }

    /// Sets the update status of the file, of the metadata of each of its
    /// archives and of each of its installations to `status`. Each record
    /// that changed is then to be saved.
    pub fn propagate_update_status(&mut self, status: UpdateStatus)
        ensures
            final(self).update_status.view_status() == status,
            final(self).mod_archives@.len() == old(self).mod_archives@.len(),
            forall|i: int|
                0 <= i < final(self).mod_archives@.len() ==> (#[trigger] final(self).mod_archives@[i]).0
                    == old(self).mod_archives@[i].0 && archive_status_set(
                    old(self).mod_archives@[i].1,
                    final(self).mod_archives@[i].1,
                    status,
                ),
            final(self).installed_mods@.len() == old(self).installed_mods@.len(),
            forall|i: int|
                0 <= i < final(self).installed_mods@.len() ==> dir_status_set(
                    old(self).installed_mods@[i],
                    #[trigger] final(self).installed_mods@[i],
                    status,
                ),
            final(self).game == old(self).game,
            final(self).mod_id == old(self).mod_id,
            final(self).file_id == old(self).file_id,
            final(self).file_details == old(self).file_details,
            final(self).mod_info == old(self).mod_info,
    {
        self.update_status.set(status.clone());
        let n = self.mod_archives.len();
        let mut i: usize = 0;
        while i < n
            invariant
                n == self.mod_archives@.len(),
                n == old(self).mod_archives@.len(),
                i <= n,
                forall|j: int|
                    0 <= j < i ==> (#[trigger] self.mod_archives@[j]).0 == old(self).mod_archives@[j].0
                        && archive_status_set(old(self).mod_archives@[j].1, self.mod_archives@[j].1, status),
                forall|j: int| i <= j < n ==> #[trigger] self.mod_archives@[j] == old(self).mod_archives@[j],
                self.installed_mods == old(self).installed_mods,
                self.update_status.view_status() == status,
                self.game == old(self).game,
                self.mod_id == old(self).mod_id,
                self.file_id == old(self).file_id,
                self.file_details == old(self).file_details,
                self.mod_info == old(self).mod_info,
            decreases n - i,
        {
            let (name, mut a) = self.mod_archives.remove(i);
            let md_opt = a.mod_data;
            a.mod_data = match md_opt {
                Some(mut md) => {
                    md.update_status.set(status.clone());
                    Some(md)
                },
                None => None,
            };
            self.mod_archives.insert(i, (name, a));
            i = i + 1;
        }
        let m = self.installed_mods.len();
        let mut k: usize = 0;
        while k < m
            invariant
                m == self.installed_mods@.len(),
                m == old(self).installed_mods@.len(),
                k <= m,
                forall|j: int|
                    0 <= j < k ==> dir_status_set(
                        old(self).installed_mods@[j],
                        #[trigger] self.installed_mods@[j],
                        status,
                    ),
                forall|j: int| k <= j < m ==> #[trigger] self.installed_mods@[j] == old(self).installed_mods@[j],
                self.mod_archives@.len() == old(self).mod_archives@.len(),
                forall|j: int|
                    0 <= j < self.mod_archives@.len() ==> (#[trigger] self.mod_archives@[j]).0 == old(
                        self,
                    ).mod_archives@[j].0 && archive_status_set(
                        old(self).mod_archives@[j].1,
                        self.mod_archives@[j].1,
                        status,
                    ),
                self.update_status.view_status() == status,
                self.game == old(self).game,
                self.mod_id == old(self).mod_id,
                self.file_id == old(self).file_id,
                self.file_details == old(self).file_details,
                self.mod_info == old(self).mod_info,
            decreases m - k,
        {
            let (dir, mut im) = self.installed_mods.remove(k);
            im.update_status.set(status.clone());
            self.installed_mods.insert(k, (dir, im));
            k = k + 1;
        }
    }

    /// Forgets the installation in `dir_name`. When no installation is left,
    /// the archives are marked downloaded. Returns whether there are archives
    /// (whose listing may then have to be redrawn).
    pub fn remove_installed(&mut self, dir_name: &String) -> (r: bool)
        ensures
            installed_removed(*old(self), *final(self), dir_name@, r),
    {
        let ghost before = self.installed_mods@;
        let mut kept: Vec<(String, InstalledMod)> = Vec::new();
        let mut rest: Vec<(String, InstalledMod)> = Vec::new();
        std::mem::swap(&mut rest, &mut self.installed_mods);
        let ghost mut taken: Seq<(String, InstalledMod)> = Seq::empty();
        // Move the entries over, one by one, leaving out the one named `dir_name`.
        while rest.len() > 0
            invariant
                taken + rest@ == before,
                forall|k: int|
                    0 <= k < kept@.len() ==> (#[trigger] dir_names(kept@)[k]) != dir_name@,
                forall|m: Seq<char>|
                    m != dir_name@ ==> (dir_names(taken).contains(m) <==> dir_names(kept@).contains(
                        m,
                    )),
            decreases rest.len(),
        {
            let ghost r0 = rest@;
            let e = rest.remove(0);
            let ghost t0 = taken;
            let ghost k0 = kept@;
            let ghost en = e.0@;
            proof {
                taken = taken.push(e);
            }
            if e.0 != *dir_name {
                kept.push(e);
                proof {
                    assert(dir_names(kept@) =~= dir_names(k0).push(en));
                }
            }
            proof {
                assert(dir_names(taken) =~= dir_names(t0).push(en));
                assert forall|m: Seq<char>| m != dir_name@ implies (dir_names(taken).contains(m)
                    <==> dir_names(kept@).contains(m)) by {
                    if m == en {
                        assert(dir_names(taken)[t0.len() as int] == m);
                        assert(dir_names(kept@)[k0.len() as int] == m);
                    } else {
                        if dir_names(taken).contains(m) {
                            let k = choose|k: int|
                                0 <= k < dir_names(taken).len() && dir_names(taken)[k] == m;
                            assert(dir_names(t0)[k] == m);
                            assert(dir_names(t0).contains(m));
                            assert(dir_names(k0).contains(m));
                            let q = choose|q: int| 0 <= q < dir_names(k0).len() && dir_names(k0)[q] == m;
                            assert(dir_names(kept@)[q] == m);
                        }
                        if dir_names(kept@).contains(m) {
                            let k = choose|k: int|
                                0 <= k < dir_names(kept@).len() && dir_names(kept@)[k] == m;
                            assert(dir_names(k0)[k] == m);
                            assert(dir_names(k0).contains(m));
                            assert(dir_names(t0).contains(m));
                            let q = choose|q: int| 0 <= q < dir_names(t0).len() && dir_names(t0)[q] == m;
                            assert(dir_names(taken)[q] == m);
                        }
                    }
                }
                assert(taken + rest@ =~= t0 + r0);
            }
        }
        assert(taken =~= before);
        self.installed_mods = kept;
        let archives_have_changed = self.mod_archives.len() > 0;
        if self.installed_mods.len() == 0 {
            set_all_status(&mut self.mod_archives, ArchiveStatus::Downloaded);
        }
        archives_have_changed
    }
}

} // verus!
