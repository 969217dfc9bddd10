//! The archives in the download directory: their metadata, their install
//! state, and how the entries of the directory are sorted into archives and
//! metadata files.
use super::local_file::{StatusWrapper, UpdateStatus};
use crate::api::FileInfo;
use super::indexed::{
    archive_entries, has_key, key_index, archives_get, archives_insert, archives_new, archives_swap_remove, keys_unique,
    map_get, map_insert, map_swap_remove,
};
use super::metadata_index::MetadataIndex;
use crate::api::{FileDetails, ModInfo};
use indexmap::IndexMap;
use super::installed::Installed;
use crate::path::{file_name, spec_file_name};
use crate::text::{ends_with, str_eq};
use vstd::prelude::*;

verus! {

/// The metadata kept beside an archive: what file of which mod it is, and its update status.
pub struct ArchiveMetadata {
    pub file_name: String,
    pub game: String,
    pub mod_id: u32,
    pub file_id: u64,
    pub update_status: StatusWrapper,
}

impl ArchiveMetadata {
    /// The metadata of the file described by `fi`, with `update_status`.
    pub fn new(fi: FileInfo, update_status: UpdateStatus) -> (r: Self)
        ensures
            r.game == fi.game,
            r.file_name == fi.file_name,
            r.mod_id == fi.mod_id,
            r.file_id == fi.file_id,
            r.update_status.view_status() == update_status,
    {
        ArchiveMetadata {
            game: fi.game,
            file_name: fi.file_name,
            mod_id: fi.mod_id,
            file_id: fi.file_id,
            update_status: StatusWrapper::new(update_status),
        }
    }
}

impl Clone for ArchiveMetadata {
    fn clone(&self) -> (r: Self)
        ensures
            r == *self,
    {
        ArchiveMetadata {
            file_name: self.file_name.clone(),
            game: self.game.clone(),
            mod_id: self.mod_id,
            file_id: self.file_id,
            update_status: self.update_status.clone(),
        }
    }
}

/// Where an archive stands with respect to installation.
#[derive(PartialEq, Eq, Structural, Debug, Clone, Copy)]
pub enum ArchiveStatus {
    Downloaded,
    Extracting,
    Error,
    Installed,
}

/// The text shown for a status.
pub open spec fn status_text(s: ArchiveStatus) -> Seq<char> {
    match s {
        ArchiveStatus::Downloaded => ""@,
        ArchiveStatus::Extracting => "Extracting..."@,
        ArchiveStatus::Error => "Error"@,
        ArchiveStatus::Installed => "Installed"@,
    }
}

impl ArchiveStatus {
    /// The text shown for the status; a downloaded archive shows nothing.
    pub fn as_str(&self) -> (r: &'static str)
        ensures
            r@ == status_text(*self),
    {
        match self {
            ArchiveStatus::Downloaded => "",
            ArchiveStatus::Extracting => "Extracting...",
            ArchiveStatus::Error => "Error",
            ArchiveStatus::Installed => "Installed",
        }
    }
}

/// An archive in the download directory.
pub struct ArchiveFile {
    pub file_name: String,
    pub size: u64,
    pub mod_data: Option<ArchiveMetadata>,
    pub status: ArchiveStatus,
}

/// The status that an archive starts with: installed when it has metadata and
/// the installed mods hold an entry of its name, else downloaded.
pub open spec fn initial_status(has_metadata: bool, installed: bool) -> ArchiveStatus {
    if has_metadata && installed {
        ArchiveStatus::Installed
    } else {
        ArchiveStatus::Downloaded
    }
}

impl ArchiveFile {
    /// The archive at `path`, of `size` bytes, with its metadata if any. It
    /// is installed when it has metadata and `installed` lists a directory
    /// under the metadata's file name.
    pub fn new(installed: &Installed, path: &str, size: u64, mod_data: Option<ArchiveMetadata>) -> (r:
        Self)
        requires
            spec_file_name(path@) is Some,
        ensures
            r.file_name@ == spec_file_name(path@)->0,
            r.size == size,
            r.mod_data == mod_data,
            r.status == initial_status(
                mod_data is Some,
                match mod_data {
                    Some(md) => map_get(installed.entries(), md.file_name@) is Some,
                    None => false,
                },
            ),
    {
        let name = match file_name(path) {
            Some(n) => n,
            None => String::new(),
        };
        let status = match &mod_data {
            Some(md) => match installed.get(md.file_name.as_str()) {
                Some(_) => ArchiveStatus::Installed,
                None => ArchiveStatus::Downloaded,
            },
            None => ArchiveStatus::Downloaded,
        };
        ArchiveFile { file_name: name, size, mod_data, status }
    }
}

impl Clone for ArchiveFile {
    fn clone(&self) -> (r: Self)
        ensures
            r == *self,
    {
        ArchiveFile {
            file_name: self.file_name.clone(),
            size: self.size,
            mod_data: match &self.mod_data {
                Some(md) => Some(md.clone()),
                None => None,
            },
            status: self.status,
        }
    }
}

/// An entry of the archive list: an archive file, or metadata whose archive is gone.
pub enum ArchiveEntry {
    File(ArchiveFile),
    MetadataOnly(ArchiveMetadata),
}

impl Clone for ArchiveEntry {
    fn clone(&self) -> (r: Self)
        ensures
            r == *self,
    {
        match self {
            ArchiveEntry::File(a) => ArchiveEntry::File(a.clone()),
            ArchiveEntry::MetadataOnly(md) => ArchiveEntry::MetadataOnly(md.clone()),
        }
    }
}

impl ArchiveEntry {
    /// The name under which the entry is listed.
    pub open spec fn spec_file_name(self) -> String {
        match self {
            ArchiveEntry::File(archive) => archive.file_name,
            ArchiveEntry::MetadataOnly(metadata) => metadata.file_name,
        }
    }

    /// The name under which the entry is listed.
    pub fn file_name(&self) -> (r: &String)
        ensures
            *r == self.spec_file_name(),
    {
        match self {
            ArchiveEntry::File(archive) => &archive.file_name,
            ArchiveEntry::MetadataOnly(metadata) => &metadata.file_name,
        }
    }

    /// The metadata of the entry, if it has any.
    pub open spec fn spec_metadata(self) -> Option<ArchiveMetadata> {
        match self {
            ArchiveEntry::File(archive) => archive.mod_data,
            ArchiveEntry::MetadataOnly(metadata) => Some(metadata),
        }
    }

    /// The metadata of the entry, if it has any.
    pub fn metadata(&self) -> (r: Option<&ArchiveMetadata>)
        ensures
            match self.spec_metadata() {
                Some(md) => r == Some(&md),
                None => r is None,
            },
    {
        match self {
            ArchiveEntry::File(archive) => match &archive.mod_data {
                Some(md) => Some(md),
                None => None,
            },
            ArchiveEntry::MetadataOnly(metadata) => Some(metadata),
        }
    }
}

/// The extension of a file name as `Path::extension` gives it: the text after
/// the last `.`, unless there is no `.`, the only `.` starts the name, or the
/// name is `..`.
pub open spec fn spec_extension(name: Seq<char>) -> Option<Seq<char>> {
    if name == seq!['.', '.'] {
        None
    } else if exists|i: int| 0 < i < name.len() && name[i] == '.' {
        let i = choose|i: int|
            0 < i < name.len() && name[i] == '.' && forall|j: int| i < j < name.len() ==> name[j] != '.';
        Some(name.skip(i + 1))
    } else {
        None
    }
}

/// The position of the last `.` after the first character, if any.
fn last_dot(name: &Vec<char>) -> (r: Option<usize>)
    ensures
        match r {
            Some(i) => 0 < i < name.len() && name@[i as int] == '.' && forall|j: int|
                i < j < name.len() ==> name@[j] != '.',
            None => forall|j: int| 0 < j < name.len() ==> name@[j] != '.',
        },
{
    let mut i: usize = name.len();
    while i > 1
        invariant
            i <= name.len(),
            forall|j: int| i <= j < name.len() ==> name@[j] != '.',
        decreases i,
    {
        if name[i - 1] == '.' {
            return Some(i - 1);
        }
        i = i - 1;
    }
    None
}

/// The extension of a file name, as `Path::extension` gives it.
pub fn extension(name: &str) -> (r: Option<String>)
    ensures
        match r {
            Some(e) => spec_extension(name@) == Some(e@),
            None => spec_extension(name@) is None,
        },
{
    let v = crate::path::chars_of(name);
    if v.len() == 2 && v[0] == '.' && v[1] == '.' {
        assert(name@ =~= seq!['.', '.']);
        return None;
    }
    match last_dot(&v) {
        None => None,
        Some(i) => {
            let mut e = String::new();
            let mut j: usize = i + 1;
            while j < v.len()
                invariant
                    i < j <= v.len(),
                    e@ == v@.subrange(i + 1, j as int),
                decreases v.len() - j,
            {
                crate::text::push_char(&mut e, v[j]);
                j = j + 1;
                assert(e@ =~= v@.subrange(i + 1, j as int));
            }
            proof {
                let k = choose|k: int|
                    0 < k < name@.len() && name@[k] == '.' && forall|j: int|
                        k < j < name@.len() ==> name@[j] != '.';
                assert(k == i) by {
                    if k < i {
                        assert(name@[i as int] == '.');
                    } else if k > i {
                        assert(name@[k] == '.');
                    }
                }
                assert(e@ =~= name@.skip(i + 1));
                assert(name@ != seq!['.', '.']) by {
                    if name@ == seq!['.', '.'] {
                        assert(name@.len() == 2 && name@[0] == '.' && name@[1] == '.');
                    }
                }
            }
            Some(e)
        },
    }
}

/// How an entry of the download directory is taken in.
#[derive(PartialEq, Eq, Structural, Debug, Clone, Copy)]
pub enum DownloadEntryKind {
    /// Not taken in: not a file, a partial download, or metadata read with its archive.
    Skip,
    /// A metadata file whose archive is gone.
    MetadataOnly,
    /// An archive, read together with its metadata file if there is one.
    Archive,
}

/// How the download directory scan takes in an entry named `name`: entries that
/// are not files, or whose names end in `.part` or `.part.json`, are skipped; a `.json`
/// file without its archive stands for that archive; other `.json` files are read
/// with their archive; everything else is an archive.
pub open spec fn spec_classify(name: Seq<char>, is_file: bool, archive_exists: bool) -> DownloadEntryKind {
    let ext = spec_extension(name);
    if !is_file || ext == Some("part"@) || ".part.json"@.is_suffix_of(name) {
        DownloadEntryKind::Skip
    } else if ext == Some("json"@) {
        if archive_exists {
            DownloadEntryKind::Skip
        } else {
            DownloadEntryKind::MetadataOnly
        }
    } else {
        DownloadEntryKind::Archive
    }
}

/// Decides how the scan of the download directory takes in the entry `name`.
/// `archive_exists` says whether the name without its extension exists.
pub fn classify_download_entry(name: &str, is_file: bool, archive_exists: bool) -> (r:
    DownloadEntryKind)
    ensures
        r == spec_classify(name@, is_file, archive_exists),
{
    let ext = extension(name);
    let is_part = match &ext {
        Some(e) => str_eq(e.as_str(), "part"),
        None => false,
    };
    let is_json = match &ext {
        Some(e) => str_eq(e.as_str(), "json"),
        None => false,
    };
    if !is_file || is_part || ends_with(name, ".part.json") {
        DownloadEntryKind::Skip
    } else if is_json {
        if archive_exists {
            DownloadEntryKind::Skip
        } else {
            DownloadEntryKind::MetadataOnly
        }
    } else {
        DownloadEntryKind::Archive
    }
}

/// The archives in the download directory, by file name.
pub struct ArchiveFiles {
    pub files: IndexMap<String, ArchiveEntry>,
    /// Whether the listing of archives has to be redrawn.
    pub has_changed: bool,
}

impl ArchiveFiles {
    /// The archives and their names, in the listing's order.
    pub open spec fn entries(self) -> Seq<(Seq<char>, ArchiveEntry)> {
        archive_entries(self.files)
    }

    /// No name is listed twice.
    pub open spec fn well_formed(self) -> bool {
        keys_unique(self.entries())
    }

    /// No archive listed yet; the listing is to be drawn.
    pub fn new() -> (r: Self)
        ensures
            r.well_formed(),
            r.entries() == Seq::<(Seq<char>, ArchiveEntry)>::empty(),
            r.has_changed,
    {
        ArchiveFiles { files: archives_new(), has_changed: true }
    }

    /// Lists `archive` under its file name and adds what it tells of its
    /// file to the metadata index, as `MetadataIndex::try_add_mod_archive`
    /// does with `file_details` and `mod_info`; the listing is to be redrawn.
    pub fn add_archive(
        &mut self,
        metadata_index: &mut MetadataIndex,
        archive: ArchiveEntry,
        file_details: Option<FileDetails>,
        mod_info: Option<ModInfo>,
    )
        requires
            old(self).well_formed(),
            old(metadata_index).well_formed(),
        ensures
            final(self).well_formed(),
            final(metadata_index).well_formed(),
            final(self).entries() == map_insert(old(self).entries(), archive.spec_file_name()@, archive),
            final(self).has_changed,
            match archive.spec_metadata() {
                None => final(metadata_index).files() == old(metadata_index).files(),
                Some(md) => final(metadata_index).added(
                    *old(metadata_index),
                    Some(md.file_name@),
                    final(metadata_index).files()[md.file_id],
                ),
            },
    {
        metadata_index.try_add_mod_archive(archive.clone(), file_details, mod_info);
        let name = archive.file_name().clone();
        archives_insert(&mut self.files, name, archive);
        self.has_changed = true;
    }

    /// The archive named `file_name`, if it is listed.
    pub fn get(&self, file_name: &str) -> (r: Option<&ArchiveEntry>)
        ensures
            match map_get(self.entries(), file_name@) {
                Some(v) => r == Some(&v),
                None => r is None,
            },
    {
        archives_get(&self.files, file_name)
    }

    /// Forgets the archive `file_name`, once it has been removed from disk;
    /// the last archive of the listing takes its place. Returns whether it was
    /// listed; the listing is then to be redrawn.
    pub fn delete(&mut self, file_name: &str) -> (r: bool)
        requires
            old(self).well_formed(),
        ensures
            final(self).well_formed(),
            r == (map_get(old(self).entries(), file_name@) is Some),
            final(self).entries() == map_swap_remove(old(self).entries(), file_name@),
            final(self).has_changed == (old(self).has_changed || r),
    {
        match archives_swap_remove(&mut self.files, file_name) {
            Some(_) => {
                self.has_changed = true;
                true
            },
            None => false,
        }
    }
    /// Sets the status of the archive `name`, if an archive file of that
    /// name is listed; the listing is to be redrawn.
    pub fn set_status(&mut self, name: &str, status: ArchiveStatus)
        requires
            old(self).well_formed(),
        ensures
            final(self).well_formed(),
            final(self).has_changed,
            final(self).entries() == match map_get(old(self).entries(), name@) {
                Some(ArchiveEntry::File(a)) => map_insert(
                    old(self).entries(),
                    name@,
                    ArchiveEntry::File(ArchiveFile { status, ..a }),
                ),
                _ => old(self).entries(),
            },
    {
        let updated = match archives_get(&self.files, name) {
            Some(ArchiveEntry::File(a)) => {
                let mut a2 = a.clone();
                a2.status = status;
                Some(a2)
            },
            _ => None,
        };
        if let Some(a2) = updated {
            archives_insert(&mut self.files, name.to_string(), ArchiveEntry::File(a2));
        }
        self.has_changed = true;
    }
}

/// Listing an archive under a new name and then forgetting that name leaves
/// the listing as it was, order included.
pub proof fn lemma_archive_add_then_delete_restores(
    listing: Seq<(Seq<char>, ArchiveEntry)>,
    name: Seq<char>,
    entry: ArchiveEntry,
)
    requires
        keys_unique(listing),
        map_get(listing, name) is None,
    ensures
        map_swap_remove(map_insert(listing, name, entry), name) == listing,
{
    let t = listing.push((name, entry));
    assert(!has_key(listing, name));
    assert(map_insert(listing, name, entry) == t);
    assert(t[listing.len() as int].0 == name);
    assert(has_key(t, name));
    let i = key_index(t, name);
    assert(i == listing.len()) by {
        if i < listing.len() {
            assert(t[i] == listing[i]);
        }
    }
    assert(t.update(i, t.last()).drop_last() =~= listing);
}

} // verus!
