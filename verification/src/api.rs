//! The records of the Nexus Mods API that the library reads: what a file is,
//! its details and update history, a mod's description, an md5 lookup result
//! and a parsed `nxm://` link.
use vstd::prelude::*;

verus! {

/// Identifies a downloaded file: its game, name, mod and file id.
pub struct FileInfo {
    pub game: String,
    pub file_name: String,
    pub mod_id: u32,
    pub file_id: u64,
}

/// The details that the API gives of one file of a mod.
pub struct FileDetails {
    pub file_id: u64,
    pub name: String,
    pub version: Option<String>,
    pub category_id: u32,
    pub category_name: Option<String>,
    pub uploaded_timestamp: u64,
}

/// One step of a mod's update history: `old_file_id` was replaced by `new_file_id`.
pub struct FileUpdate {
    pub old_file_id: u64,
    pub old_file_name: String,
    pub new_file_id: u64,
    pub new_file_name: String,
    pub uploaded_timestamp: u64,
}

/// The files of a mod and their update history.
pub struct FileList {
    pub files: Vec<FileDetails>,
    pub file_updates: Vec<FileUpdate>,
}

/// The description of a mod.
pub struct ModInfo {
    pub name: Option<String>,
    pub domain_name: String,
    pub mod_id: u32,
}

/// The answer of an md5 lookup: the mod and the file that has the hash.
pub struct Md5Results {
    pub mod_info: ModInfo,
    pub file_details: FileDetails,
}

/// A parsed `nxm://` download link.
pub struct NxmUrl {
    pub domain_name: String,
    pub mod_id: u32,
    pub file_id: u64,
    pub query: String,
}

/// A download in progress.
pub struct DownloadInfo {
    pub file_info: FileInfo,
}

impl Clone for FileInfo {
    fn clone(&self) -> (r: Self)
        ensures
            r == *self,
    {
        FileInfo {
            game: self.game.clone(),
            file_name: self.file_name.clone(),
            mod_id: self.mod_id,
            file_id: self.file_id,
        }
    }
}

/// A copy of an optional text.
pub fn clone_opt_string(s: &Option<String>) -> (r: Option<String>)
    ensures
        r == *s,
{
    match s {
        Some(t) => Some(t.clone()),
        None => None,
    }
}

impl Clone for FileDetails {
    fn clone(&self) -> (r: Self)
        ensures
            r == *self,
    {
        FileDetails {
            file_id: self.file_id,
            name: self.name.clone(),
            version: clone_opt_string(&self.version),
            category_id: self.category_id,
            category_name: clone_opt_string(&self.category_name),
            uploaded_timestamp: self.uploaded_timestamp,
        }
    }
}

impl Clone for FileUpdate {
    fn clone(&self) -> (r: Self)
        ensures
            r == *self,
    {
        FileUpdate {
            old_file_id: self.old_file_id,
            old_file_name: self.old_file_name.clone(),
            new_file_id: self.new_file_id,
            new_file_name: self.new_file_name.clone(),
            uploaded_timestamp: self.uploaded_timestamp,
        }
    }
}

impl Clone for ModInfo {
    fn clone(&self) -> (r: Self)
        ensures
            r == *self,
    {
        ModInfo {
            name: clone_opt_string(&self.name),
            domain_name: self.domain_name.clone(),
            mod_id: self.mod_id,
        }
    }
}

impl Clone for Md5Results {
    fn clone(&self) -> (r: Self)
        ensures
            r == *self,
    {
        Md5Results { mod_info: self.mod_info.clone(), file_details: self.file_details.clone() }
    }
}

impl Clone for FileList {
    fn clone(&self) -> (r: Self)
        ensures
            r.files@ == self.files@,
            r.file_updates@ == self.file_updates@,
    {
        let mut files: Vec<FileDetails> = Vec::new();
        let mut i: usize = 0;
        while i < self.files.len()
            invariant
                i <= self.files@.len(),
                files@ == self.files@.take(i as int),
            decreases self.files@.len() - i,
        {
            files.push(self.files[i].clone());
            i = i + 1;
            assert(files@ =~= self.files@.take(i as int));
        }
        let mut file_updates: Vec<FileUpdate> = Vec::new();
        let mut j: usize = 0;
        while j < self.file_updates.len()
            invariant
                j <= self.file_updates@.len(),
                file_updates@ == self.file_updates@.take(j as int),
            decreases self.file_updates@.len() - j,
        {
            file_updates.push(self.file_updates[j].clone());
            j = j + 1;
            assert(file_updates@ =~= self.file_updates@.take(j as int));
        }
        assert(files@ =~= self.files@);
        assert(file_updates@ =~= self.file_updates@);
        FileList { files, file_updates }
    }
}

} // verus!
