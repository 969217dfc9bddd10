//! The record kept in an installed mod's directory.
use crate::cache::archive_files::ArchiveFile;
use crate::cache::local_file::StatusWrapper;
use crate::cache::modfile_metadata::ModFileMetadata;
use vstd::prelude::*;

verus! {

/// What a directory of the install directory holds.
pub enum ModDirectory {
    /// A file from Nexus Mods.
    Nexus(InstalledMod),
    /// Installed from an archive that is not a regular Nexus file; the archive's name.
    Foreign(String),
    /// Some other directory found in the install directory.
    Unknown,
}

/// Where an installed mod comes from.
#[derive(PartialEq, Eq, Structural, Debug, Clone, Copy)]
pub enum ModRepository {
    Nexus,
    Unknown,
}

/// What is known of an installed file of a mod.
pub struct InstalledMod {
    pub game: String,
    pub mod_id: u32,
    pub file_id: u64,
    pub name: Option<String>,
    pub mod_name: Option<String>,
    pub version: Option<String>,
    pub category_id: Option<u32>,
    pub category_name: Option<String>,
    pub installation_file: String,
    pub repository: ModRepository,
    pub last_update_check: u64,
    pub update_status: StatusWrapper,
}

impl Clone for InstalledMod {
    fn clone(&self) -> (r: Self)
        ensures
            r == *self,
    {
        InstalledMod {
            game: self.game.clone(),
            mod_id: self.mod_id,
            file_id: self.file_id,
            name: crate::api::clone_opt_string(&self.name),
            mod_name: crate::api::clone_opt_string(&self.mod_name),
            version: crate::api::clone_opt_string(&self.version),
            category_id: self.category_id,
            category_name: crate::api::clone_opt_string(&self.category_name),
            installation_file: self.installation_file.clone(),
            repository: self.repository,
            last_update_check: self.last_update_check,
            update_status: self.update_status.clone(),
        }
    }
}

impl Clone for ModDirectory {
    fn clone(&self) -> (r: Self)
        ensures
            r == *self,
    {
        match self {
            ModDirectory::Nexus(im) => ModDirectory::Nexus(im.clone()),
            ModDirectory::Foreign(name) => ModDirectory::Foreign(name.clone()),
            ModDirectory::Unknown => ModDirectory::Unknown,
        }
    }
}

impl Default for ModDirectory {
    fn default() -> (r: Self)
        ensures
            r is Unknown,
    {
        ModDirectory::Unknown
    }
}

impl Default for ModRepository {
    fn default() -> (r: Self)
        ensures
            r == ModRepository::Unknown,
    {
        ModRepository::Unknown
    }
}

impl ModDirectory {
    /// The record of a directory installed from `archive`, whose file is
    /// described by `mfd`: a Nexus file when the archive has metadata, else a
    /// foreign archive. Version and category come from the file's details when
    /// they are known.
    pub fn new(archive: &ArchiveFile, mfd: &ModFileMetadata) -> (r: Self)
        ensures
            match archive.mod_data {
                None => r == ModDirectory::Foreign(archive.file_name),
                Some(md) => r matches ModDirectory::Nexus(im) && {
                    &&& im.installation_file == archive.file_name
                    &&& im.game == md.game
                    &&& im.mod_id == md.mod_id
                    &&& im.file_id == md.file_id
                    &&& im.repository == ModRepository::Nexus
                    &&& im.last_update_check == 0
                    &&& im.update_status.view_status() == mfd.update_status.view_status()
                    &&& im.name == (match mfd.file_details {
                        Some(fd) => Some(fd.name),
                        None => None,
                    })
                    &&& match mfd.file_details {
                        Some(fd) => im.version == fd.version && im.category_id == Some(
                            fd.category_id,
                        ) && im.category_name == fd.category_name,
                        None => im.version is None && im.category_id is None
                            && im.category_name is None,
                    }
                    &&& match mfd.mod_info {
                        Some(mi) if mi.name is Some => im.mod_name == mi.name,
                        _ => match im.mod_name {
                            Some(n) => exists|i: int|
                                0 <= i < mfd.installed_mods@.len()
                                    && (#[trigger] mfd.installed_mods@[i]).1.mod_name == Some(n),
                            None => forall|i: int|
                                0 <= i < mfd.installed_mods@.len() ==> (
                                #[trigger] mfd.installed_mods@[i]).1.mod_name is None,
                        },
                    }
                },
            },
    {
        match &archive.mod_data {
            None => ModDirectory::Foreign(archive.file_name.clone()),
            Some(md) => {
                let (version, category_id, category_name) = match &mfd.file_details {
                    Some(fd) => (
                        crate::api::clone_opt_string(&fd.version),
                        Some(fd.category_id),
                        crate::api::clone_opt_string(&fd.category_name),
                    ),
                    None => (None, None, None),
                };
                let mod_name = mfd.mod_name();
                let name = mfd.name();
                ModDirectory::Nexus(
                    InstalledMod {
                        installation_file: archive.file_name.clone(),
                        game: md.game.clone(),
                        mod_id: md.mod_id,
                        file_id: md.file_id,
                        name,
                        mod_name,
                        version,
                        category_id,
                        category_name,
                        repository: ModRepository::Nexus,
                        last_update_check: 0,
                        update_status: mfd.update_status.clone(),
                    },
                )
            },
        }
    }
}

} // verus!
