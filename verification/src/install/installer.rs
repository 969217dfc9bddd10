//! The decisions of an installation: whether an archive may be extracted,
//! what its directory records, and what the cache holds before, after, and
//! when an extraction fails or is cancelled. Reading the archive and writing
//! the files is done by the caller between these steps.
use super::install_error::InstallError;
use super::installed_mod::{ModDirectory, ModRepository};
use crate::cache::modfile_metadata::put_dir;
use crate::api::{FileDetails, ModInfo};
use crate::cache::archive_files::{ArchiveEntry, ArchiveFile, ArchiveStatus};
use crate::cache::cache::{record_archive_names, set_archive_status, set_archive_statuses, Cache};
use crate::cache::indexed::{map_get, map_insert};
use crate::text::str_eq;
use vstd::prelude::*;

verus! {

/// The names of the jobs, as text.
pub open spec fn job_names(jobs: Seq<String>) -> Seq<Seq<char>> {
    jobs.map_values(|s: String| s@)
}

/// `jobs` with the first job named `name` taken out, if there is one.
pub open spec fn without_job(jobs: Seq<Seq<char>>, name: Seq<char>) -> Seq<Seq<char>> {
    if jobs.contains(name) {
        jobs.remove(
            choose|i: int|
                0 <= i < jobs.len() && jobs[i] == name && forall|j: int| 0 <= j < i ==> #[trigger] jobs[j] != name,
        )
    } else {
        jobs
    }
}

/// What an extraction request comes to: `dest_exists` tells whether the
/// target directory exists, `jobs` the archives being extracted.
pub open spec fn spec_extract(
    entry: Option<ArchiveEntry>,
    jobs: Seq<Seq<char>>,
    archive_name: Seq<char>,
    dest_exists: bool,
    overwrite: bool,
) -> Result<Option<ArchiveFile>, InstallError> {
    if !overwrite && dest_exists {
        Err(InstallError::AlreadyExists)
    } else {
        match entry {
            None => Ok(None),
            Some(ArchiveEntry::MetadataOnly(_)) => Err(InstallError::ArchiveDeleted),
            Some(ArchiveEntry::File(a)) => if jobs.contains(archive_name) {
                Err(InstallError::InProgress)
            } else {
                Ok(Some(a))
            },
        }
    }
}

/// The extractions under way, by the name they are listed under.
pub struct Installer {
    extract_jobs: Vec<String>,
}

impl Installer {
    /// The names of the extractions under way.
    pub closed spec fn jobs(self) -> Seq<Seq<char>> {
        job_names(self.extract_jobs@)
    }

    /// No extraction under way.
    pub fn new() -> (r: Self)
        ensures
            r.jobs() == Seq::<Seq<char>>::empty(),
    {
        let r = Installer { extract_jobs: Vec::new() };
        assert(r.jobs() =~= Seq::<Seq<char>>::empty());
        r
    }

    fn job_pos(&self, name: &str) -> (r: Option<usize>)
        ensures
            match r {
                Some(i) => i < self.jobs().len() && self.jobs()[i as int] == name@ && forall|j: int|
                    0 <= j < i ==> #[trigger] self.jobs()[j] != name@,
                None => !self.jobs().contains(name@),
            },
    {
        let mut i: usize = 0;
        while i < self.extract_jobs.len()
            invariant
                i <= self.extract_jobs@.len(),
                forall|j: int| 0 <= j < i ==> #[trigger] self.jobs()[j] != name@,
            decreases self.extract_jobs@.len() - i,
        {
            if str_eq(self.extract_jobs[i].as_str(), name) {
                return Some(i);
            }
            i = i + 1;
        }
        None
    }

    /// Ends the job named `name`, if there is one; tells whether there was.
    fn remove_job(&mut self, name: &str) -> (r: bool)
        ensures
            r == old(self).jobs().contains(name@),
            final(self).jobs() == without_job(old(self).jobs(), name@),
    {
        let ghost js = self.jobs();
        match self.job_pos(name) {
            Some(i) => {
                proof {
                    let k = choose|k: int|
                        0 <= k < js.len() && js[k] == name@ && forall|j: int| 0 <= j < k ==> #[trigger] js[j] != name@;
                    assert(k == i as int) by {
                        if k < i {
                            assert(js[k] != name@);
                        } else if k > i {
                            assert(js[i as int] != name@);
                        }
                    }
                }
                self.extract_jobs.remove(i);
                assert(self.jobs() =~= js.remove(i as int));
                true
            },
            None => false,
        }
    }

    /// Decides whether the archive `archive_name` may be extracted:
    /// not over an existing directory unless `overwrite`, only an archive
    /// that is still there, and not twice at once. When it may, the
    /// extraction is listed as under way and the archive is returned; when
    /// the archive is not known, nothing is to be done.
    pub fn extract(
        &mut self,
        cache: &Cache,
        archive_name: &String,
        dest_exists: bool,
        overwrite: bool,
    ) -> (r: Result<Option<ArchiveFile>, InstallError>)
        ensures
            r == spec_extract(
                map_get(cache.archives.entries(), archive_name@),
                old(self).jobs(),
                archive_name@,
                dest_exists,
                overwrite,
            ),
            final(self).jobs() == if r matches Ok(Some(_)) {
                old(self).jobs().push(archive_name@)
            } else {
                old(self).jobs()
            },
    {
        if !overwrite && dest_exists {
            return Err(InstallError::AlreadyExists);
        }
        let archive = match cache.archives.get(archive_name.as_str()) {
            Some(ArchiveEntry::File(a)) => a.clone(),
            Some(ArchiveEntry::MetadataOnly(_)) => {
                return Err(InstallError::ArchiveDeleted);
            },
            None => {
                return Ok(None);
            },
        };
        if self.job_pos(archive_name.as_str()).is_some() {
            return Err(InstallError::InProgress);
        }
        self.extract_jobs.push(archive_name.clone());
        assert(self.jobs() =~= old(self).jobs().push(archive_name@));
        Ok(Some(archive))
    }

    /// Before the files are written: the archive is marked as being
    /// extracted, and the record of the new directory is made from the
    /// archive and what the cache knows of its file.
    pub fn pre_extract(cache: &mut Cache, archive: &ArchiveFile) -> (r: ModDirectory)
        requires
            old(cache).well_formed(),
            archive.mod_data is Some ==> match old(cache).metadata_index.archive_file_id(
                archive.file_name@,
            ) {
                Some(id) => old(cache).metadata_index.files().contains_key(id),
                None => false,
            },
        ensures
            final(cache).well_formed(),
            final(cache).archives.has_changed,
            final(cache).archives.entries() == match map_get(
                old(cache).archives.entries(),
                archive.file_name@,
            ) {
                Some(ArchiveEntry::File(a)) => map_insert(
                    old(cache).archives.entries(),
                    archive.file_name@,
                    ArchiveEntry::File(ArchiveFile { status: ArchiveStatus::Extracting, ..a }),
                ),
                _ => old(cache).archives.entries(),
            },
            final(cache).metadata_index == old(cache).metadata_index,
            final(cache).installed == old(cache).installed,
            match archive.mod_data {
                None => r == ModDirectory::Foreign(archive.file_name),
                Some(md) => {
                    let m = old(cache).metadata_index.files()[old(
                        cache,
                    ).metadata_index.archive_file_id(archive.file_name@)->0];
                    &&& r is Nexus
                    &&& r->Nexus_0.installation_file == archive.file_name
                    &&& r->Nexus_0.game == md.game
                    &&& r->Nexus_0.mod_id == md.mod_id
                    &&& r->Nexus_0.file_id == md.file_id
                    &&& r->Nexus_0.repository == ModRepository::Nexus
                    &&& r->Nexus_0.last_update_check == 0
                    &&& r->Nexus_0.update_status.view_status() == m.update_status.view_status()
                    &&& r->Nexus_0.name == match m.file_details {
                        Some(fd) => Some(fd.name),
                        None => None,
                    }
                },
            },
    {
        cache.archives.set_status(archive.file_name.as_str(), ArchiveStatus::Extracting);
        match &archive.mod_data {
            None => ModDirectory::Foreign(archive.file_name.clone()),
            Some(_) => {
                let mfd = cache.metadata_index.get_by_archive_name(&archive.file_name).unwrap();
                ModDirectory::new(archive, mfd)
            },
        }
    }

    /// After the files were written: the archive is marked installed, the
    /// directory is listed among the installed mods and recorded in the
    /// metadata index as `Cache::add_installed_dir` does (which also marks the
    /// archives of an installed Nexus file installed), and the extraction of
    /// the archive is no longer under way.
    pub fn post_extract(
        &mut self,
        cache: &mut Cache,
        archive_name: &String,
        dest_dir_name: String,
        mod_dir: ModDirectory,
        file_details: Option<FileDetails>,
        mod_info: Option<ModInfo>,
    )
        requires
            old(cache).well_formed(),
        ensures
            final(cache).well_formed(),
            final(cache).installed.entries() == map_insert(
                old(cache).installed.entries(),
                dest_dir_name@,
                mod_dir,
            ),
            final(cache).installed.has_changed,
            ({
                let marked = set_archive_status(
                    old(cache).archives.entries(),
                    archive_name@,
                    ArchiveStatus::Installed,
                );
                match mod_dir {
                    ModDirectory::Nexus(im) => {
                        let m = final(cache).metadata_index.files()[im.file_id];
                        &&& m.file_id == im.file_id
                        &&& final(cache).metadata_index.added(
                            old(cache).metadata_index,
                            Some(im.installation_file@),
                            m,
                        )
                        &&& m.installed_mods@ == put_dir(
                            if old(cache).metadata_index.files().contains_key(im.file_id) {
                                old(cache).metadata_index.files()[im.file_id].installed_mods@
                            } else {
                                Seq::empty()
                            },
                            (dest_dir_name, im),
                        )
                        &&& final(cache).archives.entries() == set_archive_statuses(
                            marked,
                            record_archive_names(m),
                            ArchiveStatus::Installed,
                        )
                    },
                    _ => final(cache).metadata_index == old(cache).metadata_index
                        && final(cache).archives.entries() == marked,
                }
            }),
            final(cache).archives.has_changed,
            final(self).jobs() == without_job(old(self).jobs(), archive_name@),
    {
        cache.archives.set_status(archive_name.as_str(), ArchiveStatus::Installed);
        cache.add_installed_dir(dest_dir_name, mod_dir, file_details, mod_info);
        self.remove_job(archive_name.as_str());
    }

    /// When writing the files failed: the archive is marked as failed and its
    /// extraction is no longer under way, so it may be tried again.
    pub fn extract_failed(&mut self, cache: &mut Cache, archive_name: &String)
        requires
            old(cache).well_formed(),
        ensures
            final(cache).well_formed(),
            final(cache).archives.has_changed,
            final(cache).archives.entries() == match map_get(
                old(cache).archives.entries(),
                archive_name@,
            ) {
                Some(ArchiveEntry::File(a)) => map_insert(
                    old(cache).archives.entries(),
                    archive_name@,
                    ArchiveEntry::File(ArchiveFile { status: ArchiveStatus::Error, ..a }),
                ),
                _ => old(cache).archives.entries(),
            },
            final(cache).installed == old(cache).installed,
            final(cache).metadata_index == old(cache).metadata_index,
            final(self).jobs() == without_job(old(self).jobs(), archive_name@),
    {
        cache.archives.set_status(archive_name.as_str(), ArchiveStatus::Error);
        self.remove_job(archive_name.as_str());
    }

    /// Cancels the extraction of `archive`, if it is under way: the archive
    /// is marked installed when its file is installed somewhere, else
    /// downloaded. Returns whether an extraction was cancelled; its target
    /// directory is then to be removed.
    pub fn cancel(&mut self, cache: &mut Cache, archive: &ArchiveFile) -> (r: bool)
        requires
            old(cache).well_formed(),
        ensures
            final(cache).well_formed(),
            r == old(self).jobs().contains(archive.file_name@),
            final(self).jobs() == without_job(old(self).jobs(), archive.file_name@),
            final(cache).installed == old(cache).installed,
            final(cache).metadata_index == old(cache).metadata_index,
            !r ==> final(cache).archives == old(cache).archives,
            r ==> final(cache).archives.has_changed,
            r ==> {
                let installed = match old(cache).metadata_index.archive_file_id(archive.file_name@) {
                    Some(id) => old(cache).metadata_index.files().contains_key(id)
                        && old(cache).metadata_index.files()[id].installed_mods@.len() > 0,
                    None => false,
                };
                final(cache).archives.entries() == match map_get(
                    old(cache).archives.entries(),
                    archive.file_name@,
                ) {
                    Some(ArchiveEntry::File(a)) => map_insert(
                        old(cache).archives.entries(),
                        archive.file_name@,
                        ArchiveEntry::File(
                            ArchiveFile {
                                status: if installed {
                                    ArchiveStatus::Installed
                                } else {
                                    ArchiveStatus::Downloaded
                                },
                                ..a
                            },
                        ),
                    ),
                    _ => old(cache).archives.entries(),
                }
            },
    {
        if !self.remove_job(archive.file_name.as_str()) {
            return false;
        }
        let installed = match cache.metadata_index.get_by_archive_name(&archive.file_name) {
            Some(mfd) => mfd.is_installed(),
            None => false,
        };
        if installed {
            cache.archives.set_status(archive.file_name.as_str(), ArchiveStatus::Installed);
        } else {
            cache.archives.set_status(archive.file_name.as_str(), ArchiveStatus::Downloaded);
        }
        true
    }
}

/// An archive whose extraction is already under way is not extracted again:
/// unless the request is refused first for an existing target, the answer is
/// `InProgress`, whatever `overwrite` says.
pub proof fn lemma_extraction_under_way_refused(
    entry: Option<ArchiveEntry>,
    jobs: Seq<Seq<char>>,
    archive_name: Seq<char>,
    dest_exists: bool,
    overwrite: bool,
)
    requires
        entry matches Some(ArchiveEntry::File(_)),
        jobs.contains(archive_name),
        overwrite || !dest_exists,
    ensures
        spec_extract(entry, jobs, archive_name, dest_exists, overwrite) == Err::<
            Option<ArchiveFile>,
            InstallError,
        >(InstallError::InProgress),
{
}

/// No archive is listed twice among the extractions under way: a request
/// that starts an extraction adds a name that was not listed.
pub proof fn lemma_jobs_stay_distinct(
    entry: Option<ArchiveEntry>,
    jobs: Seq<Seq<char>>,
    archive_name: Seq<char>,
    dest_exists: bool,
    overwrite: bool,
)
    requires
        jobs.no_duplicates(),
    ensures
        (if spec_extract(entry, jobs, archive_name, dest_exists, overwrite) matches Ok(Some(_)) {
            jobs.push(archive_name)
        } else {
            jobs
        }).no_duplicates(),
{
    if spec_extract(entry, jobs, archive_name, dest_exists, overwrite) matches Ok(Some(_)) {
        assert(!jobs.contains(archive_name));
        let t = jobs.push(archive_name);
        assert forall|i: int, j: int| 0 <= i < t.len() && 0 <= j < t.len() && i != j implies t[i] != t[j] by {
            if i == jobs.len() as int {
                assert(t[j] == jobs[j]);
            } else if j == jobs.len() as int {
                assert(t[i] == jobs[i]);
            } else {
                assert(t[i] == jobs[i] && t[j] == jobs[j]);
            }
        }
    }
}

} // verus!
