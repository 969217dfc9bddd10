use dmodman::api::FileInfo;
use dmodman::cache::archive_files::{ArchiveEntry, ArchiveFile, ArchiveMetadata, ArchiveStatus};
use dmodman::cache::cache::Cache;
use dmodman::cache::local_file::UpdateStatus;
use dmodman::extract::libarchive::{
    block_action, is_dir_filetype, keeps_block, ArchiveError, BlockAction, ARCHIVE_EOF, ARCHIVE_FAILED, ARCHIVE_FATAL,
    ARCHIVE_OK, ARCHIVE_RETRY, ARCHIVE_WARN, S_IFDIR, S_IFREG,
};
use dmodman::install::install_error::InstallError;
use dmodman::install::installed_mod::ModDirectory;
use dmodman::install::installer::Installer;

fn archive_file(name: &str, with_metadata: bool) -> ArchiveFile {
    let md = ArchiveMetadata::new(
        FileInfo { game: "morrowind".to_string(), file_name: name.to_string(), mod_id: 46599, file_id: 82041 },
        UpdateStatus::UpToDate(0),
    );
    ArchiveFile {
        file_name: name.to_string(),
        size: 1,
        mod_data: if with_metadata { Some(md) } else { None },
        status: ArchiveStatus::Downloaded,
    }
}

fn status_of(cache: &Cache, name: &str) -> ArchiveStatus {
    match cache.archives.get(name).unwrap() {
        ArchiveEntry::File(a) => a.status,
        ArchiveEntry::MetadataOnly(_) => panic!("expected an archive file"),
    }
}

#[test]
fn extraction_requests() {
    let mut cache = Cache::new(0);
    cache.archives.add_archive(&mut cache.metadata_index, ArchiveEntry::File(archive_file("gh.7z", true)), None, None);
    let md = ArchiveMetadata::new(
        FileInfo { game: "morrowind".to_string(), file_name: "gone.7z".to_string(), mod_id: 1, file_id: 2 },
        UpdateStatus::UpToDate(0),
    );
    cache.archives.add_archive(&mut cache.metadata_index, ArchiveEntry::MetadataOnly(md), None, None);
    let mut installer = Installer::new();
    let name = "gh.7z".to_string();
    assert!(matches!(installer.extract(&cache, &name, true, false), Err(InstallError::AlreadyExists)));
    assert!(matches!(installer.extract(&cache, &"gone.7z".to_string(), false, false), Err(InstallError::ArchiveDeleted)));
    assert!(matches!(installer.extract(&cache, &"unknown.7z".to_string(), false, false), Ok(None)));
    let a = installer.extract(&cache, &name, true, true).ok().unwrap().unwrap();
    assert_eq!(a.file_name, "gh.7z");
    assert!(matches!(installer.extract(&cache, &name, false, false), Err(InstallError::InProgress)));
    let mod_dir = Installer::pre_extract(&mut cache, &a);
    assert_eq!(status_of(&cache, "gh.7z"), ArchiveStatus::Extracting);
    match &mod_dir {
        ModDirectory::Nexus(im) => {
            assert_eq!(im.installation_file, "gh.7z");
            assert_eq!(im.file_id, 82041);
        },
        _ => panic!("archive with metadata gives a Nexus mod"),
    }
    installer.post_extract(&mut cache, &name, "GH".to_string(), mod_dir, None, None);
    assert_eq!(status_of(&cache, "gh.7z"), ArchiveStatus::Installed);
    assert!(cache.installed.get("GH").is_some());
    assert!(installer.extract(&cache, &name, false, false).ok().unwrap().is_some());
}

#[test]
fn failed_and_cancelled_extractions() {
    let mut cache = Cache::new(0);
    cache.archives.add_archive(&mut cache.metadata_index, ArchiveEntry::File(archive_file("x.7z", false)), None, None);
    let mut installer = Installer::new();
    let name = "x.7z".to_string();
    let a = installer.extract(&cache, &name, false, false).ok().unwrap().unwrap();
    let md = Installer::pre_extract(&mut cache, &a);
    assert!(matches!(md, ModDirectory::Foreign(ref n) if n == "x.7z"));
    installer.extract_failed(&mut cache, &name);
    assert_eq!(status_of(&cache, "x.7z"), ArchiveStatus::Error);
    // The failed extraction no longer counts as under way: it may be retried.
    let a = installer.extract(&cache, &name, false, false).ok().unwrap().unwrap();
    assert!(matches!(installer.extract(&cache, &name, false, false), Err(InstallError::InProgress)));
    assert!(installer.cancel(&mut cache, &a));
    assert_eq!(status_of(&cache, "x.7z"), ArchiveStatus::Downloaded);
    assert!(!installer.cancel(&mut cache, &a));
}

#[test]
fn install_error_messages() {
    assert_eq!(InstallError::AlreadyExists.message(), "Target directory already exists.");
    assert_eq!(InstallError::ArchiveDeleted.message(), "Archive no longer exists.");
    assert_eq!(InstallError::InProgress.message(), "Extracting to target directory is already in progress.");
    assert_eq!(InstallError::IO { message: "disk full".to_string() }.message(), "disk full");
    let e = InstallError::ArchiveError { source: ArchiveError::from_err_code(ARCHIVE_FATAL, "bad".to_string()) };
    assert_eq!(e.message(), "bad");
}

#[test]
fn libarchive_status_codes() {
    assert!(matches!(ArchiveError::from_err_code(ARCHIVE_WARN, "w".to_string()), ArchiveError::Warn(_)));
    assert!(matches!(ArchiveError::from_err_code(ARCHIVE_FAILED, "f".to_string()), ArchiveError::Failed(_)));
    assert!(matches!(ArchiveError::from_err_code(ARCHIVE_FATAL, "f".to_string()), ArchiveError::Fatal(_)));
    assert!(matches!(ArchiveError::from_err_code(ARCHIVE_RETRY, "r".to_string()), ArchiveError::Unhandled(_)));
    assert_eq!(ArchiveError::from_err_code(ARCHIVE_RETRY, "r".to_string()).message(), "r");
    assert_eq!(block_action(ARCHIVE_OK), BlockAction::Write { warn: false });
    assert_eq!(block_action(ARCHIVE_WARN), BlockAction::Write { warn: true });
    assert_eq!(block_action(ARCHIVE_EOF), BlockAction::Finish);
    assert_eq!(block_action(ARCHIVE_FAILED), BlockAction::Fail);
    assert!(keeps_block(ARCHIVE_OK, true));
    assert!(!keeps_block(ARCHIVE_OK, false));
    assert!(!keeps_block(ARCHIVE_EOF, true));
    assert!(is_dir_filetype(S_IFDIR));
    assert!(!is_dir_filetype(S_IFREG));
}
