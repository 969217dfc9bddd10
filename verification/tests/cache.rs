use dmodman::api::{FileDetails, FileInfo, FileList, FileUpdate, Md5Results, ModInfo};
use dmodman::cache::archive_files::{
    classify_download_entry, extension, ArchiveEntry, ArchiveFile, ArchiveFiles, ArchiveMetadata, ArchiveStatus,
    DownloadEntryKind,
};
use dmodman::cache::cache::{load_last_updated, Cache};
use dmodman::cache::file_data::FileData;
use dmodman::cache::file_details_cache::FileDetailsCache;
use dmodman::cache::file_index::{find_details, FileIndex};
use dmodman::cache::file_list_cache::{file_list_key, FileListCache};
use dmodman::cache::file_lists::{filedetails_for, prune_file_list, sort_file_list, FileLists};
use dmodman::cache::installed::Installed;
use dmodman::cache::local_file::{LocalFile, StatusWrapper, UpdateStatus};
use dmodman::cache::local_file_cache::LocalFileCache;
use dmodman::cache::md5result_map::Md5ResultMap;
use dmodman::cache::metadata_index::MetadataIndex;
use dmodman::cache::modfile_metadata::ModFileMetadata;
use dmodman::cache::modinfo_map::ModInfoMap;
use dmodman::cache::update::{after_cached_check, ModCheckStep, check_mod, follow_update_chain, group_by_mod, sort_updates, update_chains};
use dmodman::install::installed_mod::{InstalledMod, ModDirectory, ModRepository};
use std::collections::HashMap;

fn info(game: &str, name: &str, mod_id: u32, file_id: u64) -> FileInfo {
    FileInfo { game: game.to_string(), file_name: name.to_string(), mod_id, file_id }
}

fn details(file_id: u64, name: &str, ts: u64) -> FileDetails {
    FileDetails {
        file_id,
        name: name.to_string(),
        version: Some("1.0".to_string()),
        category_id: 1,
        category_name: Some("MAIN".to_string()),
        uploaded_timestamp: ts,
    }
}

fn upd(old_id: u64, old_name: &str, new_id: u64, new_name: &str, ts: u64) -> FileUpdate {
    FileUpdate {
        old_file_id: old_id,
        old_file_name: old_name.to_string(),
        new_file_id: new_id,
        new_file_name: new_name.to_string(),
        uploaded_timestamp: ts,
    }
}

fn metadata(name: &str, mod_id: u32, file_id: u64) -> ArchiveMetadata {
    ArchiveMetadata::new(info("morrowind", name, mod_id, file_id), UpdateStatus::UpToDate(0))
}

fn archive(name: &str, mod_id: u32, file_id: u64) -> ArchiveEntry {
    ArchiveEntry::File(ArchiveFile {
        file_name: name.to_string(),
        size: 10,
        mod_data: Some(metadata(name, mod_id, file_id)),
        status: ArchiveStatus::Downloaded,
    })
}

fn installed_mod(file: &str, mod_id: u32, file_id: u64) -> InstalledMod {
    InstalledMod {
        game: "morrowind".to_string(),
        mod_id,
        file_id,
        name: None,
        mod_name: Some("Graphic Herbalism".to_string()),
        version: None,
        category_id: None,
        category_name: None,
        installation_file: file.to_string(),
        repository: ModRepository::Nexus,
        last_update_check: 0,
        update_status: StatusWrapper::new(UpdateStatus::UpToDate(0)),
    }
}

#[test]
fn update_status_round_trip() {
    for s in [
        UpdateStatus::UpToDate(5),
        UpdateStatus::HasNewFile(6),
        UpdateStatus::OutOfDate(7),
        UpdateStatus::IgnoredUntil(8),
    ] {
        let w = StatusWrapper::new(s.clone());
        assert_eq!(w.to_enum(), s);
        assert_eq!(StatusWrapper::values_from_enum(s.clone()).1, s.time());
    }
    assert_eq!(StatusWrapper::values_from_enum(UpdateStatus::OutOfDate(3)), (2, 3));
    let mut w = StatusWrapper::new(UpdateStatus::UpToDate(1));
    w.set(UpdateStatus::IgnoredUntil(9));
    assert_eq!(w.to_enum(), UpdateStatus::IgnoredUntil(9));
}

#[test]
fn local_file_status() {
    let mut lf = LocalFile::new(info("morrowind", "a.7z", 1, 2), UpdateStatus::UpToDate(4));
    assert_eq!(lf.update_status(), UpdateStatus::UpToDate(4));
    lf.set_update_status(UpdateStatus::HasNewFile(5));
    assert_eq!(lf.update_status(), UpdateStatus::HasNewFile(5));
    assert_eq!(lf.file_id, 2);
}

#[test]
fn local_file_cache_by_id() {
    let mut c = LocalFileCache::new(HashMap::new());
    c.push(LocalFile::new(info("morrowind", "a.7z", 1, 2), UpdateStatus::UpToDate(0)));
    c.push(LocalFile::new(info("morrowind", "b.7z", 1, 3), UpdateStatus::UpToDate(0)));
    c.push(LocalFile::new(info("morrowind", "c.7z", 1, 2), UpdateStatus::UpToDate(0)));
    assert_eq!(c.get(2).unwrap().file_name, "c.7z");
    assert!(c.get(9).is_none());
    assert_eq!(c.items().len(), 2);
}

#[test]
fn file_data_upload_time() {
    let lf = LocalFile::new(info("morrowind", "a.7z", 1, 2), UpdateStatus::UpToDate(0));
    let fd = FileData::new(lf.clone(), Some(details(2, "a", 100)), None);
    assert_eq!(fd.uploaded_timestamp(), Some(100));
    let md5 = Md5Results {
        mod_info: ModInfo { name: None, domain_name: "morrowind".to_string(), mod_id: 1 },
        file_details: details(2, "a", 50),
    };
    let fd2 = FileData::new(lf.clone(), None, Some(md5));
    assert_eq!(fd2.uploaded_timestamp(), Some(50));
    let fd3 = FileData::new(lf, None, None);
    assert_eq!(fd3.uploaded_timestamp(), None);
    assert_eq!(fd3.compare(&fd2), std::cmp::Ordering::Less);
    assert_eq!(fd.compare(&fd2), std::cmp::Ordering::Greater);
    assert!(fd == fd2);
}

#[test]
fn update_chain_followed_in_upload_order() {
    let mut updates = vec![
        upd(2, "b.7z", 3, "c.7z", 300),
        upd(1, "a.7z", 2, "b.7z", 200),
        upd(7, "x.7z", 8, "y.7z", 100),
    ];
    sort_updates(&mut updates);
    let ts: Vec<u64> = updates.iter().map(|u| u.uploaded_timestamp).collect();
    assert_eq!(ts, vec![100, 200, 300]);
    let c = follow_update_chain(1, &"a.7z".to_string(), &updates);
    assert!(c.has_update);
    assert_eq!(c.latest_file_id, 3);
    assert_eq!(c.latest_file_name, "c.7z");
    let c = follow_update_chain(9, &"z.7z".to_string(), &updates);
    assert!(!c.has_update);
    assert_eq!(c.latest_file_name, "z.7z");
}

#[test]
fn sorting_keeps_order_of_equal_times() {
    let mut updates = vec![
        upd(5, "e.7z", 6, "f.7z", 200),
        upd(1, "a.7z", 2, "b.7z", 100),
        upd(3, "c.7z", 4, "d.7z", 200),
        upd(7, "g.7z", 8, "h.7z", 100),
    ];
    sort_updates(&mut updates);
    let olds: Vec<u64> = updates.iter().map(|u| u.old_file_id).collect();
    assert_eq!(olds, vec![1, 7, 5, 3]);
}

#[test]
fn check_mod_selects_files_with_updates() {
    let files = vec![
        LocalFile::new(info("morrowind", "Graphic Herbalism MWSE - OpenMW-46599-1-03-1556986083.7z", 46599, 1), UpdateStatus::UpToDate(0)),
        LocalFile::new(info("morrowind", "GH TR - PT Meshes-46599-1-01-1556986716.7z", 46599, 2), UpdateStatus::UpToDate(0)),
        LocalFile::new(info("morrowind", "current.7z", 46599, 5), UpdateStatus::UpToDate(0)),
    ];
    let mut fl = FileList {
        files: vec![],
        file_updates: vec![upd(2, "b", 4, "d.7z", 20), upd(1, "a", 3, "c.7z", 10)],
    };
    let chains = update_chains(&files, &mut fl);
    assert_eq!(chains.len(), 3);
    assert_eq!(chains[0].latest_file_name, "c.7z");
    assert!(!chains[2].has_update);
    let have = check_mod(files.clone(), &chains, &vec![false, false, false]);
    assert_eq!(have.len(), 2);
    assert_eq!(have[0].file_name, "Graphic Herbalism MWSE - OpenMW-46599-1-03-1556986083.7z");
    assert_eq!(have[1].file_name, "GH TR - PT Meshes-46599-1-01-1556986716.7z");
    let have = check_mod(files, &chains, &vec![true, false, false]);
    assert_eq!(have.len(), 1);
}

#[test]
fn group_files_by_mod() {
    let files = vec![
        LocalFile::new(info("morrowind", "a", 1, 10), UpdateStatus::UpToDate(0)),
        LocalFile::new(info("morrowind", "b", 2, 20), UpdateStatus::UpToDate(0)),
        LocalFile::new(info("skyrim", "c", 1, 30), UpdateStatus::UpToDate(0)),
        LocalFile::new(info("morrowind", "d", 1, 40), UpdateStatus::UpToDate(0)),
    ];
    let groups = group_by_mod(files);
    assert_eq!(groups.len(), 3);
    let g = groups.iter().find(|g| g.game == "morrowind" && g.mod_id == 1).unwrap();
    let names: Vec<&str> = g.files.iter().map(|f| f.file_name.as_str()).collect();
    assert_eq!(names, vec!["a", "d"]);
}

#[test]
fn metadata_index_orders_files_ascending() {
    let mut idx = MetadataIndex::new();
    for id in [20u64, 30, 10, 30] {
        idx.add_to_collections(Some(format!("f{id}.7z")), ModFileMetadata::new("morrowind".to_string(), 46599, id));
    }
    idx.add_to_collections(None, ModFileMetadata::new("morrowind".to_string(), 39350, 5));
    assert_eq!(idx.get_modfiles("morrowind", 46599), Some(vec![10, 20, 30]));
    assert_eq!(idx.get_modfiles("morrowind", 39350), Some(vec![5]));
    assert_eq!(idx.get_modfiles("skyrim", 46599), None);
    assert_eq!(idx.get_by_file_id(20).unwrap().mod_id, 46599);
    assert_eq!(idx.get_by_archive_name(&"f10.7z".to_string()).unwrap().file_id, 10);
    assert!(idx.get_by_archive_name(&"nope".to_string()).is_none());
    idx.delete_if_unreferenced(30);
    assert!(idx.get_by_file_id(30).is_none());
    assert_eq!(idx.get_modfiles("morrowind", 46599), Some(vec![10, 20]));
}

#[test]
fn metadata_index_archives_and_installs() {
    let mut idx = MetadataIndex::new();
    let fd = details(82041, "Main file", 100);
    let mi = ModInfo { name: Some("Graphic Herbalism".to_string()), domain_name: "morrowind".to_string(), mod_id: 46599 };
    assert_eq!(idx.try_add_mod_archive(archive("gh.7z", 46599, 82041), Some(fd.clone()), Some(mi.clone())), Some(82041));
    let no_md = ArchiveEntry::File(ArchiveFile { file_name: "x.7z".to_string(), size: 1, mod_data: None, status: ArchiveStatus::Downloaded });
    assert_eq!(idx.try_add_mod_archive(no_md, None, None), None);
    let rec = idx.get_by_file_id(82041).unwrap();
    assert_eq!(rec.mod_archives.len(), 1);
    assert_eq!(rec.file_details.as_ref().unwrap().name, "Main file");
    assert_eq!(rec.mod_info.as_ref().unwrap().mod_id, 46599);
    let key = idx.add_installed("GH".to_string(), 82041, installed_mod("gh.7z", 46599, 82041), None, None);
    assert_eq!(key, 82041);
    let rec = idx.get_by_file_id(82041).unwrap();
    assert!(rec.is_installed());
    assert_eq!(rec.mod_archives[0].1.status, ArchiveStatus::Installed);
    assert_eq!(rec.mod_name(), Some("Graphic Herbalism".to_string()));
    assert!(idx.remove_installed(82041, &"GH".to_string()));
    let rec = idx.get_by_file_id(82041).unwrap();
    assert!(!rec.is_installed());
    assert_eq!(rec.mod_archives[0].1.status, ArchiveStatus::Downloaded);
    idx.delete_if_unreferenced(82041);
    assert!(idx.get_by_file_id(82041).is_some());
}

#[test]
fn keyed_caches_read_back_what_was_stored() {
    let mut fls = FileLists::new();
    assert!(fls.get("morrowind", 1).is_none());
    fls.record("morrowind".to_string(), 1, None);
    assert!(matches!(fls.get("morrowind", 1), Some(None)));
    fls.insert("morrowind".to_string(), 1, FileList { files: vec![details(5, "a", 1)], file_updates: vec![] });
    assert_eq!(fls.get("morrowind", 1).unwrap().as_ref().unwrap().files.len(), 1);
    assert!(fls.get("skyrim", 1).is_none());
    let mut mis = ModInfoMap::new();
    mis.insert(ModInfo { name: None, domain_name: "morrowind".to_string(), mod_id: 46599 });
    assert!(mis.get("morrowind", 46599).unwrap().is_some());
    let mut m5 = Md5ResultMap::new();
    m5.record("morrowind".to_string(), 3, None);
    assert!(matches!(m5.get("morrowind", 3), Some(None)));
}

#[test]
fn file_list_lookup_and_pruning() {
    let mut fl = FileList {
        files: vec![details(30, "c", 300), details(10, "a", 100), details(20, "b", 200)],
        file_updates: vec![upd(20, "b", 30, "c", 250), upd(10, "a", 20, "b", 150)],
    };
    sort_file_list(&mut fl);
    let ids: Vec<u64> = fl.files.iter().map(|f| f.file_id).collect();
    assert_eq!(ids, vec![10, 20, 30]);
    assert_eq!(filedetails_for(&fl.files, 20).unwrap().name, "b");
    assert!(filedetails_for(&fl.files, 25).is_none());
    assert_eq!(find_details(&fl.files, 30).unwrap().name, "c");
    prune_file_list(&mut fl, 20, 200);
    let ids: Vec<u64> = fl.files.iter().map(|f| f.file_id).collect();
    assert_eq!(ids, vec![20, 30]);
    assert_eq!(fl.file_updates.len(), 1);
    assert_eq!(fl.file_updates[0].uploaded_timestamp, 250);
}

#[test]
fn save_file_list_fills_details_and_trims() {
    let mut cache = Cache::new(0);
    cache.metadata_index.add_to_collections(None, ModFileMetadata::new("morrowind".to_string(), 46599, 20));
    let fl = FileList {
        files: vec![details(30, "c", 300), details(10, "a", 100), details(20, "b", 200)],
        file_updates: vec![upd(20, "b", 30, "c", 250), upd(10, "a", 20, "b", 150)],
    };
    let r = cache.save_file_list(fl, "morrowind", 46599);
    let ids: Vec<u64> = r.files.iter().map(|f| f.file_id).collect();
    assert_eq!(ids, vec![20, 30]);
    // Only the updates older than the downloaded file (uploaded at 200) go.
    assert_eq!(r.file_updates.len(), 1);
    assert_eq!(r.file_updates[0].uploaded_timestamp, 250);
    assert_eq!(cache.metadata_index.get_by_file_id(20).unwrap().file_details.as_ref().unwrap().name, "b");
    assert_eq!(cache.file_lists.get("morrowind", 46599).unwrap().as_ref().unwrap().files.len(), 2);
    // With two downloaded files, the list is trimmed against the oldest.
    cache.metadata_index.add_to_collections(None, ModFileMetadata::new("morrowind".to_string(), 46599, 30));
    let fl = FileList {
        files: vec![details(30, "c", 300), details(10, "a", 100), details(20, "b", 200)],
        file_updates: vec![],
    };
    let r = cache.save_file_list(fl, "morrowind", 46599);
    let ids: Vec<u64> = r.files.iter().map(|f| f.file_id).collect();
    assert_eq!(ids, vec![20, 30]);
    let r = cache.save_file_list(
        FileList { files: vec![details(2, "x", 1), details(1, "y", 1)], file_updates: vec![] },
        "skyrim",
        7,
    );
    let ids: Vec<u64> = r.files.iter().map(|f| f.file_id).collect();
    assert_eq!(ids, vec![1, 2]);
}

#[test]
fn save_modinfo_fills_missing_descriptions() {
    let mut cache = Cache::new(0);
    cache.metadata_index.add_to_collections(None, ModFileMetadata::new("morrowind".to_string(), 46599, 20));
    let mi = ModInfo { name: Some("Graphic Herbalism - MWSE and OpenMW Edition".to_string()), domain_name: "morrowind".to_string(), mod_id: 46599 };
    cache.save_modinfo(mi);
    let rec = cache.metadata_index.get_by_file_id(20).unwrap();
    assert_eq!(rec.mod_name(), Some("Graphic Herbalism - MWSE and OpenMW Edition".to_string()));
    assert!(cache.mod_info.get("morrowind", 46599).unwrap().is_some());
    let text = cache.save_last_updated(1556986083);
    assert_eq!(cache.last_update_check, 1556986083);
    assert_eq!(text, "1556986083");
    assert_eq!(load_last_updated(Some(&text)), 1556986083);
}

#[test]
fn last_update_time_from_file() {
    assert_eq!(load_last_updated(Some("1556986083")), 1556986083);
    assert_eq!(load_last_updated(Some("garbage")), 0);
    assert_eq!(load_last_updated(None), 0);
}

#[test]
fn archives_listing() {
    let mut idx = MetadataIndex::new();
    let mut archives = ArchiveFiles::new();
    archives.add_archive(&mut idx, archive("a.7z", 1, 10), None, None);
    archives.add_archive(&mut idx, archive("b.7z", 1, 11), None, None);
    archives.add_archive(&mut idx, ArchiveEntry::MetadataOnly(metadata("c.7z", 2, 12)), None, None);
    assert!(archives.get("b.7z").is_some());
    assert_eq!(idx.get_modfiles("morrowind", 1), Some(vec![10, 11]));
    archives.set_status("a.7z", ArchiveStatus::Extracting);
    match archives.get("a.7z").unwrap() {
        ArchiveEntry::File(a) => assert_eq!(a.status, ArchiveStatus::Extracting),
        _ => panic!("expected an archive"),
    }
    assert!(archives.delete("a.7z"));
    assert!(!archives.delete("a.7z"));
    let names: Vec<&String> = archives.files.keys().collect();
    assert_eq!(names, vec!["c.7z", "b.7z"]);
}

#[test]
fn download_directory_entries() {
    assert_eq!(extension("a.tar.gz"), Some("gz".to_string()));
    assert_eq!(extension(".hidden"), None);
    assert_eq!(extension("noext"), None);
    assert_eq!(classify_download_entry("x.7z.part", true, false), DownloadEntryKind::Skip);
    assert_eq!(classify_download_entry(".part.json", true, false), DownloadEntryKind::Skip);
    assert_eq!(classify_download_entry("x.7z.part.json", true, false), DownloadEntryKind::Skip);
    assert_eq!(classify_download_entry("x.7z.part.json", true, true), DownloadEntryKind::Skip);
    assert_eq!(classify_download_entry("x.7z.json", true, true), DownloadEntryKind::Skip);
    assert_eq!(classify_download_entry("x.7z.json", true, false), DownloadEntryKind::MetadataOnly);
    assert_eq!(classify_download_entry("x.7z", true, false), DownloadEntryKind::Archive);
    assert_eq!(classify_download_entry("dir", false, false), DownloadEntryKind::Skip);
    assert_eq!(ArchiveStatus::Extracting.as_str(), "Extracting...");
    assert_eq!(ArchiveStatus::Downloaded.as_str(), "");
}

#[test]
fn archive_file_status_from_installed() {
    let mut idx = MetadataIndex::new();
    let mut installed = Installed::new();
    installed.add(&mut idx, "gh.7z".to_string(), ModDirectory::Unknown, None, None);
    let a = ArchiveFile::new(&installed, "/dl/gh.7z", 42, Some(metadata("gh.7z", 1, 2)));
    assert_eq!(a.file_name, "gh.7z");
    assert_eq!(a.status, ArchiveStatus::Installed);
    let b = ArchiveFile::new(&installed, "/dl/other.7z", 42, Some(metadata("other.7z", 1, 3)));
    assert_eq!(b.status, ArchiveStatus::Downloaded);
    let c = ArchiveFile::new(&installed, "/dl/gh.7z", 42, None);
    assert_eq!(c.status, ArchiveStatus::Downloaded);
}

#[test]
fn installed_load_order() {
    let mut idx = MetadataIndex::new();
    let mut installed = Installed::new();
    for d in ["a", "b", "c", "d"] {
        installed.add(&mut idx, d.to_string(), ModDirectory::Foreign(format!("{d}.7z")), None, None);
    }
    assert!(installed.move_to_index(0, 1));
    assert_eq!(installed.load_order(), vec!["b", "a", "c", "d"]);
    assert!(installed.move_to_index(3, 1));
    assert_eq!(installed.load_order(), vec!["b", "d", "a", "c"]);
    assert!(installed.move_to_index(2, 99));
    assert_eq!(installed.load_order(), vec!["a", "b", "d", "c"]);
    assert!(!installed.move_to_index(4, 0));
    assert!(installed.get("d").is_some());
    assert!(installed.delete(&mut idx, &"d".to_string()));
    assert_eq!(installed.load_order(), vec!["a", "b", "c"]);
    assert!(!installed.delete(&mut idx, &"d".to_string()));
}

#[test]
fn installed_nexus_mod_updates_index() {
    let mut idx = MetadataIndex::new();
    let mut installed = Installed::new();
    let im = installed_mod("gh.7z", 46599, 82041);
    installed.add(&mut idx, "GH".to_string(), ModDirectory::Nexus(im), None, None);
    assert!(idx.get_by_file_id(82041).unwrap().is_installed());
    assert!(idx.get_by_archive_name(&"gh.7z".to_string()).is_some());
    assert!(installed.delete(&mut idx, &"GH".to_string()));
    assert!(idx.get_by_file_id(82041).is_none());
}

#[test]
fn file_index_by_mod_newest_first() {
    let mut fi = FileIndex::new();
    let lf = |id: u64, name: &str| LocalFile::new(info("morrowind", name, 46599, id), UpdateStatus::UpToDate(0));
    fi.insert_loaded(lf(1, "a.7z"), details(1, "a", 100));
    fi.add(lf(2, "b.7z"), Some(details(2, "b", 300)));
    fi.add(lf(3, "c.7z"), None);
    fi.add(lf(4, "d.7z"), Some(details(4, "d", 200)));
    assert!(fi.has_changed);
    assert_eq!(fi.files_sorted.len(), 3);
    assert_eq!(fi.get_by_filename("d.7z").unwrap().file_id, 4);
    assert!(fi.get_by_filename("c.7z").is_none());
    assert!(fi.file_id_map.contains_key(&2));
}

#[test]
fn propagate_status_to_archives_and_dirs() {
    let mut m = ModFileMetadata::new("morrowind".to_string(), 1, 2);
    if let ArchiveEntry::File(a) = archive("a.7z", 1, 2) {
        m.add_archive(a);
    }
    m.add_installed_dir("A".to_string(), installed_mod("a.7z", 1, 2));
    m.propagate_update_status(UpdateStatus::OutOfDate(77));
    assert_eq!(m.update_status.to_enum(), UpdateStatus::OutOfDate(77));
    assert_eq!(m.mod_archives[0].1.mod_data.as_ref().unwrap().update_status.to_enum(), UpdateStatus::OutOfDate(77));
    assert_eq!(m.installed_mods[0].1.update_status.to_enum(), UpdateStatus::OutOfDate(77));
}

#[test]
fn file_list_directory_entries() {
    assert_eq!(file_list_key("46599.json", true), Some(46599));
    assert_eq!(file_list_key("46599.json", false), None);
    assert_eq!(file_list_key("abc.json", true), None);
    assert_eq!(file_list_key("46599.json.zst", true), None);
    assert_eq!(file_list_key(".json", true), None);
    let mut c = FileListCache::new();
    c.insert("morrowind".to_string(), 46599, FileList { files: vec![details(1, "a", 1)], file_updates: vec![] });
    assert_eq!(c.get("morrowind", 46599).unwrap().files.len(), 1);
    assert!(c.get("morrowind", 1).is_none());
}

#[test]
fn indexed_file_details_keep_insertion_order() {
    let mut c = FileDetailsCache::new(indexmap::IndexMap::new());
    assert!(!c.is_changed());
    assert_eq!(c.len(), 0);
    c.insert(30, details(30, "c", 1));
    c.insert(10, details(10, "a", 2));
    c.insert(30, details(30, "c2", 3));
    assert!(c.is_changed());
    assert_eq!(c.len(), 2);
    assert_eq!(c.get(&30).unwrap().name, "c2");
    assert!(c.get(&20).is_none());
    let (k, v) = c.get_index(1).unwrap();
    assert_eq!(k, 10);
    assert_eq!(v.name, "a");
    assert!(c.get_index(2).is_none());
    let names: Vec<String> = c.items().into_iter().map(|d| d.name).collect();
    assert_eq!(names, vec!["c2".to_string(), "a".to_string()]);
}

#[test]
fn stored_file_list_names_read_back() {
    for id in [0u32, 7, 46599, u32::MAX] {
        let name = format!("{}.json", dmodman::text::u64_to_string(id as u64));
        assert_eq!(file_list_key(&name, true), Some(id));
    }
    assert_eq!(file_list_key("46599.json", false), None);
    assert_eq!(file_list_key("x46599.json", true), None);
}

#[test]
fn installing_then_deleting_restores_listing() {
    let mut idx = MetadataIndex::new();
    let mut installed = Installed::new();
    for d in ["a", "b", "c"] {
        installed.add(&mut idx, d.to_string(), ModDirectory::Foreign(format!("{d}.7z")), None, None);
    }
    let before = installed.load_order();
    installed.add(&mut idx, "new".to_string(), ModDirectory::Unknown, None, None);
    assert_eq!(installed.load_order(), vec!["a", "b", "c", "new"]);
    assert!(installed.delete(&mut idx, &"new".to_string()));
    assert_eq!(installed.load_order(), before);
}

#[test]
fn listing_then_deleting_archive_restores_listing() {
    let mut idx = MetadataIndex::new();
    let mut archives = ArchiveFiles::new();
    archives.add_archive(&mut idx, archive("a.7z", 1, 10), None, None);
    archives.add_archive(&mut idx, archive("b.7z", 1, 11), None, None);
    archives.add_archive(&mut idx, archive("new.7z", 3, 30), None, None);
    assert!(archives.delete("new.7z"));
    let names: Vec<&String> = archives.files.keys().collect();
    assert_eq!(names, vec!["a.7z", "b.7z"]);
}

#[test]
fn downloaded_archive_kept_under_metadata_name() {
    let mut idx = MetadataIndex::new();
    let renamed = ArchiveEntry::File(ArchiveFile {
        file_name: "renamed.7z".to_string(),
        size: 10,
        mod_data: Some(metadata("gh.7z", 46599, 82041)),
        status: ArchiveStatus::Downloaded,
    });
    assert_eq!(idx.try_add_mod_archive(renamed, None, None), Some(82041));
    let rec = idx.get_by_file_id(82041).unwrap();
    assert_eq!(rec.mod_archives.len(), 1);
    assert_eq!(rec.mod_archives[0].0, "gh.7z");
    assert_eq!(rec.mod_archives[0].1.file_name, "renamed.7z");
    assert!(idx.get_by_archive_name(&"gh.7z".to_string()).is_some());
}

#[test]
fn file_list_read_falls_back_to_old_place() {
    let mut lists = FileLists::new();
    let old_place = FileList { files: vec![details(10, "a", 100)], file_updates: vec![] };
    let r = lists.record_read("morrowind".to_string(), 46599, None, Some(old_place));
    assert_eq!(r.unwrap().files.len(), 1);
    assert_eq!(lists.get("morrowind", 46599).unwrap().as_ref().unwrap().files[0].file_id, 10);
    let current = FileList { files: vec![details(20, "b", 200)], file_updates: vec![] };
    let r = lists.record_read("skyrim".to_string(), 7, Some(current), None);
    assert_eq!(r.unwrap().files[0].file_id, 20);
    assert!(lists.record_read("skyrim".to_string(), 8, None, None).is_none());
    assert!(lists.get("skyrim", 8).unwrap().is_none());
}

#[test]
fn update_check_refreshes_unless_cache_shows_update() {
    assert!(matches!(after_cached_check(None), ModCheckStep::Refresh));
    assert!(matches!(after_cached_check(Some(vec![])), ModCheckStep::Refresh));
    let f = LocalFile::new(info("morrowind", "a.7z", 1, 2), UpdateStatus::UpToDate(0));
    match after_cached_check(Some(vec![f])) {
        ModCheckStep::Done(v) => assert_eq!(v[0].file_name, "a.7z"),
        ModCheckStep::Refresh => panic!("expected the cached answer"),
    }
}

fn listed_status(cache: &Cache, name: &str) -> ArchiveStatus {
    match cache.archives.get(name).unwrap() {
        ArchiveEntry::File(a) => a.status,
        ArchiveEntry::MetadataOnly(_) => panic!("expected an archive file"),
    }
}

#[test]
fn archive_listing_follows_installs() {
    let mut cache = Cache::new(0);
    cache.archives.add_archive(&mut cache.metadata_index, archive("gh.7z", 46599, 82041), None, None);
    assert_eq!(listed_status(&cache, "gh.7z"), ArchiveStatus::Downloaded);
    cache.add_installed_dir("GH".to_string(), ModDirectory::Nexus(installed_mod("gh.7z", 46599, 82041)), None, None);
    assert_eq!(listed_status(&cache, "gh.7z"), ArchiveStatus::Installed);
    cache.add_installed_dir("GH2".to_string(), ModDirectory::Nexus(installed_mod("gh.7z", 46599, 82041)), None, None);
    assert!(cache.delete_installed_dir(&"GH".to_string()));
    assert_eq!(listed_status(&cache, "gh.7z"), ArchiveStatus::Installed);
    assert!(cache.delete_installed_dir(&"GH2".to_string()));
    assert_eq!(listed_status(&cache, "gh.7z"), ArchiveStatus::Downloaded);
    assert!(!cache.delete_installed_dir(&"GH2".to_string()));
}
