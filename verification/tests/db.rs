use dmodman::api::{FileDetails, FileList, FileUpdate, NxmUrl};
use dmodman::cache::keyed::KeyedCache;
use dmodman::db::cache::Cache;
use dmodman::db::file_details_cache::FileDetailsCache;
use dmodman::db::local_file::LocalFile;
use dmodman::db::path_type::{cache_dir, download_dir, PathType};
use dmodman::db::update::{file_has_update, search_update_chain, CheckStep, UpdateChecker};
use std::collections::HashMap;

fn details(file_id: u64, name: &str) -> FileDetails {
    FileDetails {
        file_id,
        name: name.to_string(),
        version: None,
        category_id: 1,
        category_name: None,
        uploaded_timestamp: file_id,
    }
}

fn upd(old_id: u64, new_id: u64, new_name: &str) -> FileUpdate {
    FileUpdate {
        old_file_id: old_id,
        old_file_name: String::new(),
        new_file_id: new_id,
        new_file_name: new_name.to_string(),
        uploaded_timestamp: 0,
    }
}

#[test]
fn search_chain_to_newest_file() {
    let updates = vec![upd(2, 3, "c.7z"), upd(1, 2, "b.7z"), upd(8, 9, "z.7z")];
    let c = search_update_chain(1, &"a.7z".to_string(), &updates).unwrap();
    assert!(c.has_update);
    assert_eq!(c.latest_file_id, 3);
    assert_eq!(c.latest_file_name, "c.7z");
    assert!(file_has_update(&Some(c), false));
    let c = search_update_chain(5, &"e.7z".to_string(), &updates).unwrap();
    assert!(!c.has_update);
    assert!(!file_has_update(&Some(c), false));
}

#[test]
fn search_chain_uses_every_update() {
    let updates = vec![upd(2, 3, "c.7z"), upd(1, 2, "b.7z")];
    let c = search_update_chain(1, &"a.7z".to_string(), &updates).unwrap();
    assert_eq!(c.latest_file_id, 3);
    assert!(c.has_update);
    let single = vec![upd(1, 2, "b.7z")];
    let c = search_update_chain(1, &"a.7z".to_string(), &single).unwrap();
    assert_eq!(c.latest_file_name, "b.7z");
    assert!(file_has_update(&Some(c), false));
}

#[test]
fn search_chain_gives_up_on_cycles() {
    let updates = vec![upd(1, 2, "b"), upd(2, 1, "a")];
    let c = search_update_chain(1, &"a".to_string(), &updates);
    assert!(c.is_none());
    assert!(!file_has_update(&c, false));
}

fn local(mod_id: u32, file_id: u64, name: &str) -> LocalFile {
    LocalFile { game: "morrowind".to_string(), file_name: name.to_string(), mod_id, file_id }
}

#[test]
fn update_checker_steps_of_one_file() {
    let mut lists = HashMap::new();
    lists.insert(7u32, FileList { files: vec![], file_updates: vec![upd(1, 2, "b.7z"), upd(2, 3, "c.7z")] });
    let mut u = UpdateChecker::new_with_file_lists(lists);
    match u.check_file(&local(7, 1, "a.7z"), "/d") {
        CheckStep::NeedExists(p) => assert_eq!(p, "/d/dmodman/morrowind/downloads/c.7z"),
        _ => panic!("expected an existence check"),
    }
    match u.check_file(&local(7, 2, "b.7z"), "/d") {
        CheckStep::NeedExists(p) => assert_eq!(p, "/d/dmodman/morrowind/downloads/c.7z"),
        _ => panic!("expected an existence check"),
    }
    assert!(matches!(u.check_file(&local(7, 3, "c.7z"), "/d"), CheckStep::Done(false)));
    assert!(matches!(u.check_file(&local(8, 1, "x.7z"), "/d"), CheckStep::NeedFileList));
    u.mark_updatable(8);
    assert!(matches!(u.check_file(&local(8, 1, "x.7z"), "/d"), CheckStep::Done(true)));
}

#[test]
fn update_checker_orders_fetched_history() {
    let u = UpdateChecker::new();
    let mut late = upd(2, 3, "c.7z");
    late.uploaded_timestamp = 20;
    let mut early = upd(1, 2, "b.7z");
    early.uploaded_timestamp = 10;
    let fl = FileList { files: vec![details(1, "a")], file_updates: vec![late, early] };
    let (step, sorted) = u.check_fetched(&local(7, 2, "b.7z"), fl, "/d");
    assert_eq!(sorted.file_updates[0].new_file_id, 2);
    assert_eq!(sorted.file_updates[1].new_file_id, 3);
    assert_eq!(sorted.files.len(), 1);
    match step {
        CheckStep::NeedExists(p) => assert_eq!(p, "/d/dmodman/morrowind/downloads/c.7z"),
        _ => panic!("expected an existence check"),
    }
}

#[test]
fn update_checker_remembers_mods() {
    let mut lists = HashMap::new();
    lists.insert(46599u32, FileList { files: vec![], file_updates: vec![] });
    let mut u = UpdateChecker::new_with_file_lists(lists);
    assert!(!u.is_updatable(46599));
    u.mark_updatable(46599);
    assert!(u.is_updatable(46599));
    assert!(!u.is_updatable(39350));
    assert!(u.file_lists.contains_key(&46599));
    assert!(UpdateChecker::new().updatable_mods.is_empty());
}

#[test]
fn file_details_cache_counts_and_flags() {
    let mut c = FileDetailsCache::new(HashMap::new());
    assert_eq!(c.len(), 0);
    assert!(!c.is_changed());
    assert!(c.is_changed());
    c.insert(1, details(1, "a"));
    c.insert(2, details(2, "b"));
    c.insert(1, details(1, "a2"));
    assert_eq!(c.len(), 2);
    assert_eq!(c.get(&1).unwrap().name, "a2");
    assert!(c.is_changed());
    c.remove(&2);
    assert_eq!(c.len(), 1);
    assert!(c.get(&2).is_none());
}

#[test]
fn per_game_cache_pairs_files_with_details() {
    let nxm = NxmUrl { domain_name: "morrowind".to_string(), mod_id: 46599, file_id: 82041, query: String::new() };
    let lf = LocalFile::new(&nxm, "gh.7z".to_string());
    let other = LocalFile::new(
        &NxmUrl { domain_name: "morrowind".to_string(), mod_id: 39350, file_id: 7, query: String::new() },
        "m.7z".to_string(),
    );
    let mut lists = KeyedCache::new();
    lists.insert("morrowind".to_string(), 46599, Some(FileList { files: vec![details(82041, "Main")], file_updates: vec![] }));
    let mut cache = Cache::new("morrowind".to_string(), vec![lf, other], lists);
    assert_eq!(cache.file_details.len(), 1);
    assert_eq!(cache.file_details.get(&82041).unwrap().name, "Main");
    assert!(cache.has_local_file(7));
    assert!(!cache.has_local_file(8));
    let new_lf = LocalFile::new(
        &NxmUrl { domain_name: "morrowind".to_string(), mod_id: 1, file_id: 8, query: String::new() },
        "n.7z".to_string(),
    );
    assert!(!cache.save_local_file(new_lf));
    assert!(cache.has_local_file(8));
    cache.save_file_list("morrowind", FileList { files: vec![], file_updates: vec![] }, 1);
    assert!(cache.file_list_map.get("morrowind", 1).is_some());
}

#[test]
fn per_game_paths() {
    assert_eq!(cache_dir("/home/u/.local/share", "morrowind"), "/home/u/.local/share/dmodman/morrowind");
    assert_eq!(download_dir("/home/u/.local/share", "morrowind"), "/home/u/.local/share/dmodman/morrowind/downloads");
    let nxm = NxmUrl { domain_name: "morrowind".to_string(), mod_id: 46599, file_id: 82041, query: String::new() };
    let lf = LocalFile::new(&nxm, "gh.7z".to_string());
    assert_eq!(lf.path("/d"), "/d/dmodman/morrowind/downloads/gh.7z");
    let (m, f) = (46599u32, 1000014198u64);
    assert_eq!(
        PathType::FileList("morrowind", &m).path("/d"),
        "/d/dmodman/morrowind/file_lists/46599.json"
    );
    assert_eq!(
        PathType::DownloadLink("morrowind", &m, &f).path("/d"),
        "/d/dmodman/morrowind/download_links/46599-1000014198.json"
    );
}
