use dmodman::config::config::{Config, ParsedConfig};
use dmodman::config::{
    apikey_file, config_dir, config_file, default_download_dir, install_dir_for_profile, trim_newline,
    xdg_data_dir, xdg_download_dir, ConfigBuilder, Profile, SystemDirs,
};
use dmodman::config::DataPath;

fn parsed_from_toml(text: &str) -> ParsedConfig {
    let table: toml::Table = toml::from_str(text).unwrap();
    let get = |k: &str| table.get(k).and_then(|v| v.as_str()).map(|s| s.to_string());
    ParsedConfig {
        apikey: get("apikey"),
        cross_game_modding: table.get("cross_game_modding").and_then(|v| v.as_bool()),
        game: get("game"),
        download_dir: get("download_dir"),
    }
}

const TEST_CONFIG: &str = "apikey = \"1234\"\ngame = \"morrowind\"\n";
const TEST_DOWNLOADS: &str = "/srv/dmodman/test/downloads/dmodman";

fn test_dirs() -> SystemDirs {
    SystemDirs {
        home_dir: "/home/dmodman_test".to_string(),
        data_local_dir: "/home/dmodman_test/.local/share".to_string(),
        cache_dir: "/home/dmodman_test/.cache".to_string(),
        config_dir: "/home/dmodman_test/.config".to_string(),
        xdg_download_dir: "/home/dmodman_test/Downloads".to_string(),
        xdg_data_dir: "/home/dmodman_test/.local/share".to_string(),
    }
}

#[test]
fn config_read_apikey() {
    let config = Config::new(None, None, parsed_from_toml(TEST_CONFIG), TEST_DOWNLOADS.to_string());
    assert_eq!(config.apikey(), Some("1234".to_string()));
}

#[test]
fn config_modfile_exists() {
    let game = "morrowind";
    let modfile = "Graphic Herbalism MWSE - OpenMW-46599-1-03-1556986083.7z";
    let config = Config::new(Some(game), None, parsed_from_toml(TEST_CONFIG), TEST_DOWNLOADS.to_string());
    let path = dmodman::path::path_join(&config.download_dir(), modfile);
    println!("path: {:?}", path);
    assert_eq!(
        path,
        "/srv/dmodman/test/downloads/dmodman/morrowind/Graphic Herbalism MWSE - OpenMW-46599-1-03-1556986083.7z"
    );
}

#[test]
fn game_selection_order() {
    let parsed = || parsed_from_toml("game = \"skyrim\"\ncross_game_modding = true\n");
    let c = Config::new(Some("oblivion"), Some("fallout4".to_string()), parsed(), "/d".to_string());
    assert_eq!(c.game(), Some("oblivion".to_string()));
    let c = Config::new(None, Some("fallout4".to_string()), parsed(), "/d".to_string());
    assert_eq!(c.game(), Some("fallout4".to_string()));
    assert!(c.cross_game_modding());
    let c = Config::new(None, Some("fallout4".to_string()), parsed_from_toml("game = \"skyrim\"\n"), "/d".to_string());
    assert_eq!(c.game(), Some("skyrim".to_string()));
    assert!(!c.cross_game_modding());
    assert_eq!(c.download_dir(), "/d/skyrim");
    assert_eq!(c.game_cache_dir("/home/u/.local/share"), "/home/u/.local/share/dmodman/skyrim");
}

#[test]
fn configured_download_dir_wins() {
    let c = Config::new(
        Some("morrowind"),
        None,
        parsed_from_toml("download_dir = \"/mnt/games\"\n"),
        "/default".to_string(),
    );
    assert_eq!(c.download_dir(), "/mnt/games/morrowind");
}

#[test]
fn default_config() {
    let config = ConfigBuilder::new().build(test_dirs(), None).ok().unwrap();
    assert_eq!(config.download_dir(), "/home/dmodman_test/Downloads/dmodman");
    assert_eq!(config.install_dir(), "/home/dmodman_test/.local/share/dmodman/profiles/default/install");
    assert_eq!(config.profile_name(), "default");
}

#[test]
fn append_profile_to_dirs() {
    let config = ConfigBuilder::new()
        .download_dir("/home/dmodman_test/toplevel_dls")
        .install_dir("/home/dmodman_test/toplevel_ins")
        .profile("append")
        .build(test_dirs(), None)
        .ok()
        .unwrap();
    assert_eq!(config.download_dir(), "/home/dmodman_test/toplevel_dls/append");
    assert_eq!(config.install_dir(), "/home/dmodman_test/toplevel_ins/append");
}

fn builder_with_profile(name: &str, dl: Option<&str>, ins: Option<&str>) -> ConfigBuilder {
    let mut b = ConfigBuilder::new();
    b.download_dir = Some("toplevel_dls".to_string());
    b.install_dir = Some("toplevel_ins".to_string());
    b.profiles.push((
        name.to_string(),
        Profile { download_dir: dl.map(|s| s.to_string()), install_dir: ins.map(|s| s.to_string()) },
    ));
    b
}

#[test]
fn relative_paths() {
    let b = builder_with_profile("relative_test", Some("relative_dls/"), Some("relative_ins/"));
    let config = b.profile("relative_test").build(test_dirs(), None).ok().unwrap();
    assert_eq!(config.download_dir(), "/home/dmodman_test/relative_dls/");
    assert_eq!(config.install_dir(), "/home/dmodman_test/relative_ins/");
}

#[test]
fn absolute_paths() {
    let b = builder_with_profile("absolute_test", Some("/absolute_dls"), Some("/absolute_ins"));
    let config = b.profile("absolute_test").build(test_dirs(), None).ok().unwrap();
    assert_eq!(config.download_dir(), "/absolute_dls");
    assert_eq!(config.install_dir(), "/absolute_ins");
}

#[test]
fn profile_specific_install_dir() {
    let b = builder_with_profile("insdir_only_test", None, Some("insdir_only"));
    let config = b.profile("insdir_only_test").build(test_dirs(), None).ok().unwrap();
    assert_eq!(config.install_dir(), "/home/dmodman_test/insdir_only");
    assert_eq!(config.download_dir(), "/home/dmodman_test/toplevel_dls");
}

#[test]
fn apikey_from_file_when_not_configured() {
    let config = ConfigBuilder::new().build(test_dirs(), Some("abcd".to_string())).ok().unwrap();
    assert_eq!(config.apikey(), Some("abcd".to_string()));
    let config = ConfigBuilder::new().apikey("1234").build(test_dirs(), Some("abcd".to_string())).ok().unwrap();
    assert_eq!(config.apikey(), Some("1234".to_string()));
}

#[test]
fn config_paths() {
    assert_eq!(config_dir("/home/u/.config"), "/home/u/.config/dmodman");
    assert_eq!(config_file("/home/u/.config"), "/home/u/.config/dmodman/config.toml");
    assert_eq!(apikey_file("/home/u/.config"), "/home/u/.config/dmodman/apikey");
    assert_eq!(default_download_dir(&test_dirs()), "/home/dmodman_test/Downloads/dmodman");
    assert_eq!(
        install_dir_for_profile(&test_dirs(), "p"),
        "/home/dmodman_test/.local/share/dmodman/profiles/p/install"
    );
}

#[test]
fn profile_dirs_of_config() {
    let config = ConfigBuilder::new().profile("testprofile").build(test_dirs(), None).ok().unwrap();
    assert_eq!(config.data_dir(), "/home/dmodman_test/.local/share/dmodman");
    assert_eq!(config.cache_for_profile(), "/home/dmodman_test/.cache/dmodman/testprofile");
    assert_eq!(
        config.metadata_for_profile(),
        "/home/dmodman_test/.local/share/dmodman/profiles/testprofile/metadata"
    );
    assert_eq!(config.metadata_dir(), "/home/dmodman_test/.local/share/dmodman/metadata");
    assert_eq!(config.download_dir(), "/home/dmodman_test/Downloads/dmodman/testprofile");
}

#[test]
fn xdg_variables() {
    assert_eq!(xdg_download_dir(Some("$HOME/dl".to_string()), Some("/fb".to_string())), Some("$HOME/dl".to_string()));
    assert_eq!(xdg_download_dir(Some("/abs".to_string()), None), Some("/abs".to_string()));
    assert_eq!(xdg_download_dir(Some("rel".to_string()), Some("/fb".to_string())), Some("/fb".to_string()));
    assert_eq!(xdg_data_dir(None, None), None);
}

#[test]
fn apikey_newline_trimmed() {
    assert_eq!(trim_newline("1234\n".to_string()), "1234");
    assert_eq!(trim_newline("1234\r\n".to_string()), "1234");
    assert_eq!(trim_newline("1234".to_string()), "1234");
    assert_eq!(trim_newline("12\n\n".to_string()), "12\n");
}

#[test]
fn data_paths() {
    let config = ConfigBuilder::new().profile("testprofile").build(test_dirs(), None).ok().unwrap();
    assert_eq!(
        DataPath::FileList(&config, "morrowind", 46599).path(),
        "/home/dmodman_test/.local/share/dmodman/profiles/testprofile/metadata/morrowind/file_lists/46599.json"
    );
    assert_eq!(
        DataPath::DownloadLink(&config, "morrowind", 46599, 1000014198).path(),
        "/home/dmodman_test/.local/share/dmodman/profiles/testprofile/metadata/morrowind/download_links/46599-1000014198.json"
    );
    assert_eq!(
        DataPath::ModInfo(&config, "morrowind", 46599).path(),
        "/home/dmodman_test/.local/share/dmodman/metadata/morrowind/mod_info/46599.json"
    );
    assert_eq!(
        DataPath::Md5Results(&config, "morrowind", 82041).path(),
        "/home/dmodman_test/.local/share/dmodman/metadata/morrowind/md5_results/82041.json"
    );
    assert_eq!(
        DataPath::FileListCompat(&config, "morrowind", 7).path(),
        "/home/dmodman_test/.local/share/dmodman/morrowind/file_lists/7.json"
    );
    let dir = "My Mod".to_string();
    assert_eq!(
        DataPath::ModDirMetadata(&config, &dir).path(),
        "/home/dmodman_test/.local/share/dmodman/profiles/testprofile/install/My Mod/.dmodman-meta.json"
    );
    let archive = "a.7z".to_string();
    assert_eq!(
        DataPath::ArchiveMetadata(&config, &archive).path(),
        "/home/dmodman_test/Downloads/dmodman/testprofile/a.7z.json"
    );
}

#[test]
fn system_dirs_from_what_was_found() {
    let s = |t: &str| Some(t.to_string());
    let d = SystemDirs::from_found(s("/h"), s("/l"), s("/c"), s("/f"), s("/dl"), s("/data"), s("rel"), s("$HOME/share"))
        .unwrap();
    assert_eq!(d.home_dir, "/h");
    assert_eq!(d.config_dir, "/f");
    assert_eq!(d.xdg_download_dir, "/dl");
    assert_eq!(d.xdg_data_dir, "$HOME/share");
    assert!(SystemDirs::from_found(s("/h"), s("/l"), s("/c"), None, s("/dl"), s("/data"), None, None).is_none());
    assert!(SystemDirs::from_found(s("/h"), s("/l"), s("/c"), s("/f"), None, s("/data"), None, None).is_none());
    assert!(SystemDirs::from_found(s("/h"), s("/l"), s("/c"), s("/f"), None, s("/data"), s("/x"), None).is_some());
}

#[test]
fn mod_read_apikey() {
    let config = ConfigBuilder::new().apikey("1234").build(test_dirs(), None).ok().unwrap();
    assert_eq!(config.apikey(), Some("1234".to_string()));
}

#[test]
fn mod_modfile_exists() {
    let profile = "testprofile";
    let modfile = "Graphic Herbalism MWSE - OpenMW-46599-1-03-1556986083.7z";
    let config = ConfigBuilder::new().profile(profile).build(test_dirs(), None).ok().unwrap();
    let path = dmodman::path::path_join(&config.download_dir(), modfile);
    println!("path: {:?}", path);
    assert_eq!(
        path,
        "/home/dmodman_test/Downloads/dmodman/testprofile/Graphic Herbalism MWSE - OpenMW-46599-1-03-1556986083.7z"
    );
}

#[test]
fn legacy_key_and_game_trimmed() {
    assert_eq!(dmodman::config::config::read_api_key(Some("  1234\n")), Some("1234".to_string()));
    assert_eq!(dmodman::config::config::read_api_key(None), None);
    assert_eq!(dmodman::config::config::game("\tmorrowind \r\n"), "morrowind");
    assert_eq!(dmodman::text::trim("\u{3000} a b \u{85}"), "a b");
    assert_eq!(dmodman::text::trim("   "), "");
    assert_eq!(dmodman::text::trim(""), "");
}
