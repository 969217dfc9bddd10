use dmodman::cli::{CliExit, CliOpts};
use dmodman::cmdline::{check_args, usage_requested};
use dmodman::download::{get_mod_info, mod_info_path, mod_info_url, ModInfoSource};
use dmodman::api::ModInfo;

fn args(a: &[&str]) -> Vec<String> {
    a.iter().map(|s| s.to_string()).collect()
}

#[test]
fn no_argument_runs_interactively() {
    let o = CliOpts::new(&args(&["dmodman"])).ok().unwrap();
    assert!(o.is_interactive);
    assert_eq!(o.nxm_str_opt, None);
}

#[test]
fn daemonize_flags() {
    for flag in ["-d", "--daemonize"] {
        let o = CliOpts::new(&args(&["dmodman", flag])).ok().unwrap();
        assert!(!o.is_interactive);
        assert_eq!(o.nxm_str_opt, None);
    }
}

#[test]
fn nxm_url_argument() {
    let url = "nxm://morrowind/mods/46599/files/1000014198?key=abc&expires=1";
    let o = CliOpts::new(&args(&["dmodman", url])).ok().unwrap();
    assert!(o.is_interactive);
    assert_eq!(o.nxm_str_opt, Some(url.to_string()));
}

#[test]
fn wrong_command_lines() {
    let e = CliOpts::new(&args(&["dmodman", "-d", "nxm://x"])).err().unwrap();
    assert_eq!(e, CliExit::TooManyArguments);
    assert!(!e.is_success());
    assert_eq!(e.message(), "Too many arguments. Valid arguments are \"-d\" or an nxm:// URL.");
    let e = CliOpts::new(&args(&["dmodman", "--verbose"])).err().unwrap();
    assert_eq!(e, CliExit::UnexpectedArgument);
    assert_eq!(e.message(), "Arguments are expected only when acting as an nxm:// URL handler.");
}

#[test]
fn help_only_as_sole_word() {
    let e = CliOpts::new(&args(&["--help"])).err().unwrap();
    assert_eq!(e, CliExit::Help);
    assert!(e.is_success());
    assert_eq!(e.message(), "");
    let e = CliOpts::new(&args(&["dmodman", "-h"])).err().unwrap();
    assert_eq!(e, CliExit::UnexpectedArgument);
}

#[test]
fn lookup_command_line() {
    assert_eq!(check_args(&args(&["dmodman", "skyrim", "123"]), "morrowind"), Some(("skyrim".to_string(), 123)));
    assert_eq!(check_args(&args(&["dmodman", "46599"]), "morrowind"), Some(("morrowind".to_string(), 46599)));
    assert_eq!(check_args(&args(&["dmodman", "--help"]), "morrowind"), None);
    assert_eq!(check_args(&args(&["dmodman"]), "morrowind"), None);
    assert_eq!(check_args(&args(&["dmodman", "a", "1", "b"]), "morrowind"), None);
    assert!(usage_requested(&args(&["dmodman"])));
    assert!(usage_requested(&args(&["dmodman", "-h"])));
    assert!(!usage_requested(&args(&["dmodman", "1"])));
    assert!(!usage_requested(&args(&["dmodman", "a", "1", "b"])));
}

#[test]
fn mod_info_request_url() {
    assert_eq!(mod_info_url("morrowind", 46599), "https://api.nexusmods.com/v1/games/morrowind/mods/46599.json");
    assert_eq!(mod_info_path("/c", "morrowind", 46599), "/c/morrowind/46599.json");
}

#[test]
fn mod_info_from_cache_first() {
    let mi = ModInfo { name: Some("Graphic Herbalism".to_string()), domain_name: "morrowind".to_string(), mod_id: 46599 };
    match get_mod_info(Some(mi), "morrowind", 46599) {
        ModInfoSource::Cached(m) => assert_eq!(m.mod_id, 46599),
        ModInfoSource::Download(_) => panic!("expected the cached record"),
    }
    match get_mod_info(None, "morrowind", 46599) {
        ModInfoSource::Download(url) => {
            assert_eq!(url, "https://api.nexusmods.com/v1/games/morrowind/mods/46599.json")
        },
        ModInfoSource::Cached(_) => panic!("expected a request"),
    }
}
