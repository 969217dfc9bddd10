use dmodman::path::{file_name, is_absolute, normalize_path, path_join};
use dmodman::text::{contains_char, parse_u32, parse_u64, starts_with, str_eq, u64_to_string};
use dmodman::install::extract_path::entry_target;

#[test]
fn decimal_rendering() {
    assert_eq!(u64_to_string(0), "0");
    assert_eq!(u64_to_string(46599), "46599");
    assert_eq!(u64_to_string(u64::MAX), "18446744073709551615");
}

#[test]
fn parse_numbers_like_from_str() {
    assert_eq!(parse_u32("46599"), Some(46599));
    assert_eq!(parse_u32("+7"), Some(7));
    assert_eq!(parse_u32("4294967295"), Some(u32::MAX));
    assert_eq!(parse_u32("4294967296"), None);
    assert_eq!(parse_u32(""), None);
    assert_eq!(parse_u32("+"), None);
    assert_eq!(parse_u32("12a"), None);
    assert_eq!(parse_u32("-1"), None);
    assert_eq!(parse_u32("007"), Some(7));
    assert_eq!(parse_u64("18446744073709551615"), Some(u64::MAX));
    assert_eq!(parse_u64("18446744073709551616"), None);
    assert_eq!(parse_u64("1556986083"), Some(1556986083));
    assert_eq!(parse_u64("1556986083\n"), None);
    for s in ["0", "1", "99999", "+12", "abc", "", "4294967296"] {
        assert_eq!(parse_u32(s), s.parse::<u32>().ok());
        assert_eq!(parse_u64(s), s.parse::<u64>().ok());
    }
}

#[test]
fn text_comparisons() {
    assert!(starts_with("nxm://skyrim/mods/1", "nxm://"));
    assert!(!starts_with("nx", "nxm://"));
    assert!(str_eq("abc", "abc"));
    assert!(!str_eq("abc", "abd"));
    assert!(contains_char("a$b", '$'));
    assert!(!contains_char("ab", '$'));
}

#[test]
fn path_join_like_pathbuf_push() {
    assert_eq!(path_join("/a", "b"), "/a/b");
    assert_eq!(path_join("/a/", "b"), "/a/b");
    assert_eq!(path_join("/a", "/b"), "/b");
    assert_eq!(path_join("", "b"), "b");
    assert!(is_absolute("/x"));
    assert!(!is_absolute("x/y"));
}

#[test]
fn normalize_removes_dots() {
    assert_eq!(normalize_path("a/./b/../c"), "a/c");
    assert_eq!(normalize_path("/a/../b"), "/b");
    assert_eq!(normalize_path("../../x"), "x");
    assert_eq!(normalize_path("a//b/"), "a/b");
    assert_eq!(normalize_path("./"), "");
    assert_eq!(normalize_path("/"), "/");
}

#[test]
fn normalized_components_are_plain() {
    for p in ["a/../../b/./c", "/x/y/../../..", "..", "q/./r/.."] {
        let n = normalize_path(p);
        for c in n.split('/') {
            assert!(c != "." && c != "..");
        }
    }
}

#[test]
fn normalizing_twice_changes_nothing() {
    for p in ["a/../../b/./c", "/x/y/../../..", "..", "q/./r/..", "//a//b", "./x/", ""] {
        let once = normalize_path(p);
        assert_eq!(normalize_path(&once), once);
        assert_eq!(is_absolute(&once), is_absolute(p));
    }
}

#[test]
fn file_names_like_path_file_name() {
    assert_eq!(file_name("/a/b.7z"), Some("b.7z".to_string()));
    assert_eq!(file_name("b.7z"), Some("b.7z".to_string()));
    assert_eq!(file_name("/a/b/"), Some("b".to_string()));
    assert_eq!(file_name("/a/.."), None);
    assert_eq!(file_name("/"), None);
}

#[test]
fn archive_entry_targets() {
    assert_eq!(entry_target("/mods/My Mod", "Data/../textures/a.dds"), "/mods/My Mod/textures/a.dds");
    assert_eq!(entry_target("/mods/x", "../../etc/passwd"), "/mods/x/etc/passwd");
}

#[test]
fn decimal_text_reads_back() {
    for n in [0u64, 9, 10, 99, 46599, 1556986083, u32::MAX as u64, u64::MAX] {
        assert_eq!(parse_u64(&u64_to_string(n)), Some(n));
        if n <= u32::MAX as u64 {
            assert_eq!(parse_u32(&u64_to_string(n)), Some(n as u32));
        }
    }
}
