use simsync::digest::content_hash;
use simsync::paths::{extension, file_name, file_stem, has_parent_dir_component, is_absolute, join_path, parent, path_within, strip_base, to_forward_slashes};
use simsync::text::{decimal_string, str_contains, str_eq_ignore_ascii_case, trim};

#[test]
fn join_path_follows_unix_rules() {
    assert_eq!(join_path("/games/sims", "Mods"), "/games/sims/Mods");
    assert_eq!(join_path("/games/sims/", "Mods"), "/games/sims/Mods");
    assert_eq!(join_path("", "Mods"), "Mods");
    assert_eq!(join_path("/games", "/abs/x"), "/abs/x");
}

#[test]
fn file_name_parent_stem_extension() {
    assert_eq!(file_name("Mods/sub/a.package"), Some("a.package".to_string()));
    assert_eq!(file_name("Mods/.."), None);
    assert_eq!(parent("Mods/sub/a.package"), Some("Mods/sub".to_string()));
    assert_eq!(parent("a.package"), Some(String::new()));
    assert_eq!(parent("/a"), Some("/".to_string()));
    assert_eq!(parent("/"), None);
    assert_eq!(file_stem("Mods/a.b.package"), Some("a.b".to_string()));
    assert_eq!(extension("Mods/a.b.package"), Some("package".to_string()));
    assert_eq!(extension("Mods/.hidden"), None);
    assert_eq!(file_stem("Mods/.hidden"), Some(".hidden".to_string()));
    assert_eq!(extension("Mods/noext"), None);
}

#[test]
fn parent_dir_components_are_found() {
    assert!(has_parent_dir_component("../x"));
    assert!(has_parent_dir_component("a/../x"));
    assert!(has_parent_dir_component("a/.."));
    assert!(!has_parent_dir_component("a/..b/x"));
    assert!(!has_parent_dir_component("a..b"));
}

#[test]
fn within_and_strip_compare_whole_components() {
    assert!(path_within("/a/b/c", "/a/b"));
    assert!(!path_within("/a/bc", "/a/b"));
    assert!(path_within("/a/b", "/a/b"));
    assert_eq!(strip_base("/a/b/c/d.txt", "/a/b"), Some("c/d.txt".to_string()));
    assert_eq!(strip_base("/x/y", "/a/b"), None);
}

#[test]
fn joined_path_strips_back_to_relative() {
    let joined = join_path("/base", "Mods/x.package");
    assert_eq!(strip_base(&joined, "/base"), Some("Mods/x.package".to_string()));
    let joined2 = join_path("/base/", "Saves/s.save");
    assert_eq!(strip_base(&joined2, "/base/"), Some("Saves/s.save".to_string()));
}

#[test]
fn backslashes_become_slashes() {
    assert_eq!(to_forward_slashes("Mods\\sub\\a.package"), "Mods/sub/a.package");
}

#[test]
fn text_helpers() {
    assert!(str_contains("hello world", "lo w"));
    assert!(!str_contains("hello", "world"));
    assert!(str_contains("abc", ""));
    assert!(str_eq_ignore_ascii_case("GameData", "gamedata"));
    assert!(!str_eq_ignore_ascii_case("GameData", "gamedat"));
    assert_eq!(trim("  \t label \n"), "label");
    assert_eq!(trim("   "), "");
    assert_eq!(trim(&trim("  x  ")), trim("  x  "));
    assert_eq!(decimal_string(0), "0");
    assert_eq!(decimal_string(999), "999");
    assert_eq!(decimal_string(1203), "1203");
}

#[test]
fn content_hash_is_lowercase_sha256_hex() {
    assert_eq!(content_hash(b"abc"), "ba7816bf8f01cfea414140de5dae2223b00361a396177a9cb410ff61f20015ad");
    assert_eq!(content_hash(b"").len(), 64);
    assert_eq!(content_hash(b""), "e3b0c44298fc1c149afbf4c8996fb92427ae41e4649b934ca495991b7852b855");
}


#[test]
fn windows_paths_are_read_by_both_separators() {
    assert_eq!(file_name("C:\\Users\\ana\\Downloads\\mod.package"), Some("mod.package".to_string()));
    assert_eq!(file_name("Mods\\sub/a.package"), Some("a.package".to_string()));
    assert_eq!(parent("C:\\g\\Mods"), Some("C:\\g".to_string()));
    assert_eq!(parent("C:\\g"), Some("C:\\".to_string()));
    assert_eq!(parent("C:\\"), None);
    assert_eq!(parent("\\g"), Some("\\".to_string()));
    assert!(is_absolute("C:\\g"));
    assert!(!is_absolute("\\g"));
    assert!(is_absolute("\\\\srv\\share\\x"));
    assert_eq!(join_path("C:", "x"), "C:x");
    assert_eq!(join_path("C:\\g", "\\x"), "C:\\x");
    assert_eq!(join_path("/base", "\\\\srv\\share"), "\\\\srv\\share");
    assert!(!is_absolute("Mods\\a"));
    assert!(has_parent_dir_component("..\\x"));
    assert!(has_parent_dir_component("Mods\\..\\x"));
    assert!(!has_parent_dir_component("Mods\\a..b"));
    assert_eq!(join_path("C:\\g\\", "Mods"), "C:\\g\\Mods");
    assert_eq!(join_path("C:\\g", "Mods"), "C:\\g/Mods");
    assert_eq!(join_path("/base", "D:\\other"), "D:\\other");
    assert_eq!(strip_base("C:\\g\\Mods\\a.package", "C:\\g"), Some("Mods\\a.package".to_string()));
    assert!(path_within("C:\\g\\Mods", "C:\\g"));
    assert!(!path_within("C:\\gx", "C:\\g"));
    assert_eq!(extension("C:\\g\\a.Package"), Some("Package".to_string()));
    assert_eq!(file_stem("C:\\g\\a.package"), Some("a".to_string()));
}
