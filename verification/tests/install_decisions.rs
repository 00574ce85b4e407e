use simsync::install::{check_duplicate_source, check_install_size_and_name, check_install_source, copy_result, duplicate_result, format_extension_list, is_safe_file_name, next_rename_counter, overwrite_result, parse_strategy, rename_result, renamed_destination, DuplicateStrategy, InstallStatus, MAX_INSTALL_FILE_SIZE};
use simsync::simshare::{parse_game, SimsGame};

fn exts() -> Vec<String> {
    vec!["package".to_string(), "ts4script".to_string()]
}

#[test]
fn games_are_parsed() {
    assert_eq!(parse_game("Sims2"), Ok(SimsGame::Sims2));
    assert_eq!(parse_game("Sims3"), Ok(SimsGame::Sims3));
    assert_eq!(parse_game("Sims4"), Ok(SimsGame::Sims4));
    assert_eq!(parse_game("sims4"), Err("Unknown game: sims4".to_string()));
}

#[test]
fn missing_files_and_wrong_extensions_are_reported() {
    let r = check_install_source("/d/a.package", false, &exts(), "The Sims 4").unwrap_err();
    assert_eq!(r.status, InstallStatus::Failed);
    assert_eq!(r.message.as_deref(), Some("File does not exist"));
    assert_eq!(r.destination, "");
    let r = check_install_source("/d/a.TXT", true, &exts(), "The Sims 4").unwrap_err();
    assert_eq!(r.status, InstallStatus::InvalidExtension);
    assert_eq!(r.message.as_deref(), Some("Invalid extension '.txt'. Supported for The Sims 4: .package, .ts4script"));
    assert!(check_install_source("/d/a.PACKAGE", true, &exts(), "The Sims 4").is_ok());
    assert_eq!(format_extension_list(&vec![]), "");
}

#[test]
fn size_and_name_are_checked() {
    let r = check_install_size_and_name("/d/a.package", MAX_INSTALL_FILE_SIZE + 1).unwrap_err();
    assert_eq!(r.message.as_deref(), Some("File exceeds 2 GB size limit"));
    assert_eq!(check_install_size_and_name("/d/a.package", MAX_INSTALL_FILE_SIZE).unwrap(), "a.package");
    let r = check_install_size_and_name("/d/..", 1).unwrap();
    assert_eq!(r, "unknown");
    assert!(is_safe_file_name("a.package"));
    assert!(!is_safe_file_name("a..package"));
}

#[test]
fn duplicates_are_told_apart_by_hash() {
    let r = duplicate_result("/s/a", "/m/a", Ok("x".to_string()), Ok("x".to_string()));
    assert_eq!(r.status, InstallStatus::Duplicate);
    assert_eq!(r.message.as_deref(), Some("Identical file already exists"));
    assert_eq!(r.destination, "/m/a");
    let r = duplicate_result("/s/a", "/m/a", Ok("x".to_string()), Ok("y".to_string()));
    assert_eq!(r.message.as_deref(), Some("File with same name but different content exists"));
    let r = duplicate_result("/s/a", "/m/a", Err("Cannot read file: gone".to_string()), Ok("y".to_string()));
    assert_eq!(r.status, InstallStatus::Failed);
    assert_eq!(r.message.as_deref(), Some("Cannot read file: gone"));
    let r = copy_result("/s/a", "/m/a", Ok(()));
    assert_eq!(r.status, InstallStatus::Success);
    assert_eq!(r.message, None);
    let r = copy_result("/s/a", "/m/a", Err("disk full".to_string()));
    assert_eq!(r.message.as_deref(), Some("Copy failed: disk full"));
}

#[test]
fn clashes_are_settled() {
    assert_eq!(parse_strategy("overwrite"), Ok(DuplicateStrategy::Overwrite));
    assert_eq!(parse_strategy("rename"), Ok(DuplicateStrategy::Rename));
    assert_eq!(parse_strategy("merge"), Err("Unknown strategy: merge".to_string()));
    assert_eq!(renamed_destination("/g/Mods", "hair", "package", 1), "/g/Mods/hair_1.package");
    assert_eq!(renamed_destination("/g/Mods", "hair", "", 12), "/g/Mods/hair_12.");
    assert_eq!(next_rename_counter(1), Ok(2));
    assert_eq!(next_rename_counter(999), Err("Too many duplicates".to_string()));
    assert_eq!(check_duplicate_source(false, Some("a".to_string())), Err("Source file no longer exists".to_string()));
    assert_eq!(check_duplicate_source(true, None), Err("Invalid filename".to_string()));
    assert_eq!(check_duplicate_source(true, Some("a.package".to_string())), Ok("a.package".to_string()));
    let r = overwrite_result("/s/a".to_string(), "/m/a".to_string());
    assert_eq!(r.message.as_deref(), Some("Overwritten"));
    let r = rename_result("/s/a".to_string(), "/m/a_1.p".to_string(), "a_1.p");
    assert_eq!(r.message.as_deref(), Some("Renamed to a_1.p"));
    assert_eq!(r.status, InstallStatus::Success);
}

#[test]
fn windows_sources_install_under_their_file_name() {
    assert_eq!(check_install_size_and_name("C:\\Users\\ana\\Downloads\\hair.package", 10).unwrap(), "hair.package");
}
