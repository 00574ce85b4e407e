use simsync::synccrate::backup::{auto_backup_request, backup_request, new_backup_id, restore_request, auto_backup_label, auto_backups_to_prune, backup_destination, backup_sources, check_backup_size, default_game, restore_dirs, restore_game, restore_step, safety_backup_label, sort_backups, summarize_backup, validate_backup_label, BackupFileEntry, BackupInfo};
use simsync::synccrate::files::{check_compatibility, get_active_game, get_game_info, get_game_path, get_game_registry, get_user_library, scan_target, store_game_info, add_to_library, cached_hash, classify_file, corrected_game_path, dirs_to_create, extension_wanted, game_config_of, game_label, game_path_or, get_all_game_paths, install_folder, record_game_path, remove_from_library, resolve_game, set_active_game, toggle_clash_message, toggle_target, toggled_relative_path, AppState, HashCacheEntry};
use simsync::synccrate::packs::{check_mod_compatibility, clean_version_text, detect_game_info, detect_installed_packs, get_pack_registry, guess_mod_required_packs, sims2_packs, sims3_packs, sims4_packs, version_file_path, GameFolderProbe};
use simsync::synccrate::registry::{build_legacy_map, build_registry_map, default_read_text, default_true, get_game_def, resolve_game_id, ContentType, DetectionConfig, DetectionStrategy, GameDefinition, GameRegistry, PathCorrection, PlatformPaths, ValidationConfig, VersionDetection};
use simsync::synccrate::detect::{detection_candidates, detection_plan, Platform};
use simsync::synccrate::state::{CompatibilityStatus, FileInfo, FileManifest, GameInfo, PackType};

fn ct(id: &str, folder: &str, exts: &[&str], file_type: &str) -> ContentType {
    ContentType {
        id: id.to_string(),
        label: id.to_string(),
        folder: folder.to_string(),
        extensions: exts.iter().map(|e| e.to_string()).collect(),
        file_type: file_type.to_string(),
        classify_by_extension: vec![("ts4script".to_string(), "Mod".to_string())],
        icon: String::new(),
        color: String::new(),
        syncable: true,
    }
}

fn game(id: &str, label: &str, legacy: Option<&str>, packs: Option<&str>) -> GameDefinition {
    GameDefinition {
        id: id.to_string(),
        label: label.to_string(),
        family: "sims".to_string(),
        icon: String::new(),
        color: String::new(),
        primary_color: "#1ea84b".to_string(),
        auto_detect: true,
        detection: Some(DetectionConfig { strategies: vec![DetectionStrategy::AbsolutePaths { paths: PlatformPaths::empty() }] }),
        validation: Some(ValidationConfig { check_dirs: vec!["Mods".to_string()], auto_create_dirs: vec!["Mods".to_string(), "Saves".to_string()] }),
        content_types: vec![ct("mods", "Mods", &["package", "ts4script"], "CustomContent"), ct("saves", "Saves", &[], "Save")],
        dangerous_script_extensions: vec!["ts4script".to_string()],
        packs: packs.map(|p| p.to_string()),
        legacy_id: legacy.map(|l| l.to_string()),
        version_detection: Some(VersionDetection { file: "GameVersion.txt".to_string(), method: default_read_text() }),
        path_correction: Some(PathCorrection {
            known_subfolders: vec!["Mods".to_string(), "Saves".to_string()],
            nested_corrections: vec![("AddOns".to_string(), 2)],
        }),
    }
}

fn registry() -> GameRegistry {
    GameRegistry {
        version: 1,
        games: vec![game("sims4", "The Sims 4", Some("Sims4"), Some("sims4")), game("sims3", "The Sims 3", Some("Sims3"), Some("sims3")), game("stardew", "Stardew Valley", None, None)],
    }
}

fn state() -> AppState {
    AppState {
        game_paths: vec![("sims4".to_string(), "/g/s4".to_string())],
        active_game: "sims4".to_string(),
        user_library: vec!["sims4".to_string()],
        game_registry: registry(),
        game_info: vec![],
        local_manifest: FileManifest { files: vec![], generated_at: 0 },
    }
}

#[test]
fn registry_defaults() {
    assert!(default_true());
    assert_eq!(default_read_text(), "read_text_file");
    assert_eq!(default_game(), "sims4");
}

#[test]
fn registry_maps_and_game_resolution() {
    let reg = registry();
    let map = build_registry_map(&reg);
    assert_eq!(map.len(), 3);
    assert!(map.contains_key("stardew"));
    assert_eq!(map.get("sims3").unwrap().label, "The Sims 3");
    let legacy = build_legacy_map(&reg);
    assert_eq!(legacy.len(), 2);
    assert_eq!(legacy.get("Sims4").map(|s| s.as_str()), Some("sims4"));
    assert_eq!(resolve_game_id("sims3", &map, &legacy), Some("sims3".to_string()));
    assert_eq!(resolve_game_id("Sims4", &map, &legacy), Some("sims4".to_string()));
    assert_eq!(resolve_game_id("nope", &map, &legacy), None);
    assert_eq!(get_game_def(&reg, "stardew").unwrap().label, "Stardew Valley");
    assert!(get_game_def(&reg, "nope").is_none());
}

#[test]
fn pack_lists() {
    assert_eq!(sims4_packs().len(), 82);
    assert_eq!(sims3_packs().len(), 20);
    assert_eq!(sims2_packs().len(), 17);
    let reg = get_pack_registry("sims4");
    assert_eq!(reg.len(), 82);
    assert_eq!(reg[0].id.code, "EP01");
    assert_eq!(reg[0].name, "Get to Work");
    assert_eq!(reg[0].id.pack_type, PackType::ExpansionPack);
    assert_eq!(reg[81].id.code, "KT30");
    assert_eq!(reg[81].id.pack_type, PackType::Kit);
    assert!(get_pack_registry("fallout").is_empty());
    assert_eq!(get_pack_registry("sims2")[16].name, "Mansion & Garden");
}

#[test]
fn required_packs_are_guessed_from_the_path() {
    let req = guess_mod_required_packs("Mods/ep01_career.package", "sims4");
    assert_eq!(req.len(), 1);
    assert_eq!(req[0].code, "EP01");
    let req = guess_mod_required_packs("Mods/Seasons_Weather_Tweak.package", "sims4");
    assert_eq!(req.len(), 1);
    assert_eq!(req[0].code, "EP05");
    assert!(guess_mod_required_packs("Mods/hair.package", "sims4").is_empty());
    assert!(guess_mod_required_packs("Mods/ep01.package", "unknown").is_empty());
}

fn sc_file(path: &str, t: &str) -> FileInfo {
    FileInfo { relative_path: path.to_string(), size: 1, hash: String::new(), modified: 0, file_type: t.to_string() }
}

#[test]
fn compatibility_reports_missing_packs() {
    let manifest = FileManifest {
        files: vec![
            sc_file("Mods/ep01_gp04_mod.package", "CustomContent"),
            sc_file("Mods/plain.package", "Mod"),
            sc_file("Saves/ep01.save", "Save"),
            sc_file("Mods/sp01_party.package", "Mod"),
        ],
        generated_at: 0,
    };
    let installed = get_pack_registry("sims4").into_iter().filter(|p| p.id.code == "EP01" || p.id.code == "SP01").collect();
    let info = GameInfo { game_version: None, installed_packs: installed };
    let report = check_mod_compatibility(&manifest, &info, "sims4");
    assert_eq!(report.len(), 2);
    assert_eq!(report[0].mod_path, "Mods/ep01_gp04_mod.package");
    assert_eq!(report[0].required_packs.len(), 2);
    assert_eq!(report[0].missing_packs.len(), 1);
    assert_eq!(report[0].missing_packs[0].code, "GP04");
    assert_eq!(report[0].status, CompatibilityStatus::MissingPacks);
    assert_eq!(report[1].status, CompatibilityStatus::Compatible);
    assert!(report[1].missing_packs.is_empty());
    assert!(check_mod_compatibility(&manifest, &GameInfo::unknown(), "other").is_empty());
}

#[test]
fn version_text_is_cleaned() {
    assert_eq!(clean_version_text("  1.108.329.1030 \n"), Some("1.108.329.1030".to_string()));
    assert_eq!(clean_version_text("1.2\u{7}3"), Some("1.23".to_string()));
    assert_eq!(clean_version_text("   "), None);
    let long = "9".repeat(100);
    assert_eq!(clean_version_text(&long).unwrap().len(), 64);
}

fn probe(installed: Option<&str>, options: Option<&str>, dirs: &[&str]) -> GameFolderProbe {
    GameFolderProbe {
        version_text: Some("1.0\n".to_string()),
        installed_packs_text: installed.map(|s| s.to_string()),
        options_text: options.map(|s| s.to_string()),
        present_pack_dirs: dirs.iter().map(|d| d.to_string()).collect(),
    }
}

#[test]
fn installed_packs_use_the_first_strategy_that_finds_any() {
    let p = probe(Some("EP02\nseasons"), Some("GP01"), &["SP01"]);
    let found = detect_installed_packs("sims4", &p);
    let codes: Vec<&str> = found.iter().map(|p| p.id.code.as_str()).collect();
    assert_eq!(codes, vec!["EP02", "EP05"]);
    let p = probe(Some("nothing here"), Some("x GP01 y"), &["SP01"]);
    let codes: Vec<String> = detect_installed_packs("sims4", &p).into_iter().map(|p| p.id.code).collect();
    assert_eq!(codes, vec!["GP01".to_string()]);
    let p = probe(None, None, &["SP01", "EP03"]);
    let codes: Vec<String> = detect_installed_packs("sims3", &p).into_iter().map(|p| p.id.code).collect();
    assert_eq!(codes, vec!["EP03".to_string(), "SP01".to_string()]);
    // The installed-packs file is read for The Sims 4 only.
    let p = probe(Some("EP02"), None, &[]);
    assert!(detect_installed_packs("sims3", &p).is_empty());
    assert!(detect_installed_packs("unknown", &p).is_empty());
}

#[test]
fn game_info_combines_version_and_packs() {
    let reg = registry();
    assert_eq!(version_file_path(&reg, "sims4", "/g"), Some("/g/GameVersion.txt".to_string()));
    assert_eq!(version_file_path(&reg, "nope", "/g"), None);
    let info = detect_game_info("sims4", &reg, &probe(Some("EP01"), None, &[]));
    assert_eq!(info.game_version, Some("1.0".to_string()));
    assert_eq!(info.installed_packs.len(), 1);
    let info = detect_game_info("stardew", &reg, &probe(Some("EP01"), None, &["EP01"]));
    assert!(info.installed_packs.is_empty());
    let info = detect_game_info("nope", &reg, &probe(None, None, &[]));
    assert_eq!(info.game_version, None);
}

#[test]
fn games_are_resolved_labelled_and_activated() {
    let mut s = state();
    assert_eq!(resolve_game(&s, "Sims3"), Ok("sims3".to_string()));
    assert_eq!(resolve_game(&s, "zelda"), Err("Unknown game: zelda".to_string()));
    assert_eq!(game_label(&s, "sims3"), "The Sims 3");
    assert_eq!(game_label(&s, "zelda"), "zelda");
    assert_eq!(game_path_or(&s, "sims4", None), Ok("/g/s4".to_string()));
    assert_eq!(game_path_or(&s, "sims3", Some("/d".to_string())), Ok("/d".to_string()));
    assert_eq!(game_path_or(&s, "sims3", None), Err("The Sims 3 path not found".to_string()));
    set_active_game(&mut s, "Sims3").unwrap();
    assert_eq!(s.active_game, "sims3");
    assert!(set_active_game(&mut s, "zelda").is_err());
    assert_eq!(s.active_game, "sims3");
    let cfg = game_config_of(&s);
    assert_eq!(cfg.active_game, Some("sims3".to_string()));
}

#[test]
fn library_adds_once_and_removes_all() {
    let mut s = state();
    assert_eq!(add_to_library(&mut s, "zelda".to_string()), Err("Unknown game: zelda".to_string()));
    assert_eq!(add_to_library(&mut s, "sims4".to_string()), Ok(false));
    assert_eq!(add_to_library(&mut s, "sims3".to_string()), Ok(true));
    assert_eq!(add_to_library(&mut s, "sims3".to_string()), Ok(false));
    assert_eq!(s.user_library, vec!["sims4".to_string(), "sims3".to_string()]);
    remove_from_library(&mut s, "sims4");
    assert_eq!(s.user_library, vec!["sims3".to_string()]);
    remove_from_library(&mut s, "sims4");
    assert_eq!(s.user_library.len(), 1);
}

#[test]
fn game_paths_are_recorded_and_listed() {
    let mut s = state();
    record_game_path(&mut s, "sims3".to_string(), "/g/s3".to_string());
    record_game_path(&mut s, "sims4".to_string(), "/new/s4".to_string());
    assert_eq!(s.game_paths.len(), 2);
    let all = get_all_game_paths(&s);
    assert_eq!(all.len(), 3);
    assert_eq!(all[0], ("sims4".to_string(), Some("/new/s4".to_string())));
    assert_eq!(all[1], ("sims3".to_string(), Some("/g/s3".to_string())));
    assert_eq!(all[2], ("stardew".to_string(), None));
}

#[test]
fn chosen_folders_are_corrected() {
    let pc = Some(PathCorrection { known_subfolders: vec!["Mods".to_string()], nested_corrections: vec![("AddOns".to_string(), 2)] });
    assert_eq!(corrected_game_path("/g/The Sims 4/mods".to_string(), &pc), "/g/The Sims 4");
    assert_eq!(corrected_game_path("/g/Game/Data/AddOns".to_string(), &pc), "/g/Game");
    assert_eq!(corrected_game_path("/g/The Sims 4".to_string(), &pc), "/g/The Sims 4");
    assert_eq!(corrected_game_path("/g/mods".to_string(), &None), "/g/mods");
    let deep = Some(PathCorrection { known_subfolders: vec![], nested_corrections: vec![("x".to_string(), 5)] });
    assert_eq!(corrected_game_path("/a/x".to_string(), &deep), "/");
}

#[test]
fn folders_are_created_only_when_none_is_there() {
    let v = Some(ValidationConfig { check_dirs: vec!["Mods".to_string(), "Saves".to_string()], auto_create_dirs: vec!["Mods".to_string()] });
    assert_eq!(dirs_to_create(&v, &vec![false, false]), vec!["Mods".to_string()]);
    assert!(dirs_to_create(&v, &vec![false, true]).is_empty());
    assert!(dirs_to_create(&None, &vec![]).is_empty());
    let empty_check = Some(ValidationConfig { check_dirs: vec![], auto_create_dirs: vec!["Mods".to_string()] });
    assert!(dirs_to_create(&empty_check, &vec![]).is_empty());
}

#[test]
fn toggling_moves_between_the_mods_folder_and_disabled() {
    let reg = registry();
    assert_eq!(install_folder(&reg, "sims4"), "Mods");
    assert_eq!(install_folder(&reg, "nope"), "Mods");
    assert_eq!(toggle_target("/g", "Mods", "a.package", true), "/g/Mods/a.package");
    assert_eq!(toggle_target("/g", "Mods", "a.package", false), "/g/Mods/_Disabled/a.package");
    assert_eq!(toggled_relative_path("/g/Mods/_Disabled/a.package", "/g"), "Mods/_Disabled/a.package");
    assert_eq!(toggle_clash_message("Mods", true), "A file with that name already exists in Mods");
    assert_eq!(toggle_clash_message("Mods", false), "A file with that name already exists in _Disabled");
}

#[test]
fn scanned_files_are_typed_and_filtered() {
    let c = ct("mods", "Mods", &["package", "ts4script"], "CustomContent");
    assert_eq!(classify_file(&c, "ts4script"), "Mod");
    assert_eq!(classify_file(&c, "package"), "CustomContent");
    assert!(extension_wanted(&c.extensions, "package"));
    assert!(!extension_wanted(&c.extensions, "txt"));
    assert!(extension_wanted(&vec![], "txt"));
    let cache = vec![("/g/Mods/a".to_string(), HashCacheEntry { size: 3, mtime: 7, hash: "abc".to_string() })];
    assert_eq!(cached_hash(&cache, "/g/Mods/a", 3, 7), Some("abc".to_string()));
    assert_eq!(cached_hash(&cache, "/g/Mods/a", 4, 7), None);
    assert_eq!(cached_hash(&cache, "/g/Mods/b", 3, 7), None);
}

#[test]
fn backup_labels_are_checked() {
    assert_eq!(validate_backup_label("  Before update  "), Ok("Before update".to_string()));
    assert_eq!(validate_backup_label("   "), Err("Label must be 1-128 characters".to_string()));
    assert_eq!(validate_backup_label(&"x".repeat(129)), Err("Label must be 1-128 characters".to_string()));
    assert!(validate_backup_label(&"x".repeat(128)).is_ok());
    // 64 two-byte characters are 128 bytes; one more is too long.
    assert!(validate_backup_label(&"é".repeat(64)).is_ok());
    assert!(validate_backup_label(&"é".repeat(65)).is_err());
    assert_eq!(validate_backup_label("a\u{1}b"), Err("Label contains invalid characters".to_string()));
    let once = validate_backup_label(" x ").unwrap();
    assert_eq!(validate_backup_label(&once), Ok(once.clone()));
    assert_eq!(auto_backup_label("pre-sync", "2024-01-02 03:04"), "Auto: pre-sync 2024-01-02 03:04");
    assert_eq!(safety_backup_label("Mine"), "Pre-restore safety backup (Mine)");
}

fn entry(rel: &str, size: u64, cat: &str) -> BackupFileEntry {
    BackupFileEntry { relative_path: rel.to_string(), size, category: cat.to_string() }
}

#[test]
fn backups_are_summarized() {
    let counts = vec![("mods".to_string(), 2), ("saves".to_string(), 1), ("mods".to_string(), 5)];
    let entries = vec![entry("a", 10, "mods"), entry("b", 20, "mods"), entry("s", 5, "saves")];
    let info = summarize_backup("id1".to_string(), 9, "L".to_string(), "sims4".to_string(), false, &counts, &entries);
    assert_eq!(info.file_count, 3);
    assert_eq!(info.total_size, 35);
    assert_eq!(info.mods_count, 5);
    assert_eq!(info.saves_count, 1);
    assert_eq!(info.tray_count, 0);
    assert_eq!(info.screenshots_count, 0);
    let cts = vec![ct("mods", "Mods", &[], "CC"), ct("tray", "Tray", &[], "Tray")];
    let sources = backup_sources("/g", &cts);
    assert_eq!(sources, vec![("mods".to_string(), "/g/Mods".to_string()), ("tray".to_string(), "/g/Tray".to_string())]);
    assert_eq!(backup_destination("/b/id1", "mods", "sub/a.package"), Some("/b/id1/mods/sub/a.package".to_string()));
    assert_eq!(backup_destination("/b/id1", "mods", "../a"), None);
    assert!(check_backup_size(100000).is_ok());
    assert_eq!(check_backup_size(100001), Err("Too many files (>100000). Aborting backup.".to_string()));
}

fn backup(id: &str, at: u64, auto: bool, game: &str) -> BackupInfo {
    BackupInfo { id: id.to_string(), created_at: at, label: String::new(), file_count: 0, total_size: 0, mods_count: 0, saves_count: 0, tray_count: 0, screenshots_count: 0, game: game.to_string(), auto }
}

#[test]
fn the_oldest_automatic_backups_are_pruned() {
    let bs = vec![
        backup("a", 30, true, "sims4"),
        backup("b", 10, true, "sims4"),
        backup("c", 5, false, "sims4"),
        backup("d", 20, true, "sims4"),
        backup("e", 1, true, "sims3"),
        backup("f", 40, true, "sims4"),
    ];
    assert_eq!(auto_backups_to_prune(&bs, "sims4", 2), vec!["b".to_string(), "d".to_string()]);
    assert!(auto_backups_to_prune(&bs, "sims4", 4).is_empty());
    assert_eq!(auto_backups_to_prune(&bs, "sims4", 0).len(), 4);
    assert_eq!(auto_backups_to_prune(&bs, "sims3", 0), vec!["e".to_string()]);
    let sorted = sort_backups(bs);
    let ids: Vec<&str> = sorted.iter().map(|b| b.id.as_str()).collect();
    assert_eq!(ids, vec!["f", "a", "d", "b", "c", "e"]);
}

#[test]
fn restored_files_go_to_their_category_folders() {
    let cts = vec![ct("cc", "Mods", &[], "CC"), ct("saves", "Saves", &[], "Save")];
    let dirs = restore_dirs("/g", &cts);
    let step = restore_step("/b/x", &dirs, &entry("sub/a.package", 1, "cc")).unwrap();
    assert_eq!(step, ("/b/x/cc/sub/a.package".to_string(), "/g/Mods/sub/a.package".to_string()));
    // A backup made with the old category names still restores its mods.
    let step = restore_step("/b/x", &dirs, &entry("a.package", 1, "mods")).unwrap();
    assert_eq!(step.1, "/g/Mods/a.package");
    assert_eq!(restore_step("/b/x", &dirs, &entry("C:\\etc\\x", 1, "cc")), None);
    assert_eq!(restore_step("/b/x", &dirs, &entry("\\\\srv\\share\\x", 1, "cc")), None);
    // A rooted path without a drive is not absolute: it is restored, keeping the
    // drive of the folders it is joined onto.
    assert_eq!(restore_step("/b/x", &dirs, &entry("\\a", 1, "cc")), Some(("\\a".to_string(), "\\a".to_string())));
    let cdirs = restore_dirs("D:\\g", &cts);
    assert_eq!(restore_step("D:\\b", &cdirs, &entry("\\a", 1, "cc")), Some(("D:\\a".to_string(), "D:\\a".to_string())));
    assert_eq!(restore_step("/b/x", &dirs, &entry("\\a/../b", 1, "cc")), None);
    assert_eq!(restore_step("/b/x", &dirs, &entry("../x", 1, "cc")), None);
    assert_eq!(restore_step("/b/x", &dirs, &entry("x", 1, "tray")), None);
    let s = state();
    assert_eq!(restore_game(&s, "Sims3"), "sims3");
    assert_eq!(restore_game(&s, "zelda"), "sims4");
}

#[test]
fn command_targets_and_paths() {
    let mut st = state();
    assert_eq!(get_game_path(&st, "Sims4", None), Ok("/g/s4".to_string()));
    assert_eq!(get_game_path(&st, "sims3", Some("/d/s3".to_string())), Ok("/d/s3".to_string()));
    assert_eq!(get_game_path(&st, "sims3", None), Err("The Sims 3 path not found".to_string()));
    assert_eq!(get_game_path(&st, "nope", None), Err("Unknown game: nope".to_string()));
    assert_eq!(scan_target(&mut st, &None, None), Ok(("sims4".to_string(), "/g/s4".to_string())));
    assert_eq!(
        scan_target(&mut st, &Some("sims3".to_string()), None),
        Err("The Sims 3 path not found. Please set it manually.".to_string())
    );
    assert_eq!(scan_target(&mut st, &Some("sims3".to_string()), Some("/d/s3".to_string())), Ok(("sims3".to_string(), "/d/s3".to_string())));
    assert_eq!(get_game_path(&st, "sims3", None), Ok("/d/s3".to_string()));
    assert_eq!(scan_target(&mut st, &Some("nope".to_string()), None), Err("Unknown game: nope".to_string()));
}

#[test]
fn getters_give_the_state() {
    let st = state();
    assert_eq!(get_active_game(&st), "sims4");
    assert_eq!(get_user_library(&st), vec!["sims4".to_string()]);
    let games = get_game_registry(&st);
    assert_eq!(games.len(), 3);
    assert_eq!(games[1].label, "The Sims 3");
    assert_eq!(games[2].id, "stardew");
}

#[test]
fn detected_info_is_stored_and_read_back() {
    let mut st = state();
    let unknown = get_game_info(&st, &None).unwrap();
    assert_eq!(unknown.game_version, None);
    assert!(unknown.installed_packs.is_empty());
    assert!(get_game_info(&st, &Some("nope".to_string())).is_err());
    let pack = get_pack_registry("sims4")[0].clone();
    store_game_info(&mut st, "sims4".to_string(), GameInfo { game_version: Some("1.2".to_string()), installed_packs: vec![pack] });
    let info = get_game_info(&st, &Some("Sims4".to_string())).unwrap();
    assert_eq!(info.game_version, Some("1.2".to_string()));
    assert_eq!(info.installed_packs.len(), 1);
    store_game_info(&mut st, "sims4".to_string(), GameInfo { game_version: Some("1.3".to_string()), installed_packs: vec![] });
    assert_eq!(st.game_info.len(), 1);
    assert_eq!(get_game_info(&st, &None).unwrap().game_version, Some("1.3".to_string()));
}

#[test]
fn compatibility_command_uses_the_stored_packs() {
    let mut st = state();
    st.local_manifest = FileManifest { files: vec![sc_file("Mods/ep01_job.package", "CustomContent")], generated_at: 0 };
    let before = check_compatibility(&st, &None).unwrap();
    assert_eq!(before.len(), 1);
    assert_eq!(before[0].status, CompatibilityStatus::MissingPacks);
    let pack = get_pack_registry("sims4")[0].clone();
    store_game_info(&mut st, "sims4".to_string(), GameInfo { game_version: None, installed_packs: vec![pack] });
    let after = check_compatibility(&st, &None).unwrap();
    assert_eq!(after[0].status, CompatibilityStatus::Compatible);
    assert_eq!(check_compatibility(&st, &Some("nope".to_string())).err(), Some("Unknown game: nope".to_string()));
}

#[test]
fn backup_requests_are_checked() {
    let st = state();
    let req = backup_request(&st, "  Before update ", &None).unwrap();
    assert_eq!(req.label, "Before update");
    assert_eq!(req.game_id, "sims4");
    assert_eq!(req.base, "/g/s4");
    assert_eq!(req.content_types.len(), 2);
    assert_eq!(backup_request(&st, "   ", &None).err(), Some("Label must be 1-128 characters".to_string()));
    assert_eq!(backup_request(&st, "ok", &Some("nope".to_string())).err(), Some("Unknown game: nope".to_string()));
    assert_eq!(backup_request(&st, "ok", &Some("sims3".to_string())).err(), Some("The Sims 3 path not set".to_string()));
    let auto = auto_backup_request(&st, "Before sync").unwrap();
    assert!(auto.label.starts_with("Auto: Before sync "));
    assert_eq!(auto.label.len(), "Auto: Before sync ".len() + 16);
    assert_eq!(auto.base, "/g/s4");
    let mut other = state();
    other.active_game = "sims3".to_string();
    assert_eq!(auto_backup_request(&other, "a").err(), Some("Game path not set".to_string()));
}

#[test]
fn restore_requests_name_the_folders() {
    let st = state();
    let (game, dirs) = restore_request(&st, "Sims4").unwrap();
    assert_eq!(game, "sims4");
    assert!(dirs.contains(&("mods".to_string(), "/g/s4/Mods".to_string())));
    assert!(dirs.contains(&("saves".to_string(), "/g/s4/Saves".to_string())));
    let (game, _) = restore_request(&st, "whatever").unwrap();
    assert_eq!(game, "sims4");
    assert_eq!(
        restore_request(&st, "sims3").err(),
        Some("The Sims 3 path not set. Configure it before restoring this backup.".to_string())
    );
}

#[test]
fn new_backup_ids_are_distinct_and_safe() {
    let a = new_backup_id();
    let b = new_backup_id();
    assert_ne!(a, b);
    assert_eq!(a.len(), 36);
    assert!(simsync::simsync::utils::sanitize_id(&a).is_ok());
}

#[test]
fn games_are_looked_for_where_their_strategies_say() {
    let mut reg = registry();
    reg.games[0].detection = Some(DetectionConfig {
        strategies: vec![
            DetectionStrategy::DocumentsRelative { base: "Electronic Arts".to_string(), folders: vec!["The Sims 4".to_string(), "Die Sims 4".to_string()] },
            DetectionStrategy::AbsolutePaths {
                paths: PlatformPaths { windows: vec!["C:/Sims4".to_string()], macos: vec![], linux: vec!["/opt/sims4".to_string()] },
            },
        ],
    });
    reg.games[2].auto_detect = false;
    let docs = Some("/home/u/Documents".to_string());
    let c = detection_candidates(&reg.games[0], &docs, Platform::Linux);
    assert_eq!(
        c,
        vec![
            "/home/u/Documents/Electronic Arts/The Sims 4".to_string(),
            "/home/u/Documents/Electronic Arts/Die Sims 4".to_string(),
            "/opt/sims4".to_string()
        ]
    );
    assert_eq!(detection_candidates(&reg.games[0], &None, Platform::Windows), vec!["C:/Sims4".to_string()]);
    let plan = detection_plan(&reg, &docs, Platform::MacOs);
    assert_eq!(plan.len(), 2);
    assert_eq!(plan[0].0, "sims4");
    assert_eq!(plan[0].1.len(), 2);
    assert_eq!(plan[1].0, "sims3");
    assert!(plan[1].1.is_empty());
}

#[test]
fn a_game_scan_keeps_one_entry_per_path() {
    let files = vec![sc_file("Mods/a.package", "CustomContent"), sc_file("Mods/a.package", "Mod"), sc_file("Saves/x.save", "Save")];
    let m = simsync::synccrate::files::manifest_of(files, 3);
    assert_eq!(m.files.len(), 2);
    assert_eq!(m.files.iter().find(|f| f.relative_path == "Mods/a.package").unwrap().file_type, "Mod");
    assert_eq!(m.generated_at, 3);
}

#[test]
fn backups_of_the_same_time_keep_their_order() {
    let bs = vec![backup("x", 10, true, "sims4"), backup("y", 20, true, "sims4"), backup("z", 10, true, "sims4"), backup("w", 10, true, "sims4")];
    let ids: Vec<String> = sort_backups(bs.clone()).into_iter().map(|b| b.id).collect();
    assert_eq!(ids, vec!["y", "x", "z", "w"]);
    assert_eq!(auto_backups_to_prune(&bs, "sims4", 2), vec!["x".to_string(), "z".to_string()]);
}

#[test]
fn pack_lists_have_distinct_well_formed_codes() {
    for key in ["sims4", "sims3", "sims2"] {
        let packs = get_pack_registry(key);
        for (i, p) in packs.iter().enumerate() {
            assert_eq!(p.id.code.len(), 4);
            assert!(!p.name.is_empty());
            let kind = match &p.id.code[0..2] {
                "EP" => PackType::ExpansionPack,
                "GP" => PackType::GamePack,
                "SP" => PackType::StuffPack,
                "KT" => PackType::Kit,
                _ => panic!("unknown prefix"),
            };
            assert_eq!(kind, p.id.pack_type);
            assert!(packs[i + 1..].iter().all(|q| q.id.code != p.id.code));
        }
    }
}

#[test]
fn more_installed_packs_never_add_missing_ones() {
    let manifest = FileManifest {
        files: vec![sc_file("Mods/ep01_gp01_mix.package", "CustomContent"), sc_file("Mods/seasons.package", "Mod")],
        generated_at: 0,
    };
    let reg = get_pack_registry("sims4");
    let few = GameInfo { game_version: None, installed_packs: vec![reg[0].clone()] };
    let many = GameInfo { game_version: None, installed_packs: vec![reg[0].clone(), reg[4].clone(), reg[16].clone()] };
    let r1 = check_mod_compatibility(&manifest, &few, "sims4");
    let r2 = check_mod_compatibility(&manifest, &many, "sims4");
    assert_eq!(r1.len(), r2.len());
    for (a, b) in r1.iter().zip(r2.iter()) {
        assert_eq!(a.mod_path, b.mod_path);
        assert_eq!(a.required_packs.len(), b.required_packs.len());
        assert!(b.missing_packs.iter().all(|m| a.missing_packs.iter().any(|n| n.code == m.code)));
    }
    assert!(r2.iter().all(|m| m.status == CompatibilityStatus::Compatible));
    assert!(r1.iter().any(|m| m.status == CompatibilityStatus::MissingPacks));
}

#[test]
fn resolved_ids_resolve_to_themselves() {
    let reg = registry();
    let map = build_registry_map(&reg);
    let legacy = build_legacy_map(&reg);
    for name in ["Sims4", "Sims3", "sims4", "stardew"] {
        let id = resolve_game_id(name, &map, &legacy).unwrap();
        assert!(map.contains_key(&id));
        assert_eq!(resolve_game_id(&id, &map, &legacy), Some(id.clone()));
    }
    assert_eq!(resolve_game_id("Sims3", &map, &legacy), Some("sims3".to_string()));
}

#[test]
fn automatic_labels_end_in_a_minute_stamp() {
    let st = state();
    let label = auto_backup_request(&st, "p").unwrap().label;
    let stamp: Vec<char> = label["Auto: p ".len()..].chars().collect();
    let n = stamp.len();
    assert!(n >= 16);
    assert_eq!(stamp[n - 12], '-');
    assert_eq!(stamp[n - 9], '-');
    assert_eq!(stamp[n - 6], ' ');
    assert_eq!(stamp[n - 3], ':');
    for k in [n - 16, n - 15, n - 14, n - 13, n - 11, n - 10, n - 8, n - 7, n - 5, n - 4, n - 2, n - 1] {
        assert!(stamp[k].is_ascii_digit());
    }
}
