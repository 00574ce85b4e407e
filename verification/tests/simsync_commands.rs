use simsync::simsync::files::{get_sims4_path, is_scanned, lower_extension, mods_file_type, scan_base_path, scan_key, set_sims4_path};
use simsync::simsync::profiles::{check_load_profile, export_destination, new_profile, profile_file_name, profile_mods, sort_profiles};
use simsync::simsync::session::{connection_failed, connect_to_peer, disconnect, disconnect_peer, get_session_status, record_discovered_peers, start_host, start_join};
use simsync::simsync::state::{AppState, FileInfo, FileManifest, FileType, ModProfile, PeerInfo, Resolution, SessionType, SyncAction, SyncPlan};
use simsync::simsync::sync::{begin_sync, check_plan_inputs, end_sync, finish_run, next_step, record_step, remote_copy_name, resolve_conflict, start_run, sync_outcome, StepOutcome};
use simsync::simsync::utils::{check_contained, join_within, mods_path, sanitize_id, saves_path, timestamp_now};

fn file(path: &str, t: FileType) -> FileInfo {
    FileInfo { relative_path: path.to_string(), size: 10, hash: format!("h-{}", path), modified: 5, file_type: t }
}

fn peer(id: &str, name: &str) -> PeerInfo {
    PeerInfo { id: id.to_string(), name: name.to_string(), ip: "10.0.0.2".to_string(), port: 9000, mod_count: 3, version: "1".to_string() }
}

fn conflict(path: &str) -> SyncAction {
    SyncAction::Conflict { local: file(path, FileType::Mod), remote: file(path, FileType::Mod) }
}

#[test]
fn mods_and_saves_folders() {
    assert_eq!(mods_path("/home/u/The Sims 4"), "/home/u/The Sims 4/Mods");
    assert_eq!(saves_path("/home/u/The Sims 4"), "/home/u/The Sims 4/Saves");
}

#[test]
fn sanitize_id_accepts_plain_ids_and_rejects_traversal() {
    assert_eq!(sanitize_id("abc-123"), Ok(()));
    assert_eq!(sanitize_id(""), Err("ID cannot be empty".to_string()));
    let bad = Err("Invalid ID: contains path separators or traversal".to_string());
    assert_eq!(sanitize_id("a/b"), bad);
    assert_eq!(sanitize_id("a\\b"), bad);
    assert_eq!(sanitize_id("a..b"), bad);
    assert_eq!(sanitize_id("a\0b"), bad);
}

#[test]
fn safe_join_text_checks() {
    assert_eq!(join_within("/base", "C:/etc/passwd"), Err("Absolute path rejected: C:/etc/passwd".to_string()));
    assert_eq!(join_within("/base", "\\\\srv\\share"), Err("Absolute path rejected: \\\\srv\\share".to_string()));
    // Rooted but not absolute: a `..` component is what refuses it.
    assert_eq!(join_within("base", "\\a/../b"), Err("Path traversal rejected: \\a/../b".to_string()));
    assert_eq!(join_within("C:\\g", "\\x"), Ok("C:\\x".to_string()));
    assert_eq!(join_within("/base", "Mods/../../x"), Err("Path traversal rejected: Mods/../../x".to_string()));
    assert_eq!(join_within("/base", "Mods/a.package"), Ok("/base/Mods/a.package".to_string()));
    assert_eq!(check_contained("/base/Mods/a", "/base", "Mods/a"), Ok(()));
    assert_eq!(check_contained("/other/a", "/base", "x"), Err("Path escapes base directory: x".to_string()));
}

#[test]
fn timestamp_is_after_2020() {
    assert!(timestamp_now() > 1_577_836_800);
}

#[test]
fn hosting_requires_no_session_and_a_game_folder() {
    let mut s = AppState::new();
    assert_eq!(start_host(&mut s, "Ana".to_string()).unwrap_err(), "Sims 4 path not set. Please set it first.");
    s.sims4_path = Some("/g".to_string());
    let info = start_host(&mut s, "Ana".to_string()).unwrap();
    assert_eq!(info.session_type, SessionType::Host);
    assert_eq!(info.name, "Ana");
    assert_eq!(info.port, 9847);
    assert_eq!(info.peer_count, 0);
    assert_eq!(s.session_name, "Ana");
    assert_eq!(start_host(&mut s, "Bo".to_string()).unwrap_err(), "Already in a session. Disconnect first.");
    assert_eq!(start_join(&s).unwrap_err(), "Already in a session. Disconnect first.");
    disconnect(&mut s);
    assert_eq!(s.session_type, SessionType::Inactive);
    assert!(s.session_name.is_empty() && s.local_display_name.is_empty());
    assert!(start_host(&mut s, "Ana".to_string()).is_ok());
}

#[test]
fn joining_and_connecting_to_a_peer() {
    let mut s = AppState::new();
    assert!(start_join(&s).is_ok());
    let found = record_discovered_peers(&mut s, vec![peer("p1", "Host One"), peer("p2", "Host Two")], "Me".to_string());
    assert_eq!(found.len(), 2);
    assert_eq!(s.local_display_name, "Me");
    assert_eq!(connect_to_peer(&mut s, "p9").unwrap_err(), "Peer not found");
    assert_eq!(s.session_type, SessionType::Inactive);
    let info = connect_to_peer(&mut s, "p2").unwrap();
    assert_eq!(info.session_type, SessionType::Client);
    assert_eq!(info.name, "Host Two");
    assert_eq!(info.port, 9000);
    assert_eq!(info.peer_count, 1);
    assert_eq!(s.session_name, "Host Two");
}

#[test]
fn disconnecting_one_peer() {
    let mut s = AppState::new();
    s.peers = vec![peer("a", "A"), peer("b", "B")];
    assert_eq!(disconnect_peer(&mut s, "zz").unwrap_err(), "Peer 'zz' not found");
    let gone = disconnect_peer(&mut s, "a").unwrap();
    assert_eq!(gone.name, "A");
    assert_eq!(s.peers.len(), 1);
    assert_eq!(s.peers[0].id, "b");
    let status = get_session_status(&s);
    assert_eq!(status.peers.len(), 1);
    assert_eq!(status.port, 9847);
    assert!(!status.is_syncing);
}

#[test]
fn keep_both_names_the_remote_copy() {
    assert_eq!(remote_copy_name("Mods/cc/hair.package"), "Mods/cc/hair_remote.package");
    assert_eq!(remote_copy_name("hair.package"), "hair_remote.package");
    assert_eq!(remote_copy_name("Mods/README"), "Mods/README_remote");
    assert_eq!(remote_copy_name("notes"), "notes_remote");
}

fn state_with_conflict() -> AppState {
    let mut s = AppState::new();
    s.remote_manifest = Some(FileManifest { files: vec![file("Mods/a.package", FileType::CustomContent)], generated_at: 1 });
    s.sync_plan = Some(SyncPlan {
        actions: vec![conflict("Mods/a.package"), SyncAction::Delete("Saves/old.save".to_string()), conflict("Mods/b.package")],
        total_bytes: 20,
    });
    s
}

#[test]
fn resolving_a_conflict_with_each_resolution() {
    let mut s = state_with_conflict();
    resolve_conflict(&mut s, "Mods/a.package", Resolution::KeepMine).unwrap();
    let plan = s.sync_plan.as_ref().unwrap();
    assert_eq!(plan.actions.len(), 2);
    assert!(matches!(plan.actions[0], SyncAction::Delete(_)));
    assert_eq!(plan.total_bytes, 20);

    let mut s = state_with_conflict();
    resolve_conflict(&mut s, "Mods/a.package", Resolution::UseTheirs).unwrap();
    let plan = s.sync_plan.as_ref().unwrap();
    assert_eq!(plan.actions.len(), 3);
    match &plan.actions[2] {
        SyncAction::ReceiveFromRemote(f) => assert_eq!(f.relative_path, "Mods/a.package"),
        _ => panic!("expected a file to receive"),
    }

    let mut s = state_with_conflict();
    resolve_conflict(&mut s, "Mods/a.package", Resolution::KeepBoth).unwrap();
    let plan = s.sync_plan.as_ref().unwrap();
    match &plan.actions[2] {
        SyncAction::ReceiveFromRemote(f) => {
            assert_eq!(f.relative_path, "Mods/a_remote.package");
            assert_eq!(f.hash, "h-Mods/a.package");
        }
        _ => panic!("expected a file to receive"),
    }
    // Settling again with "keep mine" changes nothing.
    let before = plan.actions.len();
    resolve_conflict(&mut s, "Mods/a.package", Resolution::KeepMine).unwrap();
    assert_eq!(s.sync_plan.as_ref().unwrap().actions.len(), before);
}

#[test]
fn no_conflict_resolution_during_sync() {
    let mut s = state_with_conflict();
    s.is_syncing = true;
    assert_eq!(resolve_conflict(&mut s, "Mods/a.package", Resolution::KeepMine).unwrap_err(), "Cannot resolve conflicts while sync is in progress");
    assert_eq!(s.sync_plan.as_ref().unwrap().actions.len(), 3);
}

#[test]
fn a_sync_starts_only_without_conflicts() {
    let mut s = AppState::new();
    assert_eq!(begin_sync(&mut s).unwrap_err(), "No sync plan computed.");
    let mut s = state_with_conflict();
    assert_eq!(begin_sync(&mut s).unwrap_err(), "Resolve all conflicts before syncing");
    assert!(s.sync_plan.is_some());
    resolve_conflict(&mut s, "Mods/a.package", Resolution::UseTheirs).unwrap();
    resolve_conflict(&mut s, "Mods/b.package", Resolution::KeepMine).unwrap();
    assert_eq!(begin_sync(&mut s).unwrap_err(), "Sims 4 path not set");
    assert!(s.sync_plan.is_none());

    let mut s = state_with_conflict();
    s.sims4_path = Some("/g".to_string());
    resolve_conflict(&mut s, "Mods/a.package", Resolution::KeepMine).unwrap();
    resolve_conflict(&mut s, "Mods/b.package", Resolution::KeepMine).unwrap();
    let (plan, base) = begin_sync(&mut s).unwrap();
    assert_eq!(plan.actions.len(), 1);
    assert_eq!(base, "/g");
    assert!(s.is_syncing);
    assert!(s.sync_plan.is_none());
    assert_eq!(begin_sync(&mut s).unwrap_err(), "Sync is already in progress");
    end_sync(&mut s);
    assert!(!s.is_syncing);
}

#[test]
fn sync_outcome_counts_failures() {
    assert_eq!(sync_outcome(0), Ok(()));
    assert_eq!(sync_outcome(3), Err("3 file(s) failed to sync".to_string()));
}

#[test]
fn plan_inputs_are_checked() {
    let mut s = AppState::new();
    assert_eq!(check_plan_inputs(&s).unwrap_err(), "No files scanned. Scan your files first.");
    s.local_manifest.files.push(file("Mods/a.package", FileType::Mod));
    assert_eq!(check_plan_inputs(&s).unwrap_err(), "No remote manifest available. Connect to a peer first.");
    s.remote_manifest = Some(FileManifest::empty());
    assert!(check_plan_inputs(&s).is_ok());
}

#[test]
fn scanning_rules() {
    assert!(is_scanned("Mods", "package"));
    assert!(is_scanned("Mods", "ts4script"));
    assert!(!is_scanned("Mods", "txt"));
    assert!(is_scanned("Saves", "txt"));
    assert_eq!(mods_file_type("ts4script"), FileType::Mod);
    assert_eq!(mods_file_type("package"), FileType::CustomContent);
    assert_eq!(lower_extension("Mods/X.PACKAGE"), "package");
    assert_eq!(lower_extension("Mods/noext"), "");
    assert_eq!(scan_key("/g/Mods/a.package", "/g"), "Mods/a.package");
    assert_eq!(scan_key("C:\\g\\Mods\\a.package", "/elsewhere"), "C:/g/Mods/a.package");
}

#[test]
fn game_folder_lookup_and_setting() {
    let mut s = AppState::new();
    assert_eq!(get_sims4_path(&s, None).unwrap_err(), "Sims 4 path not found");
    assert_eq!(get_sims4_path(&s, Some("/d".to_string())).unwrap(), "/d");
    assert_eq!(scan_base_path(&mut s, None).unwrap_err(), "Sims 4 path not found. Please set it manually.");
    assert_eq!(scan_base_path(&mut s, Some("/d".to_string())).unwrap(), "/d");
    assert_eq!(s.sims4_path.as_deref(), Some("/d"));
    assert_eq!(set_sims4_path(&mut s, "/x".to_string(), false).unwrap_err(), "Path does not exist");
    assert_eq!(s.sims4_path.as_deref(), Some("/d"));
    set_sims4_path(&mut s, "/x".to_string(), true).unwrap();
    assert_eq!(get_sims4_path(&s, Some("/d".to_string())).unwrap(), "/x");
}

#[test]
fn profiles_record_mods_and_custom_content() {
    let manifest = FileManifest {
        files: vec![
            file("Mods/a.ts4script", FileType::Mod),
            file("Saves/s.save", FileType::Save),
            file("Mods/cc/b.package", FileType::CustomContent),
        ],
        generated_at: 0,
    };
    let mods = profile_mods(&manifest);
    assert_eq!(mods.len(), 2);
    assert_eq!(mods[0].name, "a.ts4script");
    assert_eq!(mods[1].relative_path, "Mods/cc/b.package");
    assert_eq!(mods[1].name, "b.package");
    let p = new_profile(&manifest, "Build".to_string(), "d".to_string(), "i".to_string(), "host".to_string());
    assert_eq!(p.id.len(), 36);
    assert!(sanitize_id(&p.id).is_ok());
    assert_eq!(p.mods.len(), 2);
    assert_eq!(p.author, "host");
    assert_eq!(profile_file_name(&p.id), format!("{}.json", p.id));
}

#[test]
fn export_destination_gets_the_extension_once() {
    assert_eq!(export_destination("/tmp/p".to_string()), "/tmp/p.simsync-profile");
    assert_eq!(export_destination("/tmp/p.simsync-profile".to_string()), "/tmp/p.simsync-profile");
}

#[test]
fn loading_a_profile_needs_a_valid_id_and_a_folder() {
    let mut s = AppState::new();
    assert_eq!(check_load_profile(&s, "../x").unwrap_err(), "Invalid ID: contains path separators or traversal");
    assert_eq!(check_load_profile(&s, "").unwrap_err(), "ID cannot be empty");
    assert_eq!(check_load_profile(&s, "abc").unwrap_err(), "Sims 4 path not set");
    s.sims4_path = Some("/g".to_string());
    assert!(check_load_profile(&s, "abc").is_ok());
}

fn profile(id: &str, at: u64) -> ModProfile {
    ModProfile { id: id.to_string(), name: id.to_string(), description: String::new(), icon: String::new(), author: String::new(), created_at: at, mods: vec![] }
}

#[test]
fn profiles_are_listed_newest_first() {
    let sorted = sort_profiles(vec![profile("a", 5), profile("b", 9), profile("c", 1), profile("d", 9)]);
    let ids: Vec<&str> = sorted.iter().map(|p| p.id.as_str()).collect();
    assert_eq!(ids, vec!["b", "d", "a", "c"]);
}

#[test]
fn a_sync_run_records_each_step() {
    let plan = SyncPlan {
        actions: vec![
            SyncAction::ReceiveFromRemote(file("Mods/a.package", FileType::Mod)),
            SyncAction::SendToRemote(file("Mods/b.package", FileType::Mod)),
            conflict("Mods/c.package"),
            SyncAction::Delete("Mods/d.package".to_string()),
            SyncAction::ReceiveFromRemote(file("Mods/e.package", FileType::Mod)),
            SyncAction::Delete("../x".to_string()),
        ],
        total_bytes: 40,
    };
    let mut run = start_run();
    let outcomes = vec![
        StepOutcome::Done,
        StepOutcome::Done,
        StepOutcome::Done,
        StepOutcome::Failed("busy".to_string()),
        StepOutcome::Failed("timeout".to_string()),
        StepOutcome::Rejected("Path traversal rejected: ../x".to_string()),
    ];
    let mut steps = Vec::new();
    for outcome in outcomes {
        let step = next_step(&plan, &run).unwrap();
        steps.push(format!("{:?}", step));
        record_step(&plan, &mut run, outcome);
    }
    assert!(next_step(&plan, &run).is_none());
    assert!(matches!(steps[0].as_str(), s if s.starts_with("Receive")));
    assert!(steps[2].starts_with("Skip"));
    assert_eq!(run.next, 6);
    assert_eq!(run.done, 4);
    assert_eq!(
        run.errors,
        vec![
            "Delete Mods/d.package: busy".to_string(),
            "Mods/e.package: timeout".to_string(),
            "Delete ../x: path rejected: Path traversal rejected: ../x".to_string()
        ]
    );
    assert_eq!(finish_run(&plan, &run), Err("3 file(s) failed to sync".to_string()));
    let empty = SyncPlan { actions: vec![], total_bytes: 0 };
    let run = start_run();
    assert!(next_step(&empty, &run).is_none());
    assert_eq!(finish_run(&empty, &run), Ok(()));
}

#[test]
fn a_scan_keeps_one_entry_per_path() {
    let mut later = file("Mods/a.package", FileType::Mod);
    later.size = 99;
    let files = vec![file("Mods/a.package", FileType::Mod), file("Saves/s.save", FileType::Save), later, file("Mods/b.package", FileType::CustomContent)];
    let m = simsync::simsync::files::manifest_of(files, 7);
    assert_eq!(m.generated_at, 7);
    assert_eq!(m.files.len(), 3);
    let a: Vec<&FileInfo> = m.files.iter().filter(|f| f.relative_path == "Mods/a.package").collect();
    assert_eq!(a.len(), 1);
    assert_eq!(a[0].size, 99);
    assert!(m.files.iter().any(|f| f.relative_path == "Saves/s.save"));
    assert!(m.files.iter().any(|f| f.relative_path == "Mods/b.package"));
}

#[test]
fn a_failed_connection_leaves_no_session() {
    let mut s = AppState::new();
    s.sims4_path = Some("/g".to_string());
    start_host(&mut s, "Ana".to_string()).unwrap();
    s.peers.push(peer("p1", "Bo"));
    s.discovered_peers.push(peer("p2", "Cy"));
    connection_failed(&mut s);
    assert_eq!(s.session_type, SessionType::Inactive);
    assert!(s.session_name.is_empty());
    assert!(s.peers.is_empty());
    assert_eq!(s.discovered_peers.len(), 1);
    assert_eq!(s.sims4_path, Some("/g".to_string()));
}

#[test]
fn windows_relative_paths_are_checked_and_keyed() {
    assert_eq!(join_within("C:\\g", "..\\x"), Err("Path traversal rejected: ..\\x".to_string()));
    assert_eq!(join_within("C:\\g", "C:\\Windows"), Err("Absolute path rejected: C:\\Windows".to_string()));
    assert_eq!(join_within("C:\\g", "Mods\\a.package"), Ok("C:\\g/Mods\\a.package".to_string()));
    assert_eq!(scan_key("C:\\g\\Mods\\a.package", "C:\\g"), "Mods/a.package");
}
