//! Scanning the game folder: which files count, how they are keyed and typed, and
//! where the game folder is.
use vstd::prelude::*;
use crate::unique::{has_key, keep_last_per_key, kept_from, Keyed};
use crate::paths::{extension, extension_spec, forward_slashes, strip_base, strip_base_spec, to_forward_slashes};
use crate::simsync::state::{AppState, FileInfo, FileManifest, FileType};
use crate::text::{copy_str, lowercase, str_eq, to_lower};

verus! {

/// The lowercased extension of `path`, or the empty string when it has none.
pub open spec fn lower_extension_spec(path: Seq<char>) -> Seq<char> {
    match extension_spec(path) {
        Some(e) => lowercase(e),
        None => lowercase(Seq::<char>::empty()),
    }
}

/// The lowercased extension of `path` (empty when it has none).
pub fn lower_extension(path: &str) -> (r: String)
    ensures
        r@ == lower_extension_spec(path@),
{
    match extension(path) {
        Some(e) => to_lower(e.as_str()),
        None => {
            proof {
                reveal_strlit("");
            }
            assert(""@ =~= Seq::<char>::empty());
            to_lower("")
        },
    }
}

/// The key under which a scanned file is recorded: its path relative to the game
/// folder (the whole path when it lies outside), with `/` as the separator.
pub open spec fn scan_key_spec(path: Seq<char>, base: Seq<char>) -> Seq<char> {
    match strip_base_spec(path, base) {
        Some(rel) => forward_slashes(rel),
        None => forward_slashes(path),
    }
}

/// The key under which the file at `path` is recorded.
pub fn scan_key(path: &str, base: &str) -> (r: String)
    ensures
        r@ == scan_key_spec(path@, base@),
{
    match strip_base(path, base) {
        Some(rel) => to_forward_slashes(rel.as_str()),
        None => to_forward_slashes(path),
    }
}

/// A file of the `Mods` folder is scanned only as a `.package` or `.ts4script`
/// file; files of other folders are all scanned.
pub open spec fn scanned_spec(sub_dir: Seq<char>, ext: Seq<char>) -> bool {
    sub_dir != "Mods"@ || ext == "package"@ || ext == "ts4script"@
}

/// Whether a file with lowercased extension `ext` in `sub_dir` is scanned.
pub fn is_scanned(sub_dir: &str, ext: &str) -> (b: bool)
    ensures
        b == scanned_spec(sub_dir@, ext@),
{
    !str_eq(sub_dir, "Mods") || str_eq(ext, "package") || str_eq(ext, "ts4script")
}

/// The type of a file in the `Mods` folder: a script for `.ts4script`, custom
/// content otherwise.
pub fn mods_file_type(ext: &str) -> (t: FileType)
    ensures
        ext@ == "ts4script"@ ==> t == FileType::Mod,
        ext@ != "ts4script"@ ==> t == FileType::CustomContent,
{
    if str_eq(ext, "ts4script") {
        FileType::Mod
    } else {
        FileType::CustomContent
    }
}

/// The game folder: the one set, else the one detected on this machine.
pub fn get_sims4_path(state: &AppState, detected: Option<String>) -> (r: Result<String, String>)
    ensures
        match (state.sims4_path, detected) {
            (Some(p), _) => r matches Ok(q) && q@ == p@,
            (None, Some(p)) => r matches Ok(q) && q@ == p@,
            (None, None) => r matches Err(e) && e@ == "Sims 4 path not found"@,
        },
{
    match &state.sims4_path {
        Some(p) => Ok(p.clone()),
        None => match detected {
            Some(p) => Ok(p),
            None => Err("Sims 4 path not found".to_string()),
        },
    }
}

/// The folder to scan: the one set, else the detected one, which is then kept.
pub fn scan_base_path(state: &mut AppState, detected: Option<String>) -> (r: Result<String, String>)
    ensures
        match (old(state).sims4_path, detected) {
            (Some(p), _) => (r matches Ok(q) && q@ == p@) && *final(state) == *old(state),
            (None, Some(p)) => (r matches Ok(q) && q@ == p@) && *final(state) == (AppState {
                sims4_path: Some(p),
                ..*old(state)
            }),
            (None, None) => (r matches Err(e) && e@ == "Sims 4 path not found. Please set it manually."@)
                && *final(state) == *old(state),
        },
{
    match &state.sims4_path {
        Some(p) => Ok(p.clone()),
        None => match detected {
            Some(p) => {
                state.sims4_path = Some(p.clone());
                Ok(p)
            },
            None => Err("Sims 4 path not found. Please set it manually.".to_string()),
        },
    }
}

/// Sets the game folder, which must exist.
pub fn set_sims4_path(state: &mut AppState, path: String, exists: bool) -> (r: Result<(), String>)
    ensures
        !exists ==> (r matches Err(e) && e@ == "Path does not exist"@) && *final(state) == *old(state),
        exists ==> r is Ok && final(state).sims4_path == Some(path) && *final(state) == (AppState {
            sims4_path: final(state).sims4_path,
            ..*old(state)
        }),
{
    if !exists {
        return Err("Path does not exist".to_string());
    }
    state.sims4_path = Some(path);
    Ok(())
}

/// Keeps a fresh scan as the local manifest.
pub fn store_local_manifest(state: &mut AppState, manifest: FileManifest)
    ensures
        *final(state) == (AppState { local_manifest: manifest, ..*old(state) }),
{
    state.local_manifest = manifest;
}

/// The manifest of a scan: one entry per relative path, the last one scanned for
/// it, and an entry for every path scanned.
pub fn manifest_of(files: Vec<FileInfo>, generated_at: u64) -> (m: FileManifest)
    ensures
        m.well_formed(),
        m.generated_at == generated_at,
        forall|i: int| 0 <= i < m.files@.len() ==> kept_from(files@, 0, #[trigger] m.files@[i]),
        forall|j: int| 0 <= j < files@.len() ==> has_key(m.files@, (#[trigger] files@[j]).key()),
{
    FileManifest { files: keep_last_per_key(files), generated_at }
}

} // verus!
