//! The data the mod manager reports: scanned files, packs, compatibility.
use vstd::prelude::*;
use crate::unique::{keys_unique, Keyed};

verus! {

/// One scanned file; its type is the file type named by the game's registry entry.
#[derive(Debug, Clone)]
pub struct FileInfo {
    pub relative_path: String,
    pub size: u64,
    pub hash: String,
    pub modified: u64,
    pub file_type: String,
}

/// The scanned files of a game folder, one entry per relative path.
#[derive(Debug, Clone)]
pub struct FileManifest {
    pub files: Vec<FileInfo>,
    pub generated_at: u64,
}

/// The kind of an add-on pack.
#[derive(Debug, Clone, Copy, PartialEq, Eq, Structural)]
pub enum PackType {
    ExpansionPack,
    GamePack,
    StuffPack,
    Kit,
}

/// A pack's code and kind.
#[derive(Debug, Clone)]
pub struct PackId {
    pub code: String,
    pub pack_type: PackType,
}

/// A pack and its name.
#[derive(Debug, Clone)]
pub struct PackInfo {
    pub id: PackId,
    pub name: String,
}

/// What was found out about an installed game.
#[derive(Debug, Clone)]
pub struct GameInfo {
    pub game_version: Option<String>,
    pub installed_packs: Vec<PackInfo>,
}

/// Whether a mod's packs are installed.
#[derive(Debug, Clone, Copy, PartialEq, Eq, Structural)]
pub enum CompatibilityStatus {
    Compatible,
    MissingPacks,
}

/// The packs a mod seems to need, and those of them that are missing.
#[derive(Debug, Clone)]
pub struct ModCompatibility {
    pub mod_path: String,
    pub required_packs: Vec<PackId>,
    pub missing_packs: Vec<PackId>,
    pub status: CompatibilityStatus,
}

impl Keyed for FileInfo {
    open spec fn key(&self) -> Seq<char> {
        self.relative_path@
    }

    fn key_text(&self) -> (r: &str) {
        self.relative_path.as_str()
    }
}

impl FileManifest {
    /// No two entries share a relative path.
    pub open spec fn well_formed(self) -> bool {
        keys_unique(self.files@)
    }
}

impl GameInfo {
    /// Nothing known: no version, no packs.
    pub fn unknown() -> (r: GameInfo)
        ensures
            r.game_version is None,
            r.installed_packs@.len() == 0,
    {
        GameInfo { game_version: None, installed_packs: Vec::new() }
    }
}

} // verus!
