//! The data the sync tool works on, and its application state.
use vstd::prelude::*;
use crate::unique::{keys_unique, Keyed};

verus! {

/// One scanned file.
#[derive(Debug, Clone)]
pub struct FileInfo {
    pub relative_path: String,
    pub size: u64,
    pub hash: String,
    pub modified: u64,
    pub file_type: FileType,
}

/// What a scanned file is.
#[derive(Debug, Clone, Copy, PartialEq, Eq, Structural)]
pub enum FileType {
    Mod,
    CustomContent,
    Save,
}

/// The scanned files of one side, one entry per relative path.
#[derive(Debug, Clone)]
pub struct FileManifest {
    pub files: Vec<FileInfo>,
    pub generated_at: u64,
}

/// A peer seen on the network or connected to.
#[derive(Debug, Clone)]
pub struct PeerInfo {
    pub id: String,
    pub name: String,
    pub ip: String,
    pub port: u16,
    pub mod_count: usize,
    pub version: String,
}

/// What a session command reports.
#[derive(Debug, Clone)]
pub struct SessionInfo {
    pub session_type: SessionType,
    pub name: String,
    pub port: u16,
    pub peer_count: usize,
}

/// The role of this side in a session.
#[derive(Debug, Clone, Copy, PartialEq, Eq, Structural)]
pub enum SessionType {
    Host,
    Client,
    Inactive,
}

/// The session as shown to the user.
#[derive(Debug, Clone)]
pub struct SessionStatus {
    pub session_type: SessionType,
    pub name: String,
    pub port: u16,
    pub peers: Vec<PeerInfo>,
    pub is_syncing: bool,
}

/// One step of a sync plan.
#[derive(Debug, Clone)]
pub enum SyncAction {
    SendToRemote(FileInfo),
    ReceiveFromRemote(FileInfo),
    Conflict { local: FileInfo, remote: FileInfo },
    Delete(String),
}

/// The steps that bring both sides in line.
#[derive(Debug, Clone)]
pub struct SyncPlan {
    pub actions: Vec<SyncAction>,
    pub total_bytes: u64,
}

/// How the user settles a conflict.
#[derive(Debug, Clone, Copy, PartialEq, Eq, Structural)]
pub enum Resolution {
    KeepMine,
    UseTheirs,
    KeepBoth,
}

/// A saved set of mods.
#[derive(Debug, Clone)]
pub struct ModProfile {
    pub id: String,
    pub name: String,
    pub description: String,
    pub icon: String,
    pub author: String,
    pub created_at: u64,
    pub mods: Vec<ProfileMod>,
}

/// One mod of a profile.
#[derive(Debug, Clone)]
pub struct ProfileMod {
    pub relative_path: String,
    pub hash: String,
    pub size: u64,
    pub name: String,
}

/// The tool's state between commands (the network connection and the file
/// watcher are held beside it by the application).
#[derive(Debug, Clone)]
pub struct AppState {
    pub sims4_path: Option<String>,
    pub local_manifest: FileManifest,
    pub remote_manifest: Option<FileManifest>,
    pub session_type: SessionType,
    pub session_name: String,
    pub local_display_name: String,
    pub session_port: u16,
    pub peers: Vec<PeerInfo>,
    pub is_syncing: bool,
    pub discovered_peers: Vec<PeerInfo>,
    pub sync_plan: Option<SyncPlan>,
}

/// The port a hosted session listens on unless configured otherwise.
pub const DEFAULT_SESSION_PORT: u16 = 9847;

impl Keyed for FileInfo {
    open spec fn key(&self) -> Seq<char> {
        self.relative_path@
    }

    fn key_text(&self) -> (r: &str) {
        self.relative_path.as_str()
    }
}

impl FileManifest {
    /// No two entries share a relative path.
    pub open spec fn well_formed(self) -> bool {
        keys_unique(self.files@)
    }

    /// An empty manifest generated at time zero.
    pub fn empty() -> (m: FileManifest)
        ensures
            m.files@.len() == 0,
            m.generated_at == 0,
    {
        FileManifest { files: Vec::new(), generated_at: 0 }
    }
}

impl AppState {
    /// The state at start-up: no game folder, no files, no session.
    pub fn new() -> (s: AppState)
        ensures
            s.sims4_path is None,
            s.local_manifest.files@.len() == 0,
            s.local_manifest.generated_at == 0,
            s.remote_manifest is None,
            s.session_type == SessionType::Inactive,
            s.session_name@.len() == 0,
            s.local_display_name@.len() == 0,
            s.session_port == DEFAULT_SESSION_PORT,
            s.peers@.len() == 0,
            !s.is_syncing,
            s.discovered_peers@.len() == 0,
            s.sync_plan is None,
    {
        AppState {
            sims4_path: None,
            local_manifest: FileManifest::empty(),
            remote_manifest: None,
            session_type: SessionType::Inactive,
            session_name: String::new(),
            local_display_name: String::new(),
            session_port: DEFAULT_SESSION_PORT,
            peers: Vec::new(),
            is_syncing: false,
            discovered_peers: Vec::new(),
            sync_plan: None,
        }
    }
}

} // verus!
