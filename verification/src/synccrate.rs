//! The multi-game mod manager: the game registry, packs, game folders, backups.
pub mod registry;
pub mod state;
pub mod packs;
pub mod files;
pub mod backup;
pub mod detect;
