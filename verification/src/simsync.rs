//! The peer-to-peer sync tool for one game: manifests, sessions, sync plans and
//! mod profiles.
pub mod state;
pub mod utils;
pub mod session;
pub mod sync;
pub mod profiles;
pub mod files;
