//! Verified core of a mod-management and sync tool for life-simulation games.
use vstd::prelude::*;

pub mod text;
pub mod paths;
pub mod digest;
pub mod order;
pub mod unique;
pub mod install;
pub mod simsync;
pub mod simshare;
pub mod synccrate;

verus! {

} // verus!
