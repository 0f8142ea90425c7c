pub mod auth;
pub mod cache;
pub mod library;
pub mod play_history;
pub mod podcast;
pub mod upload;

use vstd::prelude::*;

verus! {

/// Build and runtime identity, to check the frontend bridge end to end.
#[derive(Debug, Clone, Copy)]
pub struct AppInfo {
    pub name: &'static str,
    pub version: &'static str,
    pub tauri_version: &'static str,
}

} // verus!
