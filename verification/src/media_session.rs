//! What the platform media session (lock screen, shade, Now Playing) is
//! told about playback.
use vstd::prelude::*;

verus! {

/// Full now-playing state, pushed on a track change and on play/pause.
#[derive(Debug, Clone)]
pub struct MediaInfo {
    pub title: String,
    pub artist: String,
    pub album: String,
    /// Loopback cover URL, or `None` when the art is unknown.
    pub artwork_url: Option<String>,
    /// Loopback base the native side posts transport presses to.
    pub action_base_url: String,
    pub duration_ms: i64,
    pub position_ms: i64,
    pub playing: bool,
}

/// Lightweight update: play/pause, seek, periodic position correction.
#[derive(Debug, Clone, Copy)]
pub struct PlaybackInfo {
    pub position_ms: i64,
    pub duration_ms: i64,
    pub playing: bool,
}

} // verus!
