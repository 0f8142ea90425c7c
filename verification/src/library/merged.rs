//! What the frontend renders: a catalog row plus whether it is available
//! offline. Server rows and offline-cache rows map to the same shapes, so
//! every list item carries its offline-availability bit whatever its
//! source. Alias payloads are carried through as they come.
use vstd::prelude::*;

use crate::cache::model as cache_model;

verus! {

/// Album classification used when a source carries none.
pub const DEFAULT_ALBUM_TYPE: &'static str = "album";

pub fn default_album_type() -> (r: String)
    ensures
        r@ == DEFAULT_ALBUM_TYPE@,
{
    DEFAULT_ALBUM_TYPE.to_owned()
}

/// The server's artist row, as far as the merged view reads it.
#[derive(Debug, Clone)]
pub struct ServerArtist<A> {
    pub id: String,
    pub name: String,
    pub sort_name: Option<String>,
    pub image_path: Option<String>,
    pub aliases: Vec<A>,
    pub storage_bytes: i64,
}

/// The server's album row, as far as the merged view reads it.
#[derive(Debug, Clone)]
pub struct ServerAlbum<A> {
    pub id: String,
    pub artist_id: String,
    pub title: String,
    pub release_year: Option<i64>,
    pub album_type: String,
    pub cover_path: Option<String>,
    pub aliases: Vec<A>,
    pub storage_bytes: i64,
}

/// The server's track row, as far as the merged view reads it.
#[derive(Debug, Clone)]
pub struct ServerTrack<A> {
    pub id: String,
    pub album_id: String,
    pub artist_id: String,
    pub title: String,
    pub track_no: Option<i64>,
    pub disc_no: Option<i64>,
    pub duration_ms: i64,
    pub codec: String,
    pub bitrate_kbps: Option<i64>,
    pub file_path: String,
    pub file_size: Option<i64>,
    pub sample_rate_hz: Option<i64>,
    pub bit_depth: Option<i64>,
    pub channels: Option<i64>,
    pub is_single_release: bool,
    pub aliases: Vec<A>,
}

#[derive(Debug, Clone)]
pub struct MergedArtist<A> {
    pub id: String,
    pub name: String,
    pub sort_name: Option<String>,
    /// Server-side artist image path; `None` for cache rows (the offline
    /// cache stores no artist images).
    pub image_path: Option<String>,
    /// Every known spelling; empty for cache rows.
    pub aliases: Vec<A>,
    pub storage_bytes: i64,
    /// Has at least one track by this artist been downloaded? Always true
    /// for cache rows.
    pub downloaded: bool,
}

#[derive(Debug, Clone)]
pub struct MergedAlbum<A> {
    pub id: String,
    pub artist_id: String,
    pub title: String,
    pub release_year: Option<i64>,
    /// `album`, `ep` or `single`.
    pub album_type: String,
    pub cover_path: Option<String>,
    /// Local on-disk cover, when present.
    pub local_cover_path: Option<String>,
    pub aliases: Vec<A>,
    pub storage_bytes: i64,
    pub downloaded: bool,
}

#[derive(Debug, Clone)]
pub struct MergedTrack<A> {
    pub id: String,
    pub album_id: String,
    pub artist_id: String,
    pub title: String,
    pub track_no: Option<i64>,
    pub disc_no: Option<i64>,
    pub duration_ms: i64,
    pub codec: String,
    pub bitrate_kbps: Option<i64>,
    /// Server's path (used for streaming).
    pub file_path: String,
    pub file_size: Option<i64>,
    pub sample_rate_hz: Option<i64>,
    pub bit_depth: Option<i64>,
    pub channels: Option<i64>,
    /// Local file when downloaded; `None` for stream-only items.
    pub local_file_path: Option<String>,
    pub is_single_release: bool,
    pub aliases: Vec<A>,
    pub downloaded: bool,
}

impl<A> MergedArtist<A> {
    pub fn from_server(a: ServerArtist<A>, downloaded: bool) -> (r: Self)
        ensures
            r.id == a.id,
            r.name == a.name,
            r.sort_name == a.sort_name,
            r.image_path == a.image_path,
            r.aliases == a.aliases,
            r.storage_bytes == a.storage_bytes,
            r.downloaded == downloaded,
    {
        MergedArtist {
            id: a.id,
            name: a.name,
            sort_name: a.sort_name,
            image_path: a.image_path,
            aliases: a.aliases,
            storage_bytes: a.storage_bytes,
            downloaded,
        }
    }

    /// A cached artist: no image, no aliases, downloaded by definition.
    pub fn from_cache(a: cache_model::Artist) -> (r: Self)
        ensures
            r.id == a.id,
            r.name == a.name,
            r.sort_name == a.sort_name,
            r.image_path is None,
            r.aliases@.len() == 0,
            r.storage_bytes == a.storage_bytes,
            r.downloaded,
    {
        MergedArtist {
            id: a.id,
            name: a.name,
            sort_name: a.sort_name,
            image_path: None,
            aliases: Vec::new(),
            storage_bytes: a.storage_bytes,
            downloaded: true,
        }
    }
}

impl<A> MergedAlbum<A> {
    pub fn from_server(a: ServerAlbum<A>, local_cover_path: Option<String>, downloaded: bool) -> (r:
        Self)
        ensures
            r.id == a.id,
            r.artist_id == a.artist_id,
            r.title == a.title,
            r.release_year == a.release_year,
            r.album_type == a.album_type,
            r.cover_path == a.cover_path,
            r.local_cover_path == local_cover_path,
            r.aliases == a.aliases,
            r.storage_bytes == a.storage_bytes,
            r.downloaded == downloaded,
    {
        MergedAlbum {
            id: a.id,
            artist_id: a.artist_id,
            title: a.title,
            release_year: a.release_year,
            album_type: a.album_type,
            cover_path: a.cover_path,
            local_cover_path,
            aliases: a.aliases,
            storage_bytes: a.storage_bytes,
            downloaded,
        }
    }

    /// A cached album: default type, no server cover, the local cover when
    /// there is one, downloaded by definition.
    pub fn from_cache(a: cache_model::Album, art: Option<cache_model::AlbumArt>) -> (r: Self)
        ensures
            r.id == a.id,
            r.artist_id == a.artist_id,
            r.title == a.title,
            r.release_year == a.release_year,
            r.album_type@ == DEFAULT_ALBUM_TYPE@,
            r.cover_path is None,
            r.local_cover_path == match art {
                Some(x) => Some(x.local_cover_path),
                None => None,
            },
            r.aliases@.len() == 0,
            r.storage_bytes == a.storage_bytes,
            r.downloaded,
    {
        MergedAlbum {
            id: a.id,
            artist_id: a.artist_id,
            title: a.title,
            release_year: a.release_year,
            album_type: default_album_type(),
            cover_path: None,
            local_cover_path: match art {
                Some(x) => Some(x.local_cover_path),
                None => None,
            },
            aliases: Vec::new(),
            storage_bytes: a.storage_bytes,
            downloaded: true,
        }
    }
}

impl<A> MergedTrack<A> {
    /// A server track is downloaded exactly when it has a local file.
    pub fn from_server(t: ServerTrack<A>, local_file_path: Option<String>) -> (r: Self)
        ensures
            r.id == t.id,
            r.album_id == t.album_id,
            r.artist_id == t.artist_id,
            r.title == t.title,
            r.track_no == t.track_no,
            r.disc_no == t.disc_no,
            r.duration_ms == t.duration_ms,
            r.codec == t.codec,
            r.bitrate_kbps == t.bitrate_kbps,
            r.file_path == t.file_path,
            r.file_size == t.file_size,
            r.sample_rate_hz == t.sample_rate_hz,
            r.bit_depth == t.bit_depth,
            r.channels == t.channels,
            r.local_file_path == local_file_path,
            r.is_single_release == t.is_single_release,
            r.aliases == t.aliases,
            r.downloaded == local_file_path is Some,
    {
        let downloaded = local_file_path.is_some();
        MergedTrack {
            id: t.id,
            album_id: t.album_id,
            artist_id: t.artist_id,
            title: t.title,
            track_no: t.track_no,
            disc_no: t.disc_no,
            duration_ms: t.duration_ms,
            codec: t.codec,
            bitrate_kbps: t.bitrate_kbps,
            file_path: t.file_path,
            file_size: t.file_size,
            sample_rate_hz: t.sample_rate_hz,
            bit_depth: t.bit_depth,
            channels: t.channels,
            local_file_path,
            is_single_release: t.is_single_release,
            aliases: t.aliases,
            downloaded,
        }
    }

    /// A cached track: its local file stands in for the server path, not a
    /// single release, no aliases, downloaded by definition.
    pub fn from_cache(t: cache_model::Track) -> (r: Self)
        ensures
            r.id == t.id,
            r.album_id == t.album_id,
            r.artist_id == t.artist_id,
            r.title == t.title,
            r.track_no == t.track_no,
            r.disc_no == t.disc_no,
            r.duration_ms == t.duration_ms,
            r.codec == t.codec,
            r.bitrate_kbps == t.bitrate_kbps,
            r.file_path == t.local_file_path,
            r.file_size == t.file_size,
            r.sample_rate_hz == t.sample_rate_hz,
            r.bit_depth == t.bit_depth,
            r.channels == t.channels,
            r.local_file_path == Some(t.local_file_path),
            !r.is_single_release,
            r.aliases@.len() == 0,
            r.downloaded,
    {
        let file_path = t.local_file_path.clone();
        MergedTrack {
            id: t.id,
            album_id: t.album_id,
            artist_id: t.artist_id,
            title: t.title,
            track_no: t.track_no,
            disc_no: t.disc_no,
            duration_ms: t.duration_ms,
            codec: t.codec,
            bitrate_kbps: t.bitrate_kbps,
            file_path,
            file_size: t.file_size,
            sample_rate_hz: t.sample_rate_hz,
            bit_depth: t.bit_depth,
            channels: t.channels,
            local_file_path: Some(t.local_file_path),
            is_single_release: false,
            aliases: Vec::new(),
            downloaded: true,
        }
    }
}

} // verus!
