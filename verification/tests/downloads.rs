use octave_core::downloads::artwork::{caa_front_url, release_query, MUSICBRAINZ_RELEASE_SEARCH};
use octave_core::db::default_db_path;
use octave_core::downloads::manager::{
    resume_plan, resume_range, BatchKind, BatchRun, ProgressPhase, ResumePlan, TrackDownloadResult,
};
use octave_core::downloads::paths::{
    episode_extension, episode_file_name, episode_path, sanitize, track_extension,
    track_file_name, track_path,
};
use octave_core::error::AppError;

#[test]
fn sanitize_strips_separators_and_dots() {
    assert_eq!(sanitize("../etc"), "etc");
    assert_eq!(sanitize("a/b\\c:d"), "abcd");
    assert_eq!(sanitize("  ..  "), "unknown");
    assert_eq!(sanitize(""), "unknown");
    assert_eq!(sanitize("OK Name"), "OK Name");
}

#[test]
fn extension_prefers_file_path() {
    assert_eq!(track_extension("/lib/song.flac", "mp3"), "flac");
    assert_eq!(track_extension("song", "FLAC"), "flac");
    assert_eq!(track_extension("song", "opus"), "opus");
    assert_eq!(track_extension("song", "weird"), "bin");
}

#[test]
fn file_name_pads_track_no() {
    assert_eq!(track_file_name(Some(3), "Song", "id"), "03 - Song");
    assert_eq!(track_file_name(None, "Song", "id"), "Song");
    assert_eq!(track_file_name(None, "", "uuid"), "uuid");
}

#[test]
fn episode_name_pads_and_sanitizes() {
    assert_eq!(episode_file_name(Some(42), "Ep Title", "id"), "042 - Ep Title");
    assert_eq!(episode_file_name(None, "Ep Title", "id"), "Ep Title");
    assert_eq!(episode_file_name(None, "", "uuid"), "uuid");
    assert_eq!(episode_file_name(Some(1), "A/B", "id"), "001 - AB");
}

#[test]
fn episode_ext_from_url_then_codec() {
    assert_eq!(episode_extension("https://x/ep.mp3", None), "mp3");
    assert_eq!(episode_extension("https://x/ep.m4a?token=1", None), "m4a");
    assert_eq!(episode_extension("https://x/stream?id=9", Some("aac")), "m4a");
    assert_eq!(episode_extension("https://x/stream", None), "mp3");
}

#[test]
fn episode_path_lands_under_podcasts() {
    let p = episode_path("/dl", "My Show", "001 - Ep", "mp3");
    assert_eq!(p, "/dl/Podcasts/My Show/001 - Ep.mp3");
}

#[test]
fn track_path_nests_artist_album() {
    assert_eq!(
        track_path("/dl", "A/C", "..", "01 - X", "flac"),
        "/dl/AC/unknown/01 - X.flac"
    );
    assert_eq!(default_db_path("/data"), "/data/cache.sqlite");
}

#[test]
fn batch_counts_every_track_once() {
    let (mut run, start) = BatchRun::start("album-1", BatchKind::Album, 3);
    assert_eq!(start.phase, ProgressPhase::Start);
    assert_eq!(start.total_tracks, Some(3));
    let ok = TrackDownloadResult {
        track_id: "t1".into(),
        local_path: "/p".into(),
        bytes: 10,
        skipped: false,
    };
    let skip = TrackDownloadResult { skipped: true, ..ok.clone() };
    let evs = run.record("t1", &Ok(ok));
    assert_eq!(evs.len(), 1);
    assert_eq!(evs[0].received, Some(1));
    let evs = run.record("t2", &Err(AppError::Transport("timeout".into())));
    assert_eq!(evs.len(), 2);
    assert_eq!(evs[0].phase, ProgressPhase::Error);
    assert_eq!(evs[0].message.as_deref(), Some("transport error: timeout"));
    assert_eq!(evs[1].index, Some(2));
    let _ = run.record("t3", &Ok(skip));
    let (done, result) = run.finish();
    assert_eq!(done.phase, ProgressPhase::Done);
    assert_eq!(done.received, Some(3));
    assert_eq!((result.succeeded, result.skipped, result.failed), (1, 1, 1));
    assert_eq!(result.errors, vec!["track t2: transport error: timeout".to_string()]);
    assert_eq!(result.kind, BatchKind::Album);
    let (run, _) = BatchRun::start("pl-1", BatchKind::Playlist, 0);
    assert_eq!(run.finish().1.kind, BatchKind::Playlist);
}

#[test]
fn cover_lookup_requests() {
    assert_eq!(release_query("Air", "Moon Safari"), "release:\"Moon Safari\" AND artist:\"Air\"");
    assert_eq!(
        caa_front_url("0b8f5b2a-1111-2222-3333-444455556666"),
        "https://coverartarchive.org/release/0b8f5b2a-1111-2222-3333-444455556666/front"
    );
    assert_eq!(MUSICBRAINZ_RELEASE_SEARCH, "https://musicbrainz.org/ws/2/release");
}

#[test]
fn sanitize_never_leaves_hidden_or_dotted_ends() {
    assert_eq!(sanitize(". .a"), "a");
    assert_eq!(sanitize("a. ."), "a");
    assert_eq!(sanitize(" .x. "), "x");
    assert_eq!(sanitize(". . ."), "unknown");
    assert_eq!(sanitize("a.b"), "a.b");
}

#[test]
fn resumed_downloads_append_from_the_partial_file() {
    assert_eq!(resume_range(0), None);
    assert_eq!(resume_range(1024), Some("bytes=1024-".to_string()));
    assert_eq!(
        resume_plan(1024, true, Some("bytes 1024-4999/5000"), Some(3976)),
        ResumePlan { appending: true, received: 1024, total: 5000, drop_stale_part: false }
    );
    assert_eq!(
        resume_plan(1024, true, Some("bytes 1024-4999/*"), None),
        ResumePlan { appending: true, received: 1024, total: 1024, drop_stale_part: false }
    );
    assert_eq!(
        resume_plan(1024, true, None, None),
        ResumePlan { appending: true, received: 1024, total: 1024, drop_stale_part: false }
    );
    assert_eq!(
        resume_plan(1024, false, None, Some(5000)),
        ResumePlan { appending: false, received: 0, total: 5000, drop_stale_part: true }
    );
    assert_eq!(
        resume_plan(0, true, Some("bytes 0-9/10"), None),
        ResumePlan { appending: false, received: 0, total: 0, drop_stale_part: false }
    );
}
