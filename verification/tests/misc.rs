use octave_core::auth::manager::{
    auth_header, credential_of, restore_endpoint, retarget, revalidate, seed_health, session_of,
    Credential, Revalidation, ServerConfig, TransportUsed, WhoAmI,
};
use octave_core::commands::play_history::{queued_ms_played, settle_flush, FLUSH_BATCH};
use octave_core::auth::store::{FileStore, StoredCredential, StoredCredentialKind, CRED_FILENAME};
use octave_core::cache::model as cache_model;
use octave_core::commands::cache::downloaded_episode;
use octave_core::equalizer::parser::{
    begin_import, missing_preamp_warning, text_lines, ImportState, LineItem,
};
use octave_core::error::AppError;
use octave_core::library::merged::{MergedAlbum, MergedTrack};
use octave_core::library::service::{
    is_offline_signal, search_artists_in_cache, search_tracks_in_cache, LibrarySource,
};
use octave_core::EqualizerRouteDebouncer;

fn stored(kind: StoredCredentialKind) -> StoredCredential<u8> {
    StoredCredential {
        kind,
        secret: "s3".into(),
        rest_url: None,
        grpc_url: None,
        grpc_explicit: None,
        user_id: Some("u".into()),
        username: None,
        tier: None,
        expires_at: None,
    }
}

#[test]
fn credentials_and_headers() {
    let c = credential_of(Some(&stored(StoredCredentialKind::Bearer))).unwrap();
    assert_eq!(c, Credential::Bearer("s3".into()));
    assert_eq!(auth_header(&c), "Bearer s3");
    assert_eq!(auth_header(&Credential::SecretKey("k".into())), "SecretKey k");
    match credential_of::<u8>(None) {
        Err(AppError::AuthNotConfigured(m)) => assert_eq!(m, "no active session"),
        other => panic!("unexpected {other:?}"),
    }
    let s = session_of(&stored(StoredCredentialKind::SecretKey), 3u8);
    assert_eq!(s.tier, 3);
    assert_eq!(s.user_id.as_deref(), Some("u"));
    let h = seed_health(TransportUsed::Rest);
    assert!(h.rest && !h.grpc && h.online());
    let h = seed_health(TransportUsed::Grpc);
    assert!(h.rest && h.grpc);
    let f = FileStore::new(format!("/d/{CRED_FILENAME}"));
    assert_eq!(f.path(), "/d/credential.json");
}

#[test]
fn offline_signals_and_error_texts() {
    assert!(is_offline_signal(&AppError::Transport("x".into())));
    assert!(is_offline_signal(&AppError::AuthNotConfigured("x".into())));
    assert!(!is_offline_signal(&AppError::Unauthenticated("x".into())));
    assert_eq!(AppError::Database("locked".into()).to_string(), "database error: locked");
    assert_eq!(AppError::SecureStorage("no".into()).to_string(), "secure storage error: no");
}

#[test]
fn cache_search_filters_case_insensitively() {
    let artists = vec![
        cache_model::Artist {
            id: "1".into(),
            name: "The Beatles".into(),
            sort_name: None,
            storage_bytes: 5,
            updated_at: "t".into(),
        },
        cache_model::Artist {
            id: "2".into(),
            name: "Queen".into(),
            sort_name: None,
            storage_bytes: 0,
            updated_at: "t".into(),
        },
    ];
    let v = search_artists_in_cache::<()>(artists, "BEAT");
    assert_eq!(v.source, LibrarySource::Cache);
    assert_eq!(v.items.len(), 1);
    assert_eq!(v.items[0].id, "1");
    assert!(v.items[0].downloaded);
    assert!(v.items[0].image_path.is_none());
    let track = cache_model::Track {
        id: "t".into(),
        album_id: "a".into(),
        artist_id: "r".into(),
        title: "Yesterday".into(),
        track_no: Some(1),
        disc_no: None,
        duration_ms: 1000,
        codec: "flac".into(),
        bitrate_kbps: None,
        file_size: None,
        sample_rate_hz: None,
        bit_depth: None,
        channels: None,
        local_file_path: "/x/t.flac".into(),
        metadata_json: "{}".into(),
        downloaded_at: "d".into(),
        updated_at: "u".into(),
    };
    let v = search_tracks_in_cache::<()>(vec![track.clone()], "day");
    assert_eq!(v.items.len(), 1);
    assert_eq!(v.items[0].file_path, "/x/t.flac");
    assert_eq!(v.items[0].local_file_path.as_deref(), Some("/x/t.flac"));
    assert!(search_tracks_in_cache::<()>(vec![track.clone()], "night").items.is_empty());
    let m = MergedTrack::<()>::from_cache(track);
    assert!(m.downloaded && !m.is_single_release);
    let album = cache_model::Album {
        id: "a".into(),
        artist_id: "r".into(),
        title: "Help".into(),
        release_year: None,
        storage_bytes: 1,
        updated_at: "u".into(),
    };
    let m = MergedAlbum::<()>::from_cache(album, None);
    assert_eq!(m.album_type, "album");
    assert!(m.local_cover_path.is_none());
}

#[test]
fn downloaded_episodes_take_their_show() {
    let ep = cache_model::PodcastEpisode {
        id: "e".into(),
        podcast_id: "p".into(),
        guid: "g".into(),
        title: "Ep".into(),
        description: None,
        enclosure_url: "u".into(),
        episode_no: None,
        season_no: None,
        duration_ms: Some(5),
        codec: None,
        bitrate_kbps: None,
        file_size: None,
        local_file_path: None,
        image_path: None,
        published_at: None,
        metadata_json: "{}".into(),
        downloaded_at: None,
        updated_at: "x".into(),
    };
    let shows = vec![("p".to_string(), "Show".to_string(), Some("img".to_string()))];
    let d = downloaded_episode(ep.clone(), &shows);
    assert_eq!(d.podcast_title, "Show");
    assert_eq!(d.image_url.as_deref(), Some("img"));
    let d = downloaded_episode(ep, &vec![]);
    assert_eq!(d.podcast_title, "Podcast");
    assert!(d.image_url.is_none());
}

#[test]
fn newest_route_hint_wins() {
    let mut d = EqualizerRouteDebouncer::new();
    let g1 = d.schedule();
    assert!(d.is_current(g1));
    let g2 = d.schedule();
    assert!(!d.is_current(g1));
    assert!(d.is_current(g2));
}

/// Drives the line grammar over a text the way an import does, parsing the
/// numeric fields with `f64::from_str`.
fn scan(text: &str) -> Result<(usize, bool), (Option<usize>, String)> {
    let lines = begin_import(text, "Name").map_err(|e| (e.line, e.message))?;
    let mut state = ImportState::new();
    for (i, line) in lines.iter().enumerate() {
        match state.step(i == 0, i + 1, line).map_err(|e| (e.line, e.message))? {
            LineItem::Skip => {}
            LineItem::Preamp { value } => {
                value.parse::<f64>().map_err(|_| (Some(i + 1), "preamp".to_string()))?;
            }
            LineItem::Band { frequency, gain, q, .. } => {
                for v in [frequency, gain, q] {
                    v.parse::<f64>().map_err(|_| (Some(i + 1), "number".to_string()))?;
                }
                state.accept_band(i + 1).map_err(|e| (e.line, e.message))?;
            }
        }
    }
    state.finish().map_err(|e| (e.line, e.message))?;
    Ok((lines.len(), state.preamp_seen()))
}

#[test]
fn rejects_unsupported_even_when_off() {
    let source = "Preamp: 0 dB\nFilter 1: OFF LS Fc 100 Hz Gain 1 dB Q 1\n";
    let lines = begin_import(source, "Bad").unwrap();
    let mut state = ImportState::new();
    assert_eq!(
        state.step(true, 1, &lines[0]),
        Ok(LineItem::Preamp { value: "0".to_string() })
    );
    let error = state.step(false, 2, &lines[1]).unwrap_err();
    assert_eq!(error.line, Some(2));
    assert!(error.message.contains("unsupported filter"));
}

#[test]
fn accepts_bom_crlf_comments_and_case_insensitive_tokens() {
    let source = "\u{feff}; note\r\npreamp: -1 dB\r\nfilter 2: on pk fc 100 hz gain 2 db q 1\r\n";
    let lines = begin_import(source, "Fine").unwrap();
    assert_eq!(lines.len(), 3);
    let mut state = ImportState::new();
    assert_eq!(state.step(true, 1, &lines[0]), Ok(LineItem::Skip));
    assert_eq!(
        state.step(false, 2, &lines[1]),
        Ok(LineItem::Preamp { value: "-1".to_string() })
    );
    assert_eq!(
        state.step(false, 3, &lines[2]),
        Ok(LineItem::Band {
            number: 2,
            enabled: true,
            frequency: "100".to_string(),
            gain: "2".to_string(),
            q: "1".to_string(),
        })
    );
    state.accept_band(3).unwrap();
    state.finish().unwrap();
    assert!(state.preamp_seen());
    assert_eq!(state.band_count(), 1);
}

#[test]
fn grammar_errors_name_their_line() {
    assert_eq!(
        scan("Filter 1: ON PK Fc 1 Hz Gain 1 dB Q 1\nFilter 1: ON PK Fc 1 Hz Gain 1 dB Q 1"),
        Err((Some(2), "filter numbers must be positive and unique".to_string()))
    );
    assert_eq!(
        scan("Preamp: 1 dB\npreamp: 2 dB"),
        Err((Some(2), "duplicate Preamp line".to_string()))
    );
    assert_eq!(
        scan("Filter 3 ON PK Fc 1 Hz Gain 1 dB Q 1"),
        Err((Some(1), "filter number must end with ':'".to_string()))
    );
    assert_eq!(
        scan("Filter 3: ON PK Fc 1 Hz Gain 1 dB Q"),
        Err((Some(1), "expected `Filter N: ON|OFF PK Fc <Hz> Hz Gain <dB> dB Q <value>`".to_string()))
    );
    assert_eq!(
        scan("Filter 3: ON PK Fc 1 Hz Gain 1 dB X 1"),
        Err((Some(1), "expected 'Q', found 'X'".to_string()))
    );
    assert_eq!(
        scan("# only a comment"),
        Err((None, "profile must contain at least one PK filter".to_string()))
    );
    assert_eq!(
        scan("EQ: on"),
        Err((Some(1), "unsupported directive; version 1 accepts only Preamp and PK Filter lines".to_string()))
    );
    let many: String = (1..=33).map(|i| format!("Filter {i}: ON PK Fc 1 Hz Gain 0 dB Q 1\n")).collect();
    assert_eq!(scan(&many), Err((Some(33), "profile exceeds 32 filters".to_string())));
    assert_eq!(missing_preamp_warning().message, "No Preamp line; using 0 dB");
    assert_eq!(text_lines("a\r\nb\n\nc\r"), vec!["a", "b", "", "c\r"]);
    assert_eq!(text_lines(""), Vec::<String>::new());
}

#[test]
fn only_bearer_sessions_with_a_rest_url_restore() {
    let mut c = stored(StoredCredentialKind::Bearer);
    assert_eq!(restore_endpoint(&c), None);
    c.rest_url = Some(String::new());
    assert_eq!(restore_endpoint(&c), None);
    c.rest_url = Some("https://m.example/api".into());
    assert_eq!(restore_endpoint(&c), Some(("https://m.example/api".to_string(), None)));
    // A gRPC URL is kept only when it was an explicit override.
    c.grpc_url = Some("https://m.example:50051".into());
    assert_eq!(restore_endpoint(&c), Some(("https://m.example/api".to_string(), None)));
    c.grpc_explicit = Some(false);
    assert_eq!(restore_endpoint(&c), Some(("https://m.example/api".to_string(), None)));
    c.grpc_explicit = Some(true);
    assert_eq!(
        restore_endpoint(&c),
        Some(("https://m.example/api".to_string(), Some("https://m.example:50051".to_string())))
    );
    c.grpc_url = Some(String::new());
    assert_eq!(restore_endpoint(&c), Some(("https://m.example/api".to_string(), None)));
    let mut k = stored(StoredCredentialKind::SecretKey);
    k.rest_url = Some("https://m.example/api".into());
    assert_eq!(restore_endpoint(&k), None);
}

#[test]
fn flush_keeps_retryable_batches_and_drops_the_rest() {
    assert_eq!(FLUSH_BATCH, 200);
    assert_eq!(settle_flush(&Ok(7)), (true, 7));
    assert_eq!(settle_flush(&Err(AppError::Transport("down".into()))), (false, 0));
    assert_eq!(settle_flush(&Err(AppError::AuthNotConfigured("none".into()))), (false, 0));
    assert_eq!(settle_flush(&Err(AppError::Forbidden("no user".into()))), (true, 0));
    assert_eq!(settle_flush(&Err(AppError::Unauthenticated("x".into()))), (true, 0));
    assert_eq!(queued_ms_played(-5), 0);
    assert_eq!(queued_ms_played(0), 0);
    assert_eq!(queued_ms_played(31_000), 31_000);
}


fn stored_key() -> StoredCredential<u8> {
    StoredCredential {
        kind: StoredCredentialKind::SecretKey,
        secret: "key".into(),
        rest_url: Some("https://old.example".into()),
        grpc_url: Some("https://old.example:50051".into()),
        grpc_explicit: Some(false),
        user_id: Some("u-old".into()),
        username: Some("old name".into()),
        tier: Some(1),
        expires_at: Some("2030-01-01T00:00:00Z".into()),
    }
}

fn moved_key() -> StoredCredential<u8> {
    let mut cred = stored_key();
    let cfg = ServerConfig {
        rest_url: "https://new.example".into(),
        grpc_url: "grpc.new.example:443".into(),
        grpc_explicit: true,
    };
    retarget(&mut cred, &cfg);
    cred
}

#[test]
fn accepted_revalidation_keeps_new_urls_and_applies_the_answer() {
    let who = WhoAmI { user_id: "u-new".into(), username: "".into(), tier: 3u8, transport: TransportUsed::Grpc };
    match revalidate(moved_key(), Ok(who), 0) {
        Revalidation::Accept { cred, session, health } => {
            assert_eq!(cred.rest_url.as_deref(), Some("https://new.example"));
            assert_eq!(cred.grpc_url.as_deref(), Some("grpc.new.example:443"));
            assert_eq!(cred.grpc_explicit, Some(true));
            assert_eq!(cred.user_id.as_deref(), Some("u-new"));
            assert_eq!(cred.username.as_deref(), Some("old name"));
            assert_eq!(cred.tier, Some(3));
            assert_eq!(cred.expires_at.as_deref(), Some("2030-01-01T00:00:00Z"));
            assert_eq!(session.user_id.as_deref(), Some("u-new"));
            assert_eq!(session.username.as_deref(), Some("old name"));
            assert_eq!(session.tier, 3);
            assert_eq!(session.kind, StoredCredentialKind::SecretKey);
            assert_eq!(session.expires_at.as_deref(), Some("2030-01-01T00:00:00Z"));
            assert!(health.rest && health.grpc);
        }
        _ => panic!("expected the credential to be accepted"),
    }
}

#[test]
fn unreachable_server_keeps_credential_and_session() {
    match revalidate(moved_key(), Err(AppError::Transport("refused".into())), 0) {
        Revalidation::KeepOffline { cred, session } => {
            assert_eq!(cred.rest_url.as_deref(), Some("https://new.example"));
            assert_eq!(cred.user_id.as_deref(), Some("u-old"));
            assert_eq!(session.kind, StoredCredentialKind::SecretKey);
            assert_eq!(session.user_id.as_deref(), Some("u-old"));
            assert_eq!(session.username.as_deref(), Some("old name"));
            assert_eq!(session.tier, 1);
            assert_eq!(session.expires_at.as_deref(), Some("2030-01-01T00:00:00Z"));
        }
        _ => panic!("expected the credential to be kept"),
    }
    assert!(matches!(
        revalidate(moved_key(), Err(AppError::Forbidden("no".into())), 0),
        Revalidation::Reject
    ));
}
