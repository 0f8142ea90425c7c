use octave_core::error::AppError;
use octave_core::commands::library::{normalise_limit, normalise_offset, sniff_image_content_type};
use octave_core::commands::podcast;
use octave_core::commands::upload::{
    completion_message, determine_filename, is_archive_name, is_uploadable, is_uri, name_hint,
    next_job, nothing_uploaded_message, percent_decode, plan_resume, prepare_file, sanitize_stem,
    sniff_ext, text_bar, chunk_retry_delay, after_chunk_failure, after_init_failure, after_read,
    after_scan, JobReport, ReadStep, UploadState, CHUNK_RETRIES, CHUNK_SIZE,
};
use octave_core::hashing::sha256_hex;

#[test]
fn sniffs_by_magic_bytes() {
    assert_eq!(sniff_image_content_type(&[0xFF, 0xD8, 0xFF, 0x00], "x"), "image/jpeg");
    assert_eq!(
        sniff_image_content_type(&[0x89, 0x50, 0x4E, 0x47, 0x0D, 0x0A, 0x1A, 0x0A], "x"),
        "image/png"
    );
    assert_eq!(sniff_image_content_type(b"GIF89a....", "x"), "image/gif");
    let webp = b"RIFF\x00\x00\x00\x00WEBP....";
    assert_eq!(sniff_image_content_type(webp, "x"), "image/webp");
}

#[test]
fn falls_back_to_extension_then_jpeg() {
    assert_eq!(sniff_image_content_type(&[0, 1, 2, 3], "/a/b/c.PNG"), "image/png");
    assert_eq!(sniff_image_content_type(&[0, 1, 2, 3], "msf%3A13974"), "image/jpeg");
}

#[test]
fn image_type_gif87_and_extension_variants() {
    assert_eq!(sniff_image_content_type(b"GIF87a", "x"), "image/gif");
    assert_eq!(sniff_image_content_type(&[1], "/p/a.webp"), "image/webp");
    assert_eq!(sniff_image_content_type(&[1], "/p/a.GiF"), "image/gif");
    assert_eq!(sniff_image_content_type(b"RIFF\0\0\0\0WEB", "x"), "image/jpeg");
}

#[test]
fn limits_default_clamp_and_floor() {
    assert_eq!(normalise_limit(None), 50);
    assert_eq!(normalise_limit(Some(0)), 50);
    assert_eq!(normalise_limit(Some(-3)), 50);
    assert_eq!(normalise_limit(Some(20)), 20);
    assert_eq!(normalise_limit(Some(200)), 200);
    assert_eq!(normalise_limit(Some(5000)), 200);
    assert_eq!(podcast::normalise_limit(Some(999)), 200);
    assert_eq!(podcast::normalise_limit(None), 50);
    assert_eq!(normalise_offset(None), 0);
    assert_eq!(normalise_offset(Some(-10)), 0);
    assert_eq!(normalise_offset(Some(30)), 30);
}

#[test]
fn sniff_detects_audio_magic() {
    assert_eq!(sniff_ext(b"fLaC\0\0\0"), Some("flac"));
    assert_eq!(sniff_ext(b"OggS....."), Some("ogg"));
    assert_eq!(sniff_ext(b"ID3\x03\x00"), Some("mp3"));
    assert_eq!(sniff_ext(b"RIFF\0\0\0\0WAVEfmt "), Some("wav"));
    assert_eq!(sniff_ext(b"\0\0\0\x18ftypM4A "), Some("m4a"));
    assert_eq!(sniff_ext(&[0x50, 0x4B, 0x03, 0x04, 0, 0]), Some("zip"));
    assert_eq!(sniff_ext(b"not audio"), None);
}

#[test]
fn sniff_frame_sync_gzip_and_aiff() {
    assert_eq!(sniff_ext(&[0xFF, 0xFB, 0x90]), Some("mp3"));
    assert_eq!(sniff_ext(&[0xFF, 0x1B]), None);
    assert_eq!(sniff_ext(&[0x1F, 0x8B, 8]), Some("tar.gz"));
    assert_eq!(sniff_ext(b"FORM\0\0"), Some("aiff"));
    assert_eq!(sniff_ext(b""), None);
}

#[test]
fn filename_decodes_sniffs_and_sanitises() {
    assert_eq!(determine_filename(Some("Song.flac"), "/tmp/x", b""), "Song.flac");
    assert_eq!(
        determine_filename(Some("msf:13974"), "/tmp/x", b"fLaC\0\0\0\0"),
        "msf_13974.flac"
    );
    assert_eq!(determine_filename(None, "/tmp/blob", b"????"), "blob.bin");
}

#[test]
fn filename_blank_hint_uses_path_and_keeps_stem() {
    assert_eq!(determine_filename(Some("   "), "/x/Take.MP3", b""), "Take.MP3");
    assert_eq!(determine_filename(Some("  a b.c  "), "/x/y", b"ID3"), "a b.mp3");
    assert_eq!(determine_filename(None, "/", b"OggS"), "upload.ogg");
}

#[test]
fn archives_and_audio_are_uploadable() {
    assert!(is_archive_name("Album.TAR.GZ"));
    assert!(is_archive_name("disc.cue"));
    assert!(!is_archive_name("song.flac"));
    assert!(is_uploadable("/m/song.FLAC"));
    assert!(is_uploadable("/m/set.zip"));
    assert!(!is_uploadable("/m/cover.jpg"));
    assert!(!is_uploadable("/m/"));
}

#[test]
fn stem_sanitising_trims_and_falls_back() {
    assert_eq!(sanitize_stem("  ._a/b:c_. "), "a_b_c");
    assert_eq!(sanitize_stem("///"), "upload");
    assert_eq!(sanitize_stem("Été"), "t");
    assert_eq!(percent_decode("a%3Ab%2"), "a:b%2");
    assert_eq!(percent_decode("%+1"), "%+1");
}

#[test]
fn text_bar_and_speed_format() {
    assert_eq!(text_bar(0), "░░░░░░░░░░");
    assert_eq!(text_bar(50), "█████░░░░░");
    assert_eq!(text_bar(100), "██████████");
}

#[test]
fn text_bar_caps_at_ten_cells() {
    assert_eq!(text_bar(9), "░░░░░░░░░░");
    assert_eq!(text_bar(4000), "██████████");
}

#[test]
fn prepare_file_builds_contiguous_chunk_map() {
    let data = vec![7u8; (CHUNK_SIZE + 100) as usize];
    let f = prepare_file("x.flac".into(), &data);
    assert_eq!(f.total_chunks, 2);
    assert_eq!(f.total_size, CHUNK_SIZE + 100);
    assert_eq!(f.chunks[0].start, 0);
    assert_eq!(f.chunks[0].end, CHUNK_SIZE);
    assert_eq!(f.chunks[1].start, CHUNK_SIZE);
    assert_eq!(f.chunks[1].end, CHUNK_SIZE + 100);
    assert_eq!(f.chunks[1].hash, sha256_hex(&data[CHUNK_SIZE as usize..]));
    assert_eq!(f.hash, sha256_hex(&data));
}

#[test]
fn empty_file_has_one_empty_chunk_and_known_digest() {
    let f = prepare_file("e.bin".into(), &[]);
    assert_eq!(f.total_chunks, 1);
    assert_eq!(f.chunks.len(), 1);
    assert_eq!((f.chunks[0].start, f.chunks[0].end), (0, 0));
    assert_eq!(
        f.hash,
        "e3b0c44298fc1c149afbf4c8996fb92427ae41e4649b934ca495991b7852b855"
    );
    assert_eq!(sha256_hex(b"abc"), "ba7816bf8f01cfea414140de5dae2223b00361a396177a9cb410ff61f20015ad");
}

#[test]
fn resume_counts_held_bytes_and_lists_the_rest() {
    let data = vec![1u8; (2 * CHUNK_SIZE + 5) as usize];
    let f = prepare_file("r.flac".into(), &data);
    let (held, missing) = plan_resume(&f.chunks, &vec![1]);
    assert_eq!(held, CHUNK_SIZE);
    assert_eq!(missing, vec![(0, 0, CHUNK_SIZE), (2, 2 * CHUNK_SIZE, 2 * CHUNK_SIZE + 5)]);
    let sent: u64 = missing.iter().map(|(_, s, e)| e - s).sum();
    assert_eq!(held + sent, data.len() as u64);
}

#[test]
fn name_hint_decodes_uris() {
    assert_eq!(name_hint("/music/song.flac"), "song.flac");
    assert_eq!(name_hint("content://media/documents/msf%3A13974"), "msf:13974");
    assert_eq!(name_hint("content://x/y/album%20name.zip"), "album name.zip");
    assert!(is_uri("content://x/y"));
    assert!(!is_uri("/a/b.flac"));
}

#[test]
fn name_hint_fallbacks() {
    assert_eq!(name_hint("content://x/y/"), "file");
    assert_eq!(name_hint("content://x/y/a.mp3?sig=1"), "a.mp3");
    assert_eq!(name_hint("/"), "file");
}

#[test]
fn job_ids_and_completion_texts() {
    let (id, notif) = next_job(7);
    assert_eq!(id, "upload-7");
    assert_eq!(notif, 7);
    assert_eq!(next_job(0x8000_0005).1, 5);
    let (title, body) = completion_message(3, 0, 0);
    assert_eq!(title, "Upload complete");
    assert_eq!(body, "3 track(s) ingested");
    let (title, body) = completion_message(2, 1, 4);
    assert_eq!(title, "Upload finished with errors");
    assert_eq!(body, "2 track(s) ingested · 1 failed · 4 skipped");
    assert_eq!(nothing_uploaded_message(2), "0 uploaded · 2 skipped");
}

#[test]
fn chunk_retries_back_off_then_give_up() {
    assert_eq!(CHUNK_RETRIES, 3);
    assert_eq!(chunk_retry_delay(1), Some(150));
    assert_eq!(chunk_retry_delay(2), Some(300));
    assert_eq!(chunk_retry_delay(3), None);
    assert_eq!(chunk_retry_delay(u32::MAX), None);
}

#[test]
fn chunks_are_128_kib() {
    assert_eq!(CHUNK_SIZE, 128 * 1024);
    let f = prepare_file("a.flac".to_string(), &vec![0u8; 300_000]);
    assert_eq!(f.chunk_size, 131072);
    assert_eq!(f.chunks.len(), 3);
    assert_eq!(f.chunks[2].start, 262144);
    assert_eq!(f.chunks[2].end, 300_000);
}

#[test]
fn upload_job_steps() {
    match after_read("song", "/m/song.flac", &Err(AppError::Internal("gone".into()))) {
        ReadStep::Failed(m) => assert_eq!(m, "song: read error: internal error: gone"),
        other => panic!("unexpected {other:?}"),
    }
    assert!(matches!(after_read("song", "/m/song.flac", &Ok(vec![])), ReadStep::Skip));
    match after_read("song", "/m/song.flac", &Ok(b"fLaC....".to_vec())) {
        ReadStep::Upload(f) => {
            assert_eq!(f.filename, "song.flac");
            assert_eq!(f.total_size, 8);
        }
        other => panic!("unexpected {other:?}"),
    }
    let done = after_scan(0, 2).unwrap();
    assert_eq!(done.state.as_str(), "completed");
    assert_eq!((done.total_files, done.skipped), (0, 2));
    assert_eq!(after_scan(3, 0), None);
    assert_eq!(
        after_init_failure(3, 1),
        JobReport { state: UploadState::Error, total_files: 3, tracks_ingested: 0, files_failed: 3, skipped: 1 }
    );
    assert_eq!(after_chunk_failure(true, false, 3, 0), None);
    assert_eq!(after_chunk_failure(false, true, 3, 0), None);
    let cancelled = after_chunk_failure(false, false, 3, 0).unwrap();
    assert_eq!(cancelled.state.as_str(), "cancelled");
    assert_eq!(cancelled.files_failed, 3);
    assert_eq!(UploadState::Error.as_str(), "error");
}
