use octave_core::equalizer::model::Platform;
use octave_core::player::prefetch::{file_stem, PrefetchCache};
use octave_core::player::resolver::{media_url as platform_media_url, urlencoding_encode};
use octave_core::player::server::{encode_segment, media_url, parse_range, Rng};
use octave_core::player::stream;

#[test]
fn encodes_unsafe_chars() {
    assert_eq!(urlencoding_encode("abc-123"), "abc-123");
    assert_eq!(urlencoding_encode("a/b"), "a%2Fb");
    assert_eq!(urlencoding_encode("a b"), "a%20b");
}

#[test]
fn url_has_track_id() {
    let url = platform_media_url("01234567-89ab-cdef-0123-456789abcdef", Platform::Linux);
    assert!(url.ends_with("01234567-89ab-cdef-0123-456789abcdef"));
}

#[test]
fn media_scheme_per_platform() {
    assert_eq!(platform_media_url("a b", Platform::Windows), "http://media.localhost/a%20b");
    assert_eq!(platform_media_url("x", Platform::Android), "http://media.localhost/x");
    assert_eq!(platform_media_url("x", Platform::Macos), "media://localhost/x");
    assert_eq!(urlencoding_encode("é~"), "%C3%A9~");
}

#[test]
fn media_url_shape() {
    let u = media_url(50505, "tok123", "01234567-89ab-cdef-0123-456789abcdef");
    assert_eq!(u, "http://127.0.0.1:50505/s/tok123/01234567-89ab-cdef-0123-456789abcdef");
}

#[test]
fn encode_segment_escapes_unsafe() {
    assert_eq!(encode_segment("abc-123"), "abc-123");
    assert_eq!(encode_segment("a/b"), "a%2Fb");
    assert_eq!(encode_segment("a b"), "a%20b");
}

#[test]
fn range_explicit_and_open() {
    assert!(matches!(parse_range("bytes=0-99", 1000), Rng::Sat(0, 99)));
    assert!(matches!(parse_range("bytes=500-", 1000), Rng::Sat(500, 999)));
    assert!(matches!(parse_range("bytes=0-99999", 1000), Rng::Sat(0, 999)));
}

#[test]
fn range_suffix() {
    assert!(matches!(parse_range("bytes=-200", 1000), Rng::Sat(800, 999)));
    assert!(matches!(parse_range("bytes=-5000", 1000), Rng::Sat(0, 999)));
}

#[test]
fn range_unsatisfiable_and_malformed() {
    assert!(matches!(parse_range("bytes=1000-1100", 1000), Rng::Unsatisfiable));
    assert!(matches!(parse_range("bytes=-0", 1000), Rng::Unsatisfiable));
    assert!(matches!(parse_range("octets=0-1", 1000), Rng::Malformed));
    assert!(matches!(parse_range("bytes=0-9,20-29", 1000), Rng::Malformed));
}

#[test]
fn parse_range_full() {
    assert_eq!(stream::parse_range("bytes=0-1023"), Some((0, 1023)));
}

#[test]
fn parse_range_open_end() {
    assert_eq!(stream::parse_range("bytes=500-"), Some((500, u64::MAX)));
}

#[test]
fn parse_range_rejects_garbage() {
    assert_eq!(stream::parse_range("seconds=0-10"), None);
    assert_eq!(stream::parse_range("bytes=abc"), None);
    assert_eq!(stream::parse_range("bytes=10-5"), None);
}

#[test]
fn decode_track_id() {
    assert_eq!(stream::percent_decode("abc"), "abc");
    assert_eq!(stream::percent_decode("a%2Fb"), "a/b");
    assert_eq!(stream::percent_decode("a%20b"), "a b");
}

#[test]
fn parse_track_id_strips_slash() {
    assert_eq!(stream::parse_track_id("/deadbeef"), Some("deadbeef".into()));
    assert_eq!(stream::parse_track_id("/"), None);
    assert_eq!(stream::parse_track_id(""), None);
}

#[test]
fn ready_only_after_complete() {
    let mut cache = PrefetchCache::new("/tmp/octave-prefetch".to_string());
    assert!(cache.ready("t1").is_none(), "unknown id is not ready");
    let (path, evicted) = cache.claim("t1").expect("fresh claim yields a path");
    assert!(evicted.is_empty());
    assert!(cache.claim("t1").is_none(), "double-claim is refused");
    assert!(cache.ready("t1").is_none(), "in-progress is not ready");
    cache.mark_complete("t1", Some("audio/flac".into()));
    let (p, ct) = cache.ready("t1").expect("complete file is ready");
    assert_eq!(p, path);
    assert_eq!(ct, "audio/flac");
    assert_eq!(cache.discard("t1"), Some(path));
    assert!(cache.ready("t1").is_none(), "discarded is not ready");
}

#[test]
fn prefetch_evicts_the_oldest_past_four() {
    let mut cache = PrefetchCache::new("/c".to_string());
    let mut first = String::new();
    for (i, id) in ["a", "b", "c", "d"].iter().enumerate() {
        let (p, ev) = cache.claim(id).unwrap();
        assert!(ev.is_empty());
        if i == 0 {
            first = p;
        }
    }
    assert_eq!(first, "/c/a");
    let (p, ev) = cache.claim("e/f").unwrap();
    assert_eq!(p, "/c/e_f");
    assert_eq!(ev, vec!["/c/a".to_string()]);
    cache.mark_complete("b", None);
    assert_eq!(
        cache.ready("b"),
        Some(("/c/b".to_string(), "application/octet-stream".to_string()))
    );
    assert!(cache.claim("a").is_some());
    assert_eq!(file_stem("ab-_.?"), "ab-___");
}
