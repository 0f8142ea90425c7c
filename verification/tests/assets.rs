use octave_core::assets::image_cache::{image_cache, ImageCache};
use octave_core::assets::{
    cache_key, cover_route, guess_mime, lowres_query, parse_id, percent_decode, upstream_url,
    wants_lowres, CoverRoute,
};

#[test]
fn cover_ids_and_keys() {
    assert_eq!(parse_id("/abc"), Some("abc".to_string()));
    assert_eq!(parse_id("///artist/a%20b"), Some("artist/a b".to_string()));
    assert_eq!(parse_id("/"), None);
    assert_eq!(parse_id(""), None);
    assert_eq!(percent_decode("%zz%41"), "%zzA");
    assert_eq!(cache_key("/abc", Some("v=2&lowres=1")), "/abc?v=2&lowres=1");
    assert_eq!(cache_key("/abc", None), "/abc");
    assert_eq!(lowres_query(true), "?lowres=1");
    assert_eq!(lowres_query(false), "");
}

#[test]
fn lowres_flag_from_query_parts() {
    assert!(wants_lowres(Some("lowres=1")));
    assert!(wants_lowres(Some("v=3&lowres")));
    assert!(wants_lowres(Some("lowres&v=3")));
    assert!(!wants_lowres(Some("lowres=0")));
    assert!(!wants_lowres(Some("xlowres=1")));
    assert!(!wants_lowres(Some("")));
    assert!(!wants_lowres(None));
}

#[test]
fn cover_mime_by_extension() {
    assert_eq!(guess_mime("/c/a.JPG"), "image/jpeg");
    assert_eq!(guess_mime("/c/a.jpeg"), "image/jpeg");
    assert_eq!(guess_mime("/c/a.png"), "image/png");
    assert_eq!(guess_mime("/c/a.webp"), "image/webp");
    assert_eq!(guess_mime("/c/a.gif"), "image/gif");
    assert_eq!(guess_mime("/c/a"), "application/octet-stream");
}

#[test]
fn image_cache_serves_fresh_entries_until_the_ttl() {
    let mut c = ImageCache::new(100, 1000);
    c.put("k".into(), vec![1, 2, 3], Some("image/png".into()), 10);
    assert_eq!(c.get("k", 500), Some((vec![1, 2, 3], Some("image/png".to_string()))));
    assert_eq!(c.get("k", 1010), Some((vec![1, 2, 3], Some("image/png".to_string()))));
    assert_eq!(c.get("k", 1011), None);
    assert_eq!(c.get("k", 20), None);
}

#[test]
fn image_cache_evicts_oldest_and_skips_empty_or_huge() {
    let mut c = ImageCache::new(10, 1_000_000);
    c.put("a".into(), vec![0; 4], None, 0);
    c.put("b".into(), vec![0; 4], None, 0);
    c.put("c".into(), vec![0; 4], None, 0);
    assert_eq!(c.get("a", 0), None);
    assert!(c.get("b", 0).is_some());
    assert!(c.get("c", 0).is_some());
    c.put("big".into(), vec![0; 11], None, 0);
    assert_eq!(c.get("big", 0), None);
    c.put("empty".into(), vec![], None, 0);
    assert_eq!(c.get("empty", 0), None);
    c.put("b".into(), vec![9; 10], None, 0);
    assert_eq!(c.get("b", 0), Some((vec![9; 10], None)));
    assert_eq!(c.get("c", 0), None);
    let shared = image_cache();
    assert_eq!(shared.next_seq(), 0);
}

#[test]
fn cover_routes_and_upstream_urls() {
    assert_eq!(cover_route("artist/a1"), CoverRoute::Artist("a1".into()));
    assert_eq!(cover_route("al-9"), CoverRoute::Album("al-9".into()));
    assert_eq!(cover_route("artist"), CoverRoute::Album("artist".into()));
    assert_eq!(cover_route("artist/"), CoverRoute::Artist(String::new()));
    let root = "https://m.example/api/v1";
    assert_eq!(
        upstream_url(root, &CoverRoute::Album("al-9".into()), false),
        "https://m.example/api/v1/albums/al-9/cover"
    );
    assert_eq!(
        upstream_url(root, &CoverRoute::Artist("a1".into()), true),
        "https://m.example/api/v1/artists/a1/image?lowres=1"
    );
}
