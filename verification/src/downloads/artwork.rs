//! Album covers for downloads are resolved the way the server does it: a
//! MusicBrainz release search by album title and artist, then the Cover Art
//! Archive front cover of the first release found. The requests themselves
//! are the application's; their text is built here.
use vstd::prelude::*;

use crate::text::{chars_of, push_str, string_from_chars};

verus! {

/// MusicBrainz release search endpoint.
pub const MUSICBRAINZ_RELEASE_SEARCH: &'static str = "https://musicbrainz.org/ws/2/release";

/// The search query for a release: `release:"<album>" AND artist:"<artist>"`.
pub open spec fn release_query_spec(artist: Seq<char>, album: Seq<char>) -> Seq<char> {
    "release:\""@ + album + "\" AND artist:\""@ + artist + "\""@
}

pub fn release_query(artist: &str, album: &str) -> (out: String)
    ensures
        out@ == release_query_spec(artist@, album@),
{
    let mut v = chars_of("release:\"");
    push_str(&mut v, album);
    push_str(&mut v, "\" AND artist:\"");
    push_str(&mut v, artist);
    push_str(&mut v, "\"");
    string_from_chars(&v)
}

/// The Cover Art Archive front cover of a release.
pub fn caa_front_url(mbid: &str) -> (out: String)
    ensures
        out@ == "https://coverartarchive.org/release/"@ + mbid@ + "/front"@,
{
    let mut v = chars_of("https://coverartarchive.org/release/");
    push_str(&mut v, mbid);
    push_str(&mut v, "/front");
    string_from_chars(&v)
}

} // verus!
