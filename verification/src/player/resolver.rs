//! The `media://` URL handed to the frontend for a track. The registered
//! scheme is served under `http://media.localhost/` on Windows and Android
//! and under `media://localhost/` elsewhere.
use vstd::prelude::*;
use vstd::string::StringSliceAdditionalSpecFns;

use crate::equalizer::model::Platform;
use crate::percent::{encode_path_segment, percent_encoded};
use crate::text::{chars_of, push_str, string_from_chars};

verus! {

/// Does the platform serve custom schemes over `http://<scheme>.localhost`?
pub open spec fn uses_http_form(platform: Platform) -> bool {
    platform == Platform::Windows || platform == Platform::Android
}

/// The platform-correct media URL for an (encoded) track id.
pub open spec fn media_url_spec(track_id: Seq<char>, platform: Platform) -> Seq<char> {
    let encoded = percent_encoded(vstd::utf8::encode_utf8(track_id));
    if uses_http_form(platform) {
        "http://media.localhost/"@ + encoded
    } else {
        "media://localhost/"@ + encoded
    }
}

/// Build the media URL for a track id on `platform`. The id is
/// percent-encoded, so a stray `/` cannot read as a path separator.
pub fn media_url(track_id: &str, platform: Platform) -> (out: String)
    ensures
        out@ == media_url_spec(track_id@, platform),
{
    let encoded = urlencoding_encode(track_id);
    let mut v = if platform == Platform::Windows || platform == Platform::Android {
        chars_of("http://media.localhost/")
    } else {
        chars_of("media://localhost/")
    };
    push_str(&mut v, encoded.as_str());
    string_from_chars(&v)
}

/// Percent-encoding of the bytes that are not URL-safe in a path segment
/// (ASCII alphanumerics and `-_.~` pass through; others become `%XX`).
pub fn urlencoding_encode(input: &str) -> (out: String)
    ensures
        out@ == percent_encoded(input.spec_bytes()),
{
    encode_path_segment(input)
}

} // verus!
