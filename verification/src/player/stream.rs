//! Request parsing for the `media://` protocol: the track id carried in the
//! URI path and the simple `bytes=START-END` range form it serves.
use vstd::prelude::*;

use crate::downloads::paths::{first_index_of, first_index_of_exec, path_extension};
use crate::percent::{decode_percent, percent_decoded};
use crate::player::server::audio_mime_for;
use crate::text::{
    ascii_lower_seq, chars_of, parse_u64, parse_u64_exec, slice_chars, starts_with,
    starts_with_exec, string_from_chars, trim_char_start, trim_start_matches,
};

verus! {

/// URI scheme registered for media playback.
pub const SCHEME: &'static str = "media";

/// The id a request path names: the path without its leading `/`s,
/// percent-decoded; `None` when nothing is left.
pub open spec fn parse_track_id_spec(path: Seq<char>) -> Option<Seq<char>> {
    let t = trim_char_start(path, '/');
    if t.len() == 0 {
        None
    } else {
        Some(percent_decoded(t, true))
    }
}

/// Strip the leading `/` and percent-decode the track id from the URI path.
pub fn parse_track_id(path: &str) -> (r: Option<String>)
    ensures
        match r {
            None => parse_track_id_spec(path@) is None,
            Some(id) => parse_track_id_spec(path@) == Some(id@),
        },
{
    let t = trim_start_matches(&chars_of(path), '/');
    if t.len() == 0 {
        None
    } else {
        let s = string_from_chars(&t);
        Some(percent_decode(s.as_str()))
    }
}

/// Decode `%XX` escapes (the `from_str_radix` reading, so `%+X` counts too),
/// then read the bytes as UTF-8, lossily.
pub fn percent_decode(input: &str) -> (out: String)
    ensures
        out@ == percent_decoded(input@, true),
{
    decode_percent(input, true)
}

/// `bytes=START-END` → `(start, end)`; an empty end means "to EOF"
/// (`u64::MAX`, clamped by the caller). A reversed window is rejected.
pub open spec fn stream_range_spec(raw: Seq<char>) -> Option<(u64, u64)> {
    if !starts_with(raw, "bytes="@) {
        None
    } else {
        let s = raw.skip(6);
        let k = first_index_of(s, '-');
        if k == s.len() {
            None
        } else {
            let start_s = s.take(k);
            let end_s = s.skip(k + 1);
            match parse_u64(start_s) {
                None => None,
                Some(start) => {
                    let end = if end_s.len() == 0 {
                        Some(u64::MAX)
                    } else {
                        parse_u64(end_s)
                    };
                    match end {
                        None => None,
                        Some(e) => if e < start {
                            None
                        } else {
                            Some((start, e))
                        },
                    }
                },
            }
        }
    }
}

/// Parse `bytes=START-END` → `(start, end)`. `end` defaults to "EOF".
pub fn parse_range(raw: &str) -> (r: Option<(u64, u64)>)
    ensures
        r == stream_range_spec(raw@),
        r matches Some((s, e)) ==> s <= e,
{
    let v = chars_of(raw);
    proof {
        reveal_strlit("bytes=");
    }
    if !starts_with_exec(&v, "bytes=") {
        return None;
    }
    assert(v@.subrange(6, v@.len() as int) == v@.skip(6));
    let s = slice_chars(&v, 6, v.len());
    let k = first_index_of_exec(&s, '-');
    if k == s.len() {
        return None;
    }
    assert(s@.subrange(0, k as int) == s@.take(k as int));
    assert(s@.subrange(k + 1, s@.len() as int) == s@.skip(k + 1));
    let start_s = slice_chars(&s, 0, k);
    let end_s = slice_chars(&s, k + 1, s.len());
    let start = match parse_u64_exec(&start_s) {
        None => return None,
        Some(x) => x,
    };
    let end = if end_s.len() == 0 {
        u64::MAX
    } else {
        match parse_u64_exec(&end_s) {
            None => return None,
            Some(x) => x,
        }
    };
    if end < start {
        return None;
    }
    Some((start, end))
}

/// Extension → audio MIME type for a served file.
pub fn guess_mime(path: &str) -> (r: &'static str)
    ensures
        r@ == audio_mime_for(
            match path_extension(path@) {
                Some(e) => Some(ascii_lower_seq(e)),
                None => None,
            },
        ),
{
    crate::player::server::guess_mime(path)
}

} // verus!
