//! Decisions of the in-app loopback HTTP server for media playback: the URL
//! shape handed to the webview, the single-range `Range` header grammar and
//! the extension → MIME map. The listener itself lives in the application.
use vstd::prelude::*;
use vstd::string::StringSliceAdditionalSpecFns;

use crate::downloads::paths::{first_index_of, first_index_of_exec, path_extension, path_extension_exec};
use crate::percent::{encode_path_segment, percent_encoded};
use crate::text::{
    ascii_lower_seq, chars_eq, chars_of, contains_char, decimal_digits, decimal_string,
    parse_u64, parse_u64_exec, push_all, push_str, slice_chars, starts_with, starts_with_exec,
    string_from_chars, to_ascii_lower, trim, trim_ws, all_digits, decimal_value, is_ascii_digit, is_white_space,
    trim_ws_start, trim_ws_end,
};

verus! {

/// Loopback bind + token, published to the frontend.
pub struct MediaServer {
    pub port: u16,
    pub token: String,
}

/// The loopback URL text for a port, token and encoded track id.
pub open spec fn media_url_spec(port: u16, token: Seq<char>, track_id: Seq<char>) -> Seq<char> {
    "http://127.0.0.1:"@ + decimal_digits(port as nat) + "/s/"@ + token + "/"@ + percent_encoded(
        vstd::utf8::encode_utf8(track_id),
    )
}

/// The loopback URL the webview's `<audio>` element loads for `track_id`.
pub fn media_url(port: u16, token: &str, track_id: &str) -> (out: String)
    ensures
        out@ == media_url_spec(port, token@, track_id@),
{
    let mut v = chars_of("http://127.0.0.1:");
    let digits = decimal_string(port as u64);
    push_all(&mut v, &digits);
    push_str(&mut v, "/s/");
    push_str(&mut v, token);
    push_str(&mut v, "/");
    let enc = encode_segment(track_id);
    push_str(&mut v, enc.as_str());
    string_from_chars(&v)
}

/// Percent-encode the bytes of a path segment that aren't URL-safe.
pub fn encode_segment(input: &str) -> (out: String)
    ensures
        out@ == percent_encoded(input.spec_bytes()),
{
    encode_path_segment(input)
}

/// Outcome of resolving a single-range `Range` header against a known total.
#[derive(Debug, Clone, Copy, PartialEq, Eq)]
pub enum Rng {
    /// A satisfiable window, both ends inclusive.
    Sat(u64, u64),
    Unsatisfiable,
    Malformed,
}

/// `bytes=-N`: the last `N` bytes.
pub open spec fn suffix_range(n: u64, total: u64) -> Rng {
    if n == 0 || total == 0 {
        Rng::Unsatisfiable
    } else {
        let m = if n < total {
            n
        } else {
            total
        };
        Rng::Sat((total - m) as u64, (total - 1) as u64)
    }
}

/// `bytes=N-`: from `N` to the end.
pub open spec fn open_range(start: u64, total: u64) -> Rng {
    if start >= total {
        Rng::Unsatisfiable
    } else {
        Rng::Sat(start, (total - 1) as u64)
    }
}

/// `bytes=A-B`: an explicit window, the end clipped to the last byte.
pub open spec fn explicit_range(start: u64, end: u64, total: u64) -> Rng {
    if start > end || start >= total {
        Rng::Unsatisfiable
    } else {
        Rng::Sat(
            start,
            if end < total - 1 {
                end
            } else {
                (total - 1) as u64
            },
        )
    }
}

/// The `lhs-rhs` part of a range spec, both sides trimmed.
pub open spec fn range_from_sides(lhs: Seq<char>, rhs: Seq<char>, total: u64) -> Rng {
    if lhs.len() == 0 && rhs.len() == 0 {
        Rng::Malformed
    } else if lhs.len() == 0 {
        match parse_u64(rhs) {
            None => Rng::Malformed,
            Some(n) => suffix_range(n, total),
        }
    } else if rhs.len() == 0 {
        match parse_u64(lhs) {
            None => Rng::Malformed,
            Some(s) => open_range(s, total),
        }
    } else {
        match (parse_u64(lhs), parse_u64(rhs)) {
            (Some(s), Some(e)) => explicit_range(s, e, total),
            _ => Rng::Malformed,
        }
    }
}

/// RFC 7233 single-range parse. A missing `bytes=` unit, an empty spec, a
/// list of ranges, a missing `-` or a non-number is malformed.
pub open spec fn parse_range_spec(header: Seq<char>, total: u64) -> Rng {
    let h = trim_ws(header);
    if !starts_with(h, "bytes="@) {
        Rng::Malformed
    } else {
        let spec = trim_ws(h.skip(6));
        let k = first_index_of(spec, '-');
        if spec.len() == 0 || spec.contains(',') || k == spec.len() {
            Rng::Malformed
        } else {
            range_from_sides(trim_ws(spec.take(k)), trim_ws(spec.skip(k + 1)), total)
        }
    }
}

/// Single-range `Range` parse against a known total. Multi-range is
/// rejected as malformed, which the caller answers with the whole body.
pub fn parse_range(header: &str, total: u64) -> (r: Rng)
    ensures
        r == parse_range_spec(header@, total),
        r matches Rng::Sat(s, e) ==> s <= e < total,
{
    let h = trim(&chars_of(header));
    proof {
        reveal_strlit("bytes=");
    }
    if !starts_with_exec(&h, "bytes=") {
        return Rng::Malformed;
    }
    assert(h@.subrange(6, h@.len() as int) == h@.skip(6));
    let spec = trim(&slice_chars(&h, 6, h.len()));
    if spec.len() == 0 || contains_char(&spec, ',') {
        return Rng::Malformed;
    }
    let k = first_index_of_exec(&spec, '-');
    if k == spec.len() {
        return Rng::Malformed;
    }
    assert(spec@.subrange(0, k as int) == spec@.take(k as int));
    assert(spec@.subrange(k + 1, spec@.len() as int) == spec@.skip(k + 1));
    let lhs = trim(&slice_chars(&spec, 0, k));
    let rhs = trim(&slice_chars(&spec, k + 1, spec.len()));
    if lhs.len() == 0 && rhs.len() == 0 {
        Rng::Malformed
    } else if lhs.len() == 0 {
        match parse_u64_exec(&rhs) {
            None => Rng::Malformed,
            Some(n) => {
                if n == 0 || total == 0 {
                    Rng::Unsatisfiable
                } else {
                    let m = if n < total {
                        n
                    } else {
                        total
                    };
                    Rng::Sat(total - m, total - 1)
                }
            },
        }
    } else if rhs.len() == 0 {
        match parse_u64_exec(&lhs) {
            None => Rng::Malformed,
            Some(s) => {
                if s >= total {
                    Rng::Unsatisfiable
                } else {
                    Rng::Sat(s, total - 1)
                }
            },
        }
    } else {
        match parse_u64_exec(&lhs) {
            None => Rng::Malformed,
            Some(s) => match parse_u64_exec(&rhs) {
                None => Rng::Malformed,
                Some(e) => {
                    if s > e || s >= total {
                        Rng::Unsatisfiable
                    } else {
                        Rng::Sat(
                            s,
                            if e < total - 1 {
                                e
                            } else {
                                total - 1
                            },
                        )
                    }
                },
            },
        }
    }
}

/// Lower-cased extension → audio MIME type, `application/octet-stream` otherwise.
pub open spec fn audio_mime_for(ext: Option<Seq<char>>) -> Seq<char> {
    match ext {
        Some(e) => if e == "mp3"@ {
            "audio/mpeg"@
        } else if e == "flac"@ {
            "audio/flac"@
        } else if e == "wav"@ {
            "audio/wav"@
        } else if e == "ogg"@ || e == "oga"@ {
            "audio/ogg"@
        } else if e == "opus"@ {
            "audio/opus"@
        } else if e == "m4a"@ || e == "mp4"@ || e == "aac"@ {
            "audio/mp4"@
        } else if e == "webm"@ {
            "audio/webm"@
        } else {
            "application/octet-stream"@
        },
        None => "application/octet-stream"@,
    }
}

pub fn eq_lit(v: &Vec<char>, lit: &str) -> (r: bool)
    ensures
        r == (v@ == lit@),
{
    let l = chars_of(lit);
    chars_eq(v, &l)
}

/// The audio MIME type for a lower-cased extension.
pub fn audio_mime_exec(ext: &Option<Vec<char>>) -> (r: &'static str)
    ensures
        r@ == audio_mime_for(
            match ext {
                Some(e) => Some(e@),
                None => None,
            },
        ),
{
    match ext {
        Some(e) => {
            if eq_lit(e, "mp3") {
                "audio/mpeg"
            } else if eq_lit(e, "flac") {
                "audio/flac"
            } else if eq_lit(e, "wav") {
                "audio/wav"
            } else if eq_lit(e, "ogg") || eq_lit(e, "oga") {
                "audio/ogg"
            } else if eq_lit(e, "opus") {
                "audio/opus"
            } else if eq_lit(e, "m4a") || eq_lit(e, "mp4") || eq_lit(e, "aac") {
                "audio/mp4"
            } else if eq_lit(e, "webm") {
                "audio/webm"
            } else {
                "application/octet-stream"
            }
        },
        None => "application/octet-stream",
    }
}

/// Conservative extension → MIME map. Anything unknown streams as
/// `application/octet-stream` so the player decides what to do.
pub fn guess_mime(path: &str) -> (r: &'static str)
    ensures
        r@ == audio_mime_for(
            match path_extension(path@) {
                Some(e) => Some(ascii_lower_seq(e)),
                None => None,
            },
        ),
{
    let p = chars_of(path);
    let ext = match path_extension_exec(&p) {
        Some(e) => Some(to_ascii_lower(&e)),
        None => None,
    };
    audio_mime_exec(&ext)
}


proof fn lemma_trim_keeps_solid(x: Seq<char>)
    requires
        x.len() > 0,
        !is_white_space(x[0]),
        !is_white_space(x.last()),
    ensures
        trim_ws(x) == x,
{
    assert(trim_ws_start(x) == x);
    assert(trim_ws_end(x) == x);
}

proof fn lemma_first_index_after(x: Seq<char>, y: Seq<char>, c: char)
    requires
        forall|i: int| 0 <= i < x.len() ==> x[i] != c,
    ensures
        first_index_of(x + y, c) == x.len() + first_index_of(y, c),
    decreases x.len(),
{
    if x.len() == 0 {
        assert(x + y =~= y);
    } else {
        assert((x + y).drop_first() =~= x.drop_first() + y);
        lemma_first_index_after(x.drop_first(), y, c);
    }
}

proof fn lemma_trim_empty()
    ensures
        trim_ws(Seq::<char>::empty()) == Seq::<char>::empty(),
{
    assert(trim_ws_start(Seq::<char>::empty()) == Seq::<char>::empty());
    assert(trim_ws_end(Seq::<char>::empty()) == Seq::<char>::empty());
}

proof fn lemma_trim_digits(x: Seq<char>)
    requires
        all_digits(x),
    ensures
        trim_ws(x) == x,
{
    if x.len() == 0 {
        lemma_trim_empty();
    } else {
        assert(is_ascii_digit(x[0]));
        assert(is_ascii_digit(x.last()));
        lemma_trim_keeps_solid(x);
    }
}

/// `bytes=L-R` with digit runs `L` and `R` (either may be empty) is read
/// with `L` and `R` as its two sides.
proof fn lemma_header_sides(ls: Seq<char>, rs: Seq<char>, total: u64)
    requires
        all_digits(ls),
        all_digits(rs),
    ensures
        parse_range_spec("bytes="@ + ls + "-"@ + rs, total) == range_from_sides(ls, rs, total),
{
    reveal_strlit("bytes=");
    reveal_strlit("-");
    let h = "bytes="@ + ls + "-"@ + rs;
    let body = ls + "-"@ + rs;
    if rs.len() > 0 {
        assert(is_ascii_digit(rs.last()));
        assert(h.last() == rs.last());
        assert(body.last() == rs.last());
    } else {
        assert(h.last() == '-');
        assert(body.last() == '-');
    }
    if ls.len() > 0 {
        assert(is_ascii_digit(ls[0]));
        assert(body[0] == ls[0]);
    } else {
        assert(body[0] == '-');
    }
    lemma_trim_keeps_solid(h);
    assert(h.subrange(0, 6) =~= "bytes="@);
    assert(starts_with(h, "bytes="@));
    assert(h.skip(6) =~= body);
    lemma_trim_keeps_solid(body);
    assert(body =~= ls + ("-"@ + rs));
    assert forall|i: int| 0 <= i < ls.len() implies ls[i] != '-' by {
        assert(is_ascii_digit(ls[i]));
    }
    lemma_first_index_after(ls, "-"@ + rs, '-');
    assert(first_index_of("-"@ + rs, '-') == 0);
    let k = ls.len() as int;
    assert(first_index_of(body, '-') == k);
    assert(!body.contains(',')) by {
        if body.contains(',') {
            let i = choose|i: int| 0 <= i < body.len() && body[i] == ',';
            if i < k {
                assert(is_ascii_digit(ls[i]));
            } else if i > k {
                assert(body[i] == rs[i - k - 1]);
                assert(is_ascii_digit(rs[i - k - 1]));
            }
        }
    }
    assert(body.take(k) =~= ls);
    assert(body.skip(k + 1) =~= rs);
    lemma_trim_digits(ls);
    lemma_trim_digits(rs);
}

proof fn lemma_parse_digits(x: Seq<char>)
    requires
        x.len() > 0,
        all_digits(x),
        decimal_value(x) <= u64::MAX,
    ensures
        parse_u64(x) == Some(decimal_value(x) as u64),
{
    assert(is_ascii_digit(x[0]));
}

/// A header `bytes=A-B` with decimal `A` and `B`: the window starts at `A`
/// and ends at `B`, or at the last byte when `B` lies past it; it is
/// unsatisfiable when `A` is after `B` or at or past the end.
pub proof fn law_explicit_window(ls: Seq<char>, rs: Seq<char>, total: u64)
    requires
        ls.len() > 0,
        rs.len() > 0,
        all_digits(ls),
        all_digits(rs),
        decimal_value(ls) <= u64::MAX,
        decimal_value(rs) <= u64::MAX,
    ensures
        ({
            let a = decimal_value(ls);
            let b = decimal_value(rs);
            let r = parse_range_spec("bytes="@ + ls + "-"@ + rs, total);
            if a <= b && a < total {
                r matches Rng::Sat(s, e) && s == a && (b < total ==> e == b) && (b >= total ==> e
                    == total - 1)
            } else {
                r == Rng::Unsatisfiable
            }
        }),
{
    lemma_header_sides(ls, rs, total);
    lemma_parse_digits(ls);
    lemma_parse_digits(rs);
}

/// A header `bytes=A-` with decimal `A`: from `A` to the last byte, or
/// unsatisfiable when `A` is at or past the end.
pub proof fn law_open_window(ls: Seq<char>, total: u64)
    requires
        ls.len() > 0,
        all_digits(ls),
        decimal_value(ls) <= u64::MAX,
    ensures
        ({
            let a = decimal_value(ls);
            let r = parse_range_spec("bytes="@ + ls + "-"@, total);
            if a < total {
                r matches Rng::Sat(s, e) && s == a && e == total - 1
            } else {
                r == Rng::Unsatisfiable
            }
        }),
{
    assert(all_digits(Seq::<char>::empty()));
    lemma_header_sides(ls, Seq::empty(), total);
    assert("bytes="@ + ls + "-"@ + Seq::<char>::empty() =~= "bytes="@ + ls + "-"@);
    lemma_parse_digits(ls);
}

/// A header `bytes=-N` with decimal `N`: the last `N` bytes (the whole body
/// when `N` is at least its length), or unsatisfiable when `N` is 0 or the
/// body is empty.
pub proof fn law_suffix_window(rs: Seq<char>, total: u64)
    requires
        rs.len() > 0,
        all_digits(rs),
        decimal_value(rs) <= u64::MAX,
    ensures
        ({
            let n = decimal_value(rs);
            let r = parse_range_spec("bytes=-"@ + rs, total);
            if n == 0 || total == 0 {
                r == Rng::Unsatisfiable
            } else {
                r matches Rng::Sat(s, e) && e == total - 1 && (n < total ==> s == total - n) && (n
                    >= total ==> s == 0)
            }
        }),
{
    reveal_strlit("bytes=-");
    reveal_strlit("bytes=");
    reveal_strlit("-");
    assert(all_digits(Seq::<char>::empty()));
    lemma_header_sides(Seq::empty(), rs, total);
    assert("bytes="@ + Seq::<char>::empty() + "-"@ + rs =~= "bytes=-"@ + rs);
    lemma_parse_digits(rs);
}

} // verus!
