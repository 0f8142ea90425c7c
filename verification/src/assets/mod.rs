//! `cover://` requests: the album or artist id in the path, the low-res
//! variant, the cache key, the MIME type of a local cover, and the bounded
//! in-memory image cache that makes a repeat render instant.
pub mod image_cache;

use vstd::prelude::*;

use crate::downloads::paths::{path_extension, path_extension_exec};
use crate::percent::{decode_percent, percent_decoded};
use crate::player::server::eq_lit;
use crate::text::{
    ascii_lower_seq, chars_of, push_all, push_str, slice_bytes, slice_chars, starts_with,
    starts_with_exec, string_from_chars, to_ascii_lower, trim_char_start, trim_start_matches,
};

verus! {

pub const SCHEME: &'static str = "cover";

/// Byte budget of the shared image cache (48 MiB).
pub const IMAGE_CACHE_MAX_BYTES: usize = 50331648;

/// How long a cached image stays fresh, in milliseconds (6 h).
pub const IMAGE_CACHE_TTL_MS: u64 = 21600000;

// ---------------------------------------------------------------------------
// Request pieces
// ---------------------------------------------------------------------------

/// The id in a request path: leading slashes dropped, `%XX` decoded; `None`
/// for an empty path.
pub open spec fn parse_id_spec(path: Seq<char>) -> Option<Seq<char>> {
    let trimmed = trim_char_start(path, '/');
    if trimmed.len() == 0 {
        None
    } else {
        Some(percent_decoded(trimmed, true))
    }
}

pub fn parse_id(path: &str) -> (r: Option<String>)
    ensures
        match r {
            Some(s) => parse_id_spec(path@) == Some(s@),
            None => parse_id_spec(path@) is None,
        },
{
    let trimmed = trim_start_matches(&chars_of(path), '/');
    if trimmed.len() == 0 {
        return None;
    }
    let t = string_from_chars(&trimmed);
    Some(percent_decode(t.as_str()))
}

/// Percent-decoder for request paths (`%XX`, as `u8::from_str_radix` reads
/// the two characters).
pub fn percent_decode(input: &str) -> (out: String)
    ensures
        out@ == percent_decoded(input@, true),
{
    decode_percent(input, true)
}

/// The parts of a query string between `&` separators.
pub open spec fn query_parts(q: Seq<char>) -> Seq<Seq<char>>
    decreases q.len(),
{
    if q.len() == 0 {
        seq![Seq::empty()]
    } else {
        let rest = query_parts(q.drop_first());
        if q[0] == '&' {
            seq![Seq::<char>::empty()] + rest
        } else {
            rest.update(0, seq![q[0]] + rest[0])
        }
    }
}

pub proof fn lemma_query_parts_nonempty(q: Seq<char>)
    ensures
        query_parts(q).len() >= 1,
    decreases q.len(),
{
    if q.len() > 0 {
        lemma_query_parts_nonempty(q.drop_first());
    }
}

pub open spec fn is_lowres_part(p: Seq<char>) -> bool {
    p == "lowres=1"@ || p == "lowres"@
}

/// `?lowres=1` (or a bare `lowres`) among the query's parts asks for the
/// tiny placeholder variant.
pub open spec fn wants_lowres_spec(query: Option<Seq<char>>) -> bool {
    match query {
        Some(q) => exists|i: int|
            0 <= i < query_parts(q).len() && is_lowres_part(#[trigger] query_parts(q)[i]),
        None => false,
    }
}

fn is_lowres_part_exec(p: &Vec<char>) -> (r: bool)
    ensures
        r == is_lowres_part(p@),
{
    eq_lit(p, "lowres=1") || eq_lit(p, "lowres")
}

pub open spec fn opt_str_view(o: Option<&str>) -> Option<Seq<char>> {
    match o {
        Some(s) => Some(s@),
        None => None,
    }
}

pub fn wants_lowres(query: Option<&str>) -> (r: bool)
    ensures
        r == wants_lowres_spec(opt_str_view(query)),
{
    match query {
        None => false,
        Some(q) => {
            let v = chars_of(q);
            // Scan the parts from the last one back, as `query_parts` builds
            // them from the back.
            let mut cur: Vec<char> = Vec::new();
            let mut found = false;
            let mut k = v.len();
            proof {
                lemma_query_parts_nonempty(v@.skip(k as int));
                assert(v@.skip(k as int) =~= Seq::<char>::empty());
            }
            while k > 0
                invariant
                    k <= v@.len(),
                    query_parts(v@.skip(k as int)).len() >= 1,
                    cur@ == query_parts(v@.skip(k as int))[0],
                    found == exists|i: int|
                        1 <= i < query_parts(v@.skip(k as int)).len() && is_lowres_part(
                            #[trigger] query_parts(v@.skip(k as int))[i],
                        ),
                decreases k,
            {
                let ghost before = query_parts(v@.skip(k as int));
                let c = v[k - 1];
                assert(v@.skip(k - 1).drop_first() =~= v@.skip(k as int));
                assert(v@.skip(k - 1)[0] == c);
                let ghost after = query_parts(v@.skip(k - 1));
                if c == '&' {
                    let hit = is_lowres_part_exec(&cur);
                    proof {
                        assert(after =~= seq![Seq::<char>::empty()] + before);
                        if hit {
                            assert(is_lowres_part(after[1]));
                        }
                        if found {
                            let w = choose|i: int|
                                1 <= i < before.len() && is_lowres_part(#[trigger] before[i]);
                            assert(after[w + 1] == before[w]);
                        }
                        if exists|i: int| 1 <= i < after.len() && is_lowres_part(#[trigger] after[i]) {
                            let w = choose|i: int|
                                1 <= i < after.len() && is_lowres_part(#[trigger] after[i]);
                            if w > 1 {
                                assert(before[w - 1] == after[w]);
                            }
                        }
                    }
                    found = found || hit;
                    cur = Vec::new();
                    assert(cur@ =~= after[0]);
                } else {
                    let mut nc: Vec<char> = Vec::new();
                    nc.push(c);
                    push_all(&mut nc, &cur);
                    cur = nc;
                    proof {
                        assert(after == before.update(0, seq![c] + before[0]));
                        assert(cur@ =~= after[0]);
                        if found {
                            let w = choose|i: int|
                                1 <= i < before.len() && is_lowres_part(#[trigger] before[i]);
                            assert(after[w] == before[w]);
                        }
                        if exists|i: int| 1 <= i < after.len() && is_lowres_part(#[trigger] after[i]) {
                            let w = choose|i: int|
                                1 <= i < after.len() && is_lowres_part(#[trigger] after[i]);
                            assert(before[w] == after[w]);
                        }
                    }
                }
                k = k - 1;
            }
            assert(v@.skip(0) =~= v@);
            let first = is_lowres_part_exec(&cur);
            proof {
                let parts = query_parts(q@);
                assert(parts == query_parts(v@.skip(0)));
                assert(cur@ == parts[0]);
                assert(first == is_lowres_part(parts[0]));
                if first {
                    assert(0 < parts.len() && is_lowres_part(parts[0]));
                }
                if found {
                    let w = choose|i: int| 1 <= i < parts.len() && is_lowres_part(#[trigger] parts[i]);
                    assert(is_lowres_part(parts[w]));
                }
                if exists|i: int| 0 <= i < parts.len() && is_lowres_part(#[trigger] parts[i]) {
                    let w = choose|i: int| 0 <= i < parts.len() && is_lowres_part(#[trigger] parts[i]);
                    if w >= 1 {
                        assert(found);
                    }
                }
                let qq: Option<Seq<char>> = Some(q@);
                assert(qq is Some && qq->0 == q@);
                assert((first || found) == wants_lowres_spec(qq));
            }
            first || found
        },
    }
}

/// The query the upstream cover request carries.
pub fn lowres_query(lowres: bool) -> (r: &'static str)
    ensures
        r@ == if lowres {
            "?lowres=1"@
        } else {
            ""@
        },
{
    if lowres {
        "?lowres=1"
    } else {
        ""
    }
}

/// Cache key: the request path, then `?` and the query when there is one
/// (so it varies by id, low-res and the `?v=` cache-bust).
pub fn cache_key(path: &str, query: Option<&str>) -> (out: String)
    ensures
        out@ == match query {
            Some(q) => path@ + seq!['?'] + q@,
            None => path@,
        },
{
    match query {
        Some(q) => {
            let mut v = chars_of(path);
            v.push('?');
            push_str(&mut v, q);
            string_from_chars(&v)
        },
        None => string_from_chars(&chars_of(path)),
    }
}

/// MIME type of a local cover by its extension (any case).
pub open spec fn image_mime_for(path: Seq<char>) -> Seq<char> {
    let ext = match path_extension(path) {
        Some(e) => ascii_lower_seq(e),
        None => Seq::empty(),
    };
    if ext == "jpg"@ || ext == "jpeg"@ {
        "image/jpeg"@
    } else if ext == "png"@ {
        "image/png"@
    } else if ext == "webp"@ {
        "image/webp"@
    } else if ext == "gif"@ {
        "image/gif"@
    } else {
        "application/octet-stream"@
    }
}

pub fn guess_mime(path: &str) -> (r: &'static str)
    ensures
        r@ == image_mime_for(path@),
{
    let ext = match path_extension_exec(&chars_of(path)) {
        Some(e) => to_ascii_lower(&e),
        None => Vec::new(),
    };
    proof {
        reveal_strlit("image/jpeg");
        reveal_strlit("image/png");
        reveal_strlit("image/webp");
        reveal_strlit("image/gif");
        reveal_strlit("application/octet-stream");
    }
    if eq_lit(&ext, "jpg") || eq_lit(&ext, "jpeg") {
        "image/jpeg"
    } else if eq_lit(&ext, "png") {
        "image/png"
    } else if eq_lit(&ext, "webp") {
        "image/webp"
    } else if eq_lit(&ext, "gif") {
        "image/gif"
    } else {
        "application/octet-stream"
    }
}

// ---------------------------------------------------------------------------
// Routing
// ---------------------------------------------------------------------------

/// What a `cover://` request asks for: `artist/<id>` is an artist image,
/// anything else an album cover.
#[derive(Debug, Clone, PartialEq, Eq)]
pub enum CoverRoute {
    Artist(String),
    Album(String),
}

/// Whether `r` is the route of the request id `id`.
pub open spec fn routes_to(id: Seq<char>, r: CoverRoute) -> bool {
    if starts_with(id, "artist/"@) {
        r matches CoverRoute::Artist(a) && a@ == id.skip(7)
    } else {
        r matches CoverRoute::Album(a) && a@ == id
    }
}

/// Splits a request id into an artist-image or album-cover route.
pub fn cover_route(id: &str) -> (r: CoverRoute)
    ensures
        routes_to(id@, r),
{
    let v = chars_of(id);
    proof {
        reveal_strlit("artist/");
    }
    if starts_with_exec(&v, "artist/") {
        let rest = slice_chars(&v, 7, v.len());
        CoverRoute::Artist(string_from_chars(&rest))
    } else {
        CoverRoute::Album(string_from_chars(&v))
    }
}

/// The upstream URL a route is proxied to, under the server's REST root.
pub open spec fn upstream_url_spec(rest_root: Seq<char>, r: CoverRoute, lowres: bool) -> Seq<char> {
    let q = if lowres {
        "?lowres=1"@
    } else {
        ""@
    };
    match r {
        CoverRoute::Artist(a) => rest_root + "/artists/"@ + a@ + "/image"@ + q,
        CoverRoute::Album(a) => rest_root + "/albums/"@ + a@ + "/cover"@ + q,
    }
}

/// `<root>/artists/<id>/image` or `<root>/albums/<id>/cover`, with
/// `?lowres=1` for the placeholder variant.
pub fn upstream_url(rest_root: &str, route: &CoverRoute, lowres: bool) -> (out: String)
    ensures
        out@ == upstream_url_spec(rest_root@, *route, lowres),
{
    let mut v = chars_of(rest_root);
    match route {
        CoverRoute::Artist(a) => {
            push_str(&mut v, "/artists/");
            push_str(&mut v, a.as_str());
            push_str(&mut v, "/image");
        },
        CoverRoute::Album(a) => {
            push_str(&mut v, "/albums/");
            push_str(&mut v, a.as_str());
            push_str(&mut v, "/cover");
        },
    }
    push_str(&mut v, lowres_query(lowres));
    string_from_chars(&v)
}

} // verus!
