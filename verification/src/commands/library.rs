//! Paging defaults for library listings and the content type of an uploaded
//! cover image.
use vstd::prelude::*;

use crate::commands::upload::{has_at, has_at_exec};
use crate::downloads::paths::{path_extension, path_extension_exec};
use crate::player::server::eq_lit;
use crate::text::{ascii_lower_seq, chars_of, to_ascii_lower};

verus! {

/// Page size when the caller gives none (or a non-positive one).
pub const DEFAULT_LIMIT: i64 = 50;

/// Largest page a listing returns.
pub const MAX_LIMIT: i64 = 200;

/// The page size actually requested: the default for a missing or
/// non-positive limit, otherwise the limit capped at `MAX_LIMIT`.
pub open spec fn normalised_limit(limit: Option<i64>) -> i64 {
    let l = match limit {
        Some(l) => l,
        None => DEFAULT_LIMIT,
    };
    if l <= 0 {
        DEFAULT_LIMIT
    } else if l < MAX_LIMIT {
        l
    } else {
        MAX_LIMIT
    }
}

pub fn normalise_limit(limit: Option<i64>) -> (r: i64)
    ensures
        r == normalised_limit(limit),
        1 <= r <= MAX_LIMIT,
{
    let l = match limit {
        Some(l) => l,
        None => DEFAULT_LIMIT,
    };
    if l <= 0 {
        DEFAULT_LIMIT
    } else if l < MAX_LIMIT {
        l
    } else {
        MAX_LIMIT
    }
}

/// A missing or negative offset starts at the beginning.
pub fn normalise_offset(offset: Option<i64>) -> (r: i64)
    ensures
        r == match offset {
            Some(o) => if o > 0 {
                o
            } else {
                0
            },
            None => 0,
        },
        r >= 0,
{
    match offset {
        Some(o) => if o > 0 {
            o
        } else {
            0
        },
        None => 0,
    }
}

/// Image type by magic bytes (JPEG, PNG, GIF, WebP), else by the path's
/// extension (`png`, `gif`, `webp`, any case), else JPEG.
pub open spec fn sniffed_image_type(b: Seq<u8>, path: Seq<char>) -> Seq<char> {
    if has_at(b, 0, seq![0xFFu8, 0xD8, 0xFF]) {
        "image/jpeg"@
    } else if has_at(b, 0, seq![0x89u8, 0x50, 0x4E, 0x47, 0x0D, 0x0A, 0x1A, 0x0A]) {
        "image/png"@
    } else if has_at(b, 0, seq![71u8, 73, 70, 56, 55, 97]) || has_at(
        b,
        0,
        seq![71u8, 73, 70, 56, 57, 97],
    ) {
        "image/gif"@
    } else if b.len() >= 12 && has_at(b, 0, seq![82u8, 73, 70, 70]) && has_at(
        b,
        8,
        seq![87u8, 69, 66, 80],
    ) {
        "image/webp"@
    } else {
        let ext = match path_extension(path) {
            Some(e) => ascii_lower_seq(e),
            None => Seq::empty(),
        };
        if ext == "png"@ {
            "image/png"@
        } else if ext == "gif"@ {
            "image/gif"@
        } else if ext == "webp"@ {
            "image/webp"@
        } else {
            "image/jpeg"@
        }
    }
}

/// Best-effort image content-type: magic-byte sniff first (robust for
/// content URIs with opaque names), falling back to the file extension,
/// then `image/jpeg`.
pub fn sniff_image_content_type(bytes: &[u8], path: &str) -> (r: &'static str)
    ensures
        r@ == sniffed_image_type(bytes@, path@),
{
    let jpeg: [u8; 3] = [0xFF, 0xD8, 0xFF];
    let png: [u8; 8] = [0x89, 0x50, 0x4E, 0x47, 0x0D, 0x0A, 0x1A, 0x0A];
    let gif7: [u8; 6] = [71, 73, 70, 56, 55, 97];
    let gif9: [u8; 6] = [71, 73, 70, 56, 57, 97];
    let riff: [u8; 4] = [82, 73, 70, 70];
    let webp: [u8; 4] = [87, 69, 66, 80];
    assert(jpeg@ =~= seq![0xFFu8, 0xD8, 0xFF]);
    assert(png@ =~= seq![0x89u8, 0x50, 0x4E, 0x47, 0x0D, 0x0A, 0x1A, 0x0A]);
    assert(gif7@ =~= seq![71u8, 73, 70, 56, 55, 97]);
    assert(gif9@ =~= seq![71u8, 73, 70, 56, 57, 97]);
    assert(riff@ =~= seq![82u8, 73, 70, 70]);
    assert(webp@ =~= seq![87u8, 69, 66, 80]);
    if has_at_exec(bytes, 0, &jpeg) {
        return "image/jpeg";
    }
    if has_at_exec(bytes, 0, &png) {
        return "image/png";
    }
    if has_at_exec(bytes, 0, &gif7) || has_at_exec(bytes, 0, &gif9) {
        return "image/gif";
    }
    if bytes.len() >= 12 && has_at_exec(bytes, 0, &riff) && has_at_exec(bytes, 8, &webp) {
        return "image/webp";
    }
    let ext = match path_extension_exec(&chars_of(path)) {
        Some(e) => to_ascii_lower(&e),
        None => Vec::new(),
    };
    proof {
        reveal_strlit("image/png");
        reveal_strlit("image/gif");
        reveal_strlit("image/webp");
        reveal_strlit("image/jpeg");
    }
    if eq_lit(&ext, "png") {
        "image/png"
    } else if eq_lit(&ext, "gif") {
        "image/gif"
    } else if eq_lit(&ext, "webp") {
        "image/webp"
    } else {
        "image/jpeg"
    }
}

} // verus!
