//! Upload preparation: which picked files are uploadable, the name sent to
//! the server (from a hint, the path, or the sniffed format), and the
//! per-file chunk map with its SHA-256 hashes.
use vstd::prelude::*;
use vstd::string::StringSliceAdditionalSpecFns;

use crate::downloads::paths::{
    file_name_exec, file_name_of, last_index_of, last_index_of_exec, name_extension,
    name_extension_exec, name_stem, name_stem_exec, first_index_of, first_index_of_exec, strip_tail,
};
use crate::error::{error_text, AppError};
use crate::hashing::{sha256, sha256_hex};
use crate::percent::{decode_percent, percent_decoded};
use crate::text::{
    ascii_lower_seq, char_is_ascii_alphanumeric, chars_eq, chars_of, contains_exec, contains_seq,
    decimal_digits, decimal_string, ends_with, ends_with_exec, hex_digit, hex_digit_exec,
    hex_lower_bytes, hex_lower_bytes_exec, is_ascii_alphanumeric, push_all, push_str, slice_chars,
    string_from_chars, to_ascii_lower, trim, trim_ws,
};

verus! {

/// Audio extensions recognised by the server.
pub open spec fn is_audio_ext(e: Seq<char>) -> bool {
    e == "flac"@ || e == "mp3"@ || e == "ogg"@ || e == "opus"@ || e == "m4a"@ || e == "wav"@ || e
        == "aiff"@ || e == "ape"@ || e == "wv"@ || e == "aac"@ || e == "mp4"@
}

/// Chunk size for resumable uploads (128 KiB). Each chunk carries its own
/// hash so the server can verify it on arrival.
pub const CHUNK_SIZE: u64 = 131072;

/// One source to upload — a desktop filesystem path or an Android
/// `content://` URI.
#[derive(Debug, Clone)]
pub struct UploadItem {
    pub path: String,
}

pub open spec fn is_archive_name_spec(filename: Seq<char>) -> bool {
    let n = ascii_lower_seq(filename);
    ||| ends_with(n, ".tar.gz"@)
    ||| ends_with(n, ".tgz"@)
    ||| ends_with(n, ".tar.bz2"@)
    ||| ends_with(n, ".tbz2"@)
    ||| ends_with(n, ".tbz"@)
    ||| ends_with(n, ".tar.xz"@)
    ||| ends_with(n, ".txz"@)
    ||| ends_with(n, ".tar"@)
    ||| ends_with(n, ".zip"@)
    ||| ends_with(n, ".iso"@)
    ||| ends_with(n, ".img"@)
    ||| ends_with(n, ".nrg"@)
    ||| ends_with(n, ".bin"@)
    ||| ends_with(n, ".cue"@)
}

fn is_archive_chars(v: &Vec<char>) -> (r: bool)
    ensures
        r == is_archive_name_spec(v@),
{
    let n = to_ascii_lower(v);
    ends_with_exec(&n, ".tar.gz") || ends_with_exec(&n, ".tgz") || ends_with_exec(&n, ".tar.bz2")
        || ends_with_exec(&n, ".tbz2") || ends_with_exec(&n, ".tbz") || ends_with_exec(
        &n,
        ".tar.xz",
    ) || ends_with_exec(&n, ".txz") || ends_with_exec(&n, ".tar") || ends_with_exec(&n, ".zip")
        || ends_with_exec(&n, ".iso") || ends_with_exec(&n, ".img") || ends_with_exec(&n, ".nrg")
        || ends_with_exec(&n, ".bin") || ends_with_exec(&n, ".cue")
}

/// Archive and disc-image names the server unpacks.
pub fn is_archive_name(filename: &str) -> (r: bool)
    ensures
        r == is_archive_name_spec(filename@),
{
    is_archive_chars(&chars_of(filename))
}

/// A path is uploadable when its file name is an archive name, or its
/// extension is a recognised audio extension (in any case).
pub open spec fn is_uploadable_spec(path: Seq<char>) -> bool {
    match file_name_of(path) {
        None => false,
        Some(name) => is_archive_name_spec(ascii_lower_seq(name)) || match name_extension(name) {
            Some(e) => is_audio_ext(ascii_lower_seq(e)),
            None => false,
        },
    }
}

fn eq_lit(v: &Vec<char>, lit: &str) -> (r: bool)
    ensures
        r == (v@ == lit@),
{
    let l = chars_of(lit);
    chars_eq(v, &l)
}

fn is_audio_ext_exec(e: &Vec<char>) -> (r: bool)
    ensures
        r == is_audio_ext(e@),
{
    eq_lit(e, "flac") || eq_lit(e, "mp3") || eq_lit(e, "ogg") || eq_lit(e, "opus") || eq_lit(
        e,
        "m4a",
    ) || eq_lit(e, "wav") || eq_lit(e, "aiff") || eq_lit(e, "ape") || eq_lit(e, "wv") || eq_lit(
        e,
        "aac",
    ) || eq_lit(e, "mp4")
}

fn is_uploadable_chars(path: &Vec<char>) -> (r: bool)
    ensures
        r == is_uploadable_spec(path@),
{
    match file_name_exec(path) {
        None => false,
        Some(name) => {
            let lower = to_ascii_lower(&name);
            if is_archive_chars(&lower) {
                return true;
            }
            match name_extension_exec(&name) {
                Some(e) => is_audio_ext_exec(&to_ascii_lower(&e)),
                None => false,
            }
        },
    }
}

/// Is this path worth sending (an audio file or an archive)?
pub fn is_uploadable(path: &str) -> (r: bool)
    ensures
        r == is_uploadable_spec(path@),
{
    is_uploadable_chars(&chars_of(path))
}

// ---------------------------------------------------------------------------
// Magic bytes
// ---------------------------------------------------------------------------

pub open spec fn has_at(b: Seq<u8>, at: int, m: Seq<u8>) -> bool {
    at + m.len() <= b.len() && b.subrange(at, at + m.len()) == m
}

/// Format of a file from its leading magic bytes.
pub open spec fn sniffed_ext(b: Seq<u8>) -> Option<Seq<char>> {
    if has_at(b, 0, seq![102u8, 76, 97, 67]) {
        Some("flac"@)
    } else if has_at(b, 0, seq![79u8, 103, 103, 83]) {
        Some("ogg"@)
    } else if b.len() >= 12 && has_at(b, 0, seq![82u8, 73, 70, 70]) && has_at(
        b,
        8,
        seq![87u8, 65, 86, 69],
    ) {
        Some("wav"@)
    } else if b.len() >= 12 && has_at(b, 4, seq![102u8, 116, 121, 112]) {
        Some("m4a"@)
    } else if has_at(b, 0, seq![70u8, 79, 82, 77]) {
        Some("aiff"@)
    } else if has_at(b, 0, seq![0x50u8, 0x4B, 0x03, 0x04]) {
        Some("zip"@)
    } else if has_at(b, 0, seq![0x1Fu8, 0x8B]) {
        Some("tar.gz"@)
    } else if has_at(b, 0, seq![73u8, 68, 51]) {
        Some("mp3"@)
    } else if b.len() >= 2 && b[0] == 0xFF && (b[1] & 0xE0) == 0xE0 {
        Some("mp3"@)
    } else {
        None
    }
}

/// Does `b` hold `m` at offset `at`?
pub fn has_at_exec(b: &[u8], at: usize, m: &[u8]) -> (r: bool)
    ensures
        r == has_at(b@, at as int, m@),
{
    if at > b.len() || m.len() > b.len() - at {
        return false;
    }
    let n = m.len();
    for j in 0..n
        invariant
            n == m@.len(),
            at + n <= b.len(),
            b@.len() == b.len(),
            forall|k: int| 0 <= k < j ==> b@[at + k] == m@[k],
    {
        if b[at + j] != m[j] {
            assert(b@.subrange(at as int, at + n)[j as int] != m@[j as int]);
            return false;
        }
    }
    assert(b@.subrange(at as int, at + n) =~= m@);
    true
}

/// Sniff a file format from its leading magic bytes. Fallback when a
/// filename carries no usable extension.
pub fn sniff_ext(b: &[u8]) -> (r: Option<&'static str>)
    ensures
        match r {
            Some(s) => sniffed_ext(b@) == Some(s@),
            None => sniffed_ext(b@) is None,
        },
{
    let flac: [u8; 4] = [102, 76, 97, 67];
    let ogg: [u8; 4] = [79, 103, 103, 83];
    let riff: [u8; 4] = [82, 73, 70, 70];
    let wave: [u8; 4] = [87, 65, 86, 69];
    let ftyp: [u8; 4] = [102, 116, 121, 112];
    let form: [u8; 4] = [70, 79, 82, 77];
    let zip: [u8; 4] = [0x50, 0x4B, 0x03, 0x04];
    let gz: [u8; 2] = [0x1F, 0x8B];
    let id3: [u8; 3] = [73, 68, 51];
    assert(flac@ =~= seq![102u8, 76, 97, 67]);
    assert(ogg@ =~= seq![79u8, 103, 103, 83]);
    assert(riff@ =~= seq![82u8, 73, 70, 70]);
    assert(wave@ =~= seq![87u8, 65, 86, 69]);
    assert(ftyp@ =~= seq![102u8, 116, 121, 112]);
    assert(form@ =~= seq![70u8, 79, 82, 77]);
    assert(zip@ =~= seq![0x50u8, 0x4B, 0x03, 0x04]);
    assert(gz@ =~= seq![0x1Fu8, 0x8B]);
    assert(id3@ =~= seq![73u8, 68, 51]);
    if has_at_exec(b, 0, &flac) {
        return Some("flac");
    }
    if has_at_exec(b, 0, &ogg) {
        return Some("ogg");
    }
    if b.len() >= 12 && has_at_exec(b, 0, &riff) && has_at_exec(b, 8, &wave) {
        return Some("wav");
    }
    if b.len() >= 12 && has_at_exec(b, 4, &ftyp) {
        return Some("m4a");
    }
    if has_at_exec(b, 0, &form) {
        return Some("aiff");
    }
    if has_at_exec(b, 0, &zip) {
        return Some("zip");
    }
    if has_at_exec(b, 0, &gz) {
        return Some("tar.gz");
    }
    if has_at_exec(b, 0, &id3) {
        return Some("mp3");
    }
    if b.len() >= 2 && b[0] == 0xFF && (b[1] & 0xE0) == 0xE0 {
        return Some("mp3");
    }
    None
}

/// The value of one hex digit.
pub fn hex(b: u8) -> (r: Option<u8>)
    ensures
        r == hex_digit(b),
{
    hex_digit_exec(b)
}

/// Minimal `%XX` percent-decoder for content-URI tails (two hex digits).
pub fn percent_decode(s: &str) -> (out: String)
    ensures
        out@ == percent_decoded(s@, false),
{
    decode_percent(s, false)
}

// ---------------------------------------------------------------------------
// Names
// ---------------------------------------------------------------------------

pub open spec fn stem_char(c: char) -> char {
    if is_ascii_alphanumeric(c) || c == '.' || c == '_' || c == '-' || c == ' ' {
        c
    } else {
        '_'
    }
}

pub open spec fn is_stem_trim_char(c: char) -> bool {
    c == '_' || c == ' ' || c == '.'
}

pub open spec fn trim_stem_start(s: Seq<char>) -> Seq<char>
    decreases s.len(),
{
    if s.len() > 0 && is_stem_trim_char(s[0]) {
        trim_stem_start(s.drop_first())
    } else {
        s
    }
}

pub open spec fn trim_stem_end(s: Seq<char>) -> Seq<char>
    decreases s.len(),
{
    if s.len() > 0 && is_stem_trim_char(s.last()) {
        trim_stem_end(s.drop_last())
    } else {
        s
    }
}

/// Unsafe characters become `_`, then `_`, spaces and dots are trimmed from
/// both ends; `upload` when nothing is left.
pub open spec fn sanitized_stem(s: Seq<char>) -> Seq<char> {
    let t = trim_stem_end(trim_stem_start(s.map_values(|c: char| stem_char(c))));
    if t.len() == 0 {
        "upload"@
    } else {
        t
    }
}

fn sanitize_stem_chars(v: &Vec<char>) -> (out: Vec<char>)
    ensures
        out@ == sanitized_stem(v@),
{
    let mut m: Vec<char> = Vec::new();
    let n = v.len();
    for i in 0..n
        invariant
            n == v@.len(),
            m@ == v@.take(i as int).map_values(|c: char| stem_char(c)),
    {
        let c = v[i];
        let keep = char_is_ascii_alphanumeric(c) || c == '.' || c == '_' || c == '-' || c == ' ';
        m.push(
            if keep {
                c
            } else {
                '_'
            },
        );
        assert(v@.take(i + 1).map_values(|c: char| stem_char(c)) =~= v@.take(i as int).map_values(
            |c: char| stem_char(c),
        ).push(stem_char(c)));
    }
    assert(v@.take(n as int) == v@);
    let ghost mapped = m@;
    let mut a: usize = 0;
    assert(m@.subrange(0, m@.len() as int) == m@);
    while a < m.len() && (m[a] == '_' || m[a] == ' ' || m[a] == '.')
        invariant
            a <= m@.len(),
            m@ == mapped,
            trim_stem_start(mapped) == trim_stem_start(m@.subrange(a as int, m@.len() as int)),
        decreases m.len() - a,
    {
        assert(m@.subrange(a as int, m@.len() as int).drop_first() == m@.subrange(
            a + 1,
            m@.len() as int,
        ));
        a = a + 1;
    }
    let mut b: usize = m.len();
    assert(trim_stem_start(m@.subrange(a as int, b as int)) == m@.subrange(a as int, b as int));
    while b > a && (m[b - 1] == '_' || m[b - 1] == ' ' || m[b - 1] == '.')
        invariant
            a <= b <= m@.len(),
            trim_stem_end(m@.subrange(a as int, m@.len() as int)) == trim_stem_end(
                m@.subrange(a as int, b as int),
            ),
        decreases b - a,
    {
        assert(m@.subrange(a as int, b as int).drop_last() == m@.subrange(a as int, b - 1));
        b = b - 1;
    }
    if a == b {
        chars_of("upload")
    } else {
        slice_chars(&m, a, b)
    }
}

/// Replace characters unsafe in a filename with `_`.
pub fn sanitize_stem(s: &str) -> (out: String)
    ensures
        out@ == sanitized_stem(s@),
{
    let v = sanitize_stem_chars(&chars_of(s));
    string_from_chars(&v)
}

/// True for a URI string (SAF `content://`, `file://`, …) vs a plain path.
pub fn is_uri(raw: &str) -> (r: bool)
    ensures
        r == contains_seq(raw@, "://"@),
{
    contains_exec(&chars_of(raw), "://")
}

/// Index just past the last `/` or `\`, or 0.
pub open spec fn tail_start(s: Seq<char>) -> int
    decreases s.len(),
{
    if s.len() == 0 {
        0
    } else if s.last() == '/' || s.last() == '\\' {
        s.len() as int
    } else {
        tail_start(s.drop_last())
    }
}

fn tail_start_exec(v: &Vec<char>) -> (k: usize)
    ensures
        k == tail_start(v@),
        k <= v@.len(),
{
    let mut k = v.len();
    assert(v@.take(k as int) == v@);
    while k > 0 && v[k - 1] != '/' && v[k - 1] != '\\'
        invariant
            k <= v@.len(),
            tail_start(v@) == tail_start(v@.take(k as int)),
        decreases k,
    {
        assert(v@.take(k as int).drop_last() == v@.take(k - 1));
        k = k - 1;
    }
    k
}

/// Best-effort display name: for a URI, the decoded last path segment
/// (without a query); for a path, its file name; `file` as a fallback.
pub open spec fn name_hint_spec(raw: Seq<char>) -> Seq<char> {
    if contains_seq(raw, "://"@) {
        let tail = raw.skip(tail_start(raw));
        let tail = tail.take(first_index_of(tail, '?'));
        let decoded = percent_decoded(tail, false);
        if decoded.len() > 0 {
            decoded
        } else {
            "file"@
        }
    } else {
        match file_name_of(raw) {
            Some(n) => n,
            None => "file"@,
        }
    }
}

/// Best-effort display name for progress/notifications and as a filename hint.
pub fn name_hint(raw: &str) -> (out: String)
    ensures
        out@ == name_hint_spec(raw@),
{
    let v = chars_of(raw);
    if contains_exec(&v, "://") {
        let ts = tail_start_exec(&v);
        assert(v@.subrange(ts as int, v@.len() as int) == v@.skip(ts as int));
        let tail = slice_chars(&v, ts, v.len());
        let q = first_index_of_exec(&tail, '?');
        assert(tail@.subrange(0, q as int) == tail@.take(q as int));
        let tail = slice_chars(&tail, 0, q);
        let t = string_from_chars(&tail);
        let decoded = decode_percent(t.as_str(), false);
        if !decoded.as_str().is_empty() {
            return decoded;
        }
        return string_from_chars(&chars_of("file"));
    }
    match file_name_exec(&v) {
        Some(n) => string_from_chars(&n),
        None => string_from_chars(&chars_of("file")),
    }
}

/// The name an upload is sent under.
pub open spec fn determined_filename(name: Option<Seq<char>>, path: Seq<char>, bytes: Seq<u8>) -> Seq<
    char,
> {
    let candidate = match name {
        Some(n) if trim_ws(n).len() > 0 => Some(trim_ws(n)),
        _ => file_name_of(path),
    };
    if candidate matches Some(c) && is_uploadable_spec(c) {
        candidate->0
    } else {
        let ext = match sniffed_ext(bytes) {
            Some(e) => e,
            None => "bin"@,
        };
        let raw_stem = match candidate {
            Some(c) => match file_name_of(c) {
                Some(f) => name_stem(f),
                None => c,
            },
            None => "upload"@,
        };
        sanitized_stem(raw_stem) + seq!['.'] + ext
    }
}

/// Resolve the filename to send to the server: keep an explicit hint / the
/// path's own name when it already has a recognised extension; otherwise
/// sniff the format from the bytes and synthesise a sanitised `<stem>.<ext>`.
pub fn determine_filename(name: Option<&str>, path: &str, bytes: &[u8]) -> (out: String)
    ensures
        out@ == determined_filename(
            match name {
                Some(n) => Some(n@),
                None => None,
            },
            path@,
            bytes@,
        ),
{
    let candidate: Option<Vec<char>> = match name {
        Some(n) => {
            let t = trim(&chars_of(n));
            if t.len() > 0 {
                Some(t)
            } else {
                file_name_exec(&chars_of(path))
            }
        },
        None => file_name_exec(&chars_of(path)),
    };
    if let Some(c) = &candidate {
        if is_uploadable_chars(c) {
            return string_from_chars(c);
        }
    }
    let ext = match sniff_ext(bytes) {
        Some(e) => e,
        None => "bin",
    };
    let raw_stem = match &candidate {
        Some(c) => match file_name_exec(c) {
            Some(f) => name_stem_exec(&f),
            None => slice_chars(c, 0, c.len()),
        },
        None => chars_of("upload"),
    };
    assert(candidate matches Some(c) ==> c@.subrange(0, c@.len() as int) == c@);
    let mut out = sanitize_stem_chars(&raw_stem);
    out.push('.');
    push_str(&mut out, ext);
    string_from_chars(&out)
}

/// `filled` full cells followed by empty ones, ten in all.
pub open spec fn text_bar_spec(pct: u32) -> Seq<char> {
    let filled: int = if pct / 10 < 10 {
        (pct / 10) as int
    } else {
        10
    };
    Seq::new(filled as nat, |i: int| '\u{2588}') + Seq::new((10 - filled) as nat, |i: int| '\u{2591}')
}

/// 10-cell text progress bar (the notification plugin has no native bar).
pub fn text_bar(pct: u32) -> (out: String)
    ensures
        out@ == text_bar_spec(pct),
        out@.len() == 10,
{
    let filled: usize = if pct / 10 < 10 {
        (pct / 10) as usize
    } else {
        10
    };
    let mut v: Vec<char> = Vec::new();
    for i in 0..filled
        invariant
            filled <= 10,
            v@ == Seq::new(i as nat, |j: int| '\u{2588}'),
    {
        v.push('\u{2588}');
        assert(v@ =~= Seq::new((i + 1) as nat, |j: int| '\u{2588}'));
    }
    let rest: usize = 10 - filled;
    for i in 0..rest
        invariant
            rest == 10 - filled,
            v@ == Seq::new(filled as nat, |j: int| '\u{2588}') + Seq::new(i as nat, |j: int| '\u{2591}'),
    {
        v.push('\u{2591}');
        assert(v@ =~= Seq::new(filled as nat, |j: int| '\u{2588}') + Seq::new((i + 1) as nat, |j: int| '\u{2591}'));
    }
    string_from_chars(&v)
}

/// The id of the `n`-th upload job and the notification id derived from it.
pub fn next_job(n: u64) -> (r: (String, i32))
    ensures
        r.0@ == "upload-"@ + decimal_digits(n as nat),
        r.1 as int == (n as int) % 0x8000_0000,
{
    let mut v = chars_of("upload-");
    let d = decimal_string(n);
    push_all(&mut v, &d);
    let low: u64 = n % 0x8000_0000;
    (string_from_chars(&v), low as i32)
}

// ---------------------------------------------------------------------------
// Chunk map
// ---------------------------------------------------------------------------

/// One chunk of a file: byte range `[start, end)` and its hash.
#[derive(Debug, Clone)]
pub struct ChunkInit {
    pub index: u32,
    pub start: u64,
    pub end: u64,
    pub hash: String,
}

/// A file as declared to the server when an upload session starts.
#[derive(Debug, Clone)]
pub struct UploadFileInit {
    pub filename: String,
    pub hash: String,
    pub total_size: u64,
    pub chunk_size: u64,
    pub total_chunks: u32,
    pub chunks: Vec<ChunkInit>,
}

/// Number of chunks for a size: `ceil(size / CHUNK_SIZE)`, at least one.
pub open spec fn chunk_count(size: nat) -> nat {
    if size == 0 {
        1
    } else {
        ((size + CHUNK_SIZE - 1) / (CHUNK_SIZE as int)) as nat
    }
}

/// The chunk map law: consecutive, `CHUNK_SIZE`-long windows that start at
/// 0 and end at the file size, each with the hash of its bytes.
pub open spec fn is_chunk_map(chunks: Seq<ChunkInit>, data: Seq<u8>) -> bool {
    &&& chunks.len() == chunk_count(data.len())
    &&& forall|i: int|
        0 <= i < chunks.len() ==> {
            let c = #[trigger] chunks[i];
            &&& c.index as int == i % 0x1_0000_0000
            &&& c.start == i * CHUNK_SIZE
            &&& c.end == if (i + 1) * CHUNK_SIZE < data.len() {
                (i + 1) * CHUNK_SIZE
            } else {
                data.len() as int
            }
            &&& c.hash@ == hex_lower_bytes(sha256(data.subrange(c.start as int, c.end as int)))
        }
}

fn slice_of(data: &[u8], lo: usize, hi: usize) -> (out: Vec<u8>)
    requires
        lo <= hi <= data@.len(),
    ensures
        out@ == data@.subrange(lo as int, hi as int),
{
    let mut out: Vec<u8> = Vec::new();
    let mut i = lo;
    while i < hi
        invariant
            lo <= i <= hi <= data@.len(),
            out@ == data@.subrange(lo as int, i as int),
        decreases hi - i,
    {
        out.push(data[i]);
        assert(data@.subrange(lo as int, i + 1) == data@.subrange(lo as int, i as int).push(
            data@[i as int],
        ));
        i = i + 1;
    }
    out
}

/// Build a file's chunk map (with per-chunk hashes) + whole-file hash.
pub fn prepare_file(filename: String, data: &[u8]) -> (f: UploadFileInit)
    ensures
        f.filename == filename,
        f.hash@ == hex_lower_bytes(sha256(data@)),
        f.total_size == data@.len(),
        f.chunk_size == CHUNK_SIZE,
        f.total_chunks as int == chunk_count(data@.len()) % 0x1_0000_0000,
        is_chunk_map(f.chunks@, data@),
{
    let n: usize = data.len();
    let size: u64 = n as u64;
    let q: u64 = size / CHUNK_SIZE;
    let r: u64 = size % CHUNK_SIZE;
    let total_chunks: u64 = if size == 0 {
        1
    } else if r == 0 {
        q
    } else {
        q + 1
    };
    assert(total_chunks == chunk_count(size as nat) && total_chunks >= 1 && (size == 0 || (
    total_chunks - 1) * CHUNK_SIZE < size)) by (nonlinear_arith)
        requires
            q == size / CHUNK_SIZE,
            r == size % CHUNK_SIZE,
            size == 0 ==> total_chunks == 1,
            size != 0 && r == 0 ==> total_chunks == q,
            size != 0 && r != 0 ==> total_chunks == q + 1,
    {}
    let mut chunks: Vec<ChunkInit> = Vec::new();
    let mut i: u64 = 0;
    while i < total_chunks
        invariant
            n == data@.len(),
            size == n,
            total_chunks == chunk_count(size as nat),
            total_chunks >= 1,
            size == 0 ==> total_chunks == 1,
            i <= total_chunks,
            (total_chunks - 1) * CHUNK_SIZE < size || size == 0,
            chunks@.len() == i,
            forall|k: int|
                0 <= k < i ==> {
                    let c = #[trigger] chunks@[k];
                    &&& c.index as int == k % 0x1_0000_0000
                    &&& c.start == k * CHUNK_SIZE
                    &&& c.end == if (k + 1) * CHUNK_SIZE < size {
                        (k + 1) * CHUNK_SIZE
                    } else {
                        size as int
                    }
                    &&& c.hash@ == hex_lower_bytes(
                        sha256(data@.subrange(c.start as int, c.end as int)),
                    )
                },
        decreases total_chunks - i,
    {
        assert(i * CHUNK_SIZE <= size) by (nonlinear_arith)
            requires
                i < total_chunks,
                (total_chunks - 1) * CHUNK_SIZE < size || size == 0,
                size == 0 ==> total_chunks == 1,
        {}
        let start: u64 = i * CHUNK_SIZE;
        let end: u64 = if size - start > CHUNK_SIZE {
            start + CHUNK_SIZE
        } else {
            size
        };
        assert(start <= end <= size);
        assert(end == if (i + 1) * CHUNK_SIZE < size {
            (i + 1) * CHUNK_SIZE
        } else {
            size as int
        }) by (nonlinear_arith)
            requires
                start == i * CHUNK_SIZE,
                end == if size - start > CHUNK_SIZE {
                    start + CHUNK_SIZE
                } else {
                    size as int
                },
        {}
        let lo: usize = start as usize;
        let hi: usize = end as usize;
        let bytes = slice_of(data, lo, hi);
        let hash = sha256_hex(bytes.as_slice());
        let idx: u32 = (i % 0x1_0000_0000) as u32;
        let ghost prev = chunks@;
        chunks.push(ChunkInit { index: idx, start, end, hash });
        assert(chunks@[i as int].hash@ == hex_lower_bytes(
            sha256(data@.subrange(start as int, end as int)),
        ));
        assert forall|k: int| 0 <= k < i + 1 implies {
            let c = #[trigger] chunks@[k];
            &&& c.index as int == k % 0x1_0000_0000
            &&& c.start == k * CHUNK_SIZE
            &&& c.end == if (k + 1) * CHUNK_SIZE < size {
                (k + 1) * CHUNK_SIZE
            } else {
                size as int
            }
            &&& c.hash@ == hex_lower_bytes(sha256(data@.subrange(c.start as int, c.end as int)))
        } by {
            if k < i {
                assert(chunks@[k] == prev[k]);
            }
        }
        i = i + 1;
    }
    let whole = sha256_hex(data);
    UploadFileInit {
        filename,
        hash: whole,
        total_size: size,
        chunk_size: CHUNK_SIZE,
        total_chunks: (total_chunks % 0x1_0000_0000) as u32,
        chunks,
    }
}

// ---------------------------------------------------------------------------
// Resuming a session
// ---------------------------------------------------------------------------

/// Bytes of a chunk.
pub open spec fn chunk_len(c: ChunkInit) -> int {
    c.end - c.start
}

/// Total bytes of the chunks whose index is (or is not) in `held`.
pub open spec fn bytes_where(chunks: Seq<ChunkInit>, held: Seq<u32>, is_held: bool) -> int
    decreases chunks.len(),
{
    if chunks.len() == 0 {
        0
    } else {
        (if held.contains(chunks.last().index) == is_held {
            chunk_len(chunks.last())
        } else {
            0
        }) + bytes_where(chunks.drop_last(), held, is_held)
    }
}

/// The chunks still to send, as `(index, start, end)`, in map order.
pub open spec fn missing_chunks(chunks: Seq<ChunkInit>, held: Seq<u32>) -> Seq<(u32, u64, u64)>
    decreases chunks.len(),
{
    if chunks.len() == 0 {
        Seq::empty()
    } else {
        let rest = missing_chunks(chunks.drop_last(), held);
        let c = chunks.last();
        if held.contains(c.index) {
            rest
        } else {
            rest.push((c.index, c.start, c.end))
        }
    }
}

/// Resuming a file: the bytes the server already holds (the chunks whose
/// index it reports received) and the chunks still to send.
pub fn plan_resume(chunks: &Vec<ChunkInit>, held: &Vec<u32>) -> (r: (u64, Vec<(u32, u64, u64)>))
    requires
        forall|i: int| 0 <= i < chunks@.len() ==> (#[trigger] chunks@[i]).start <= chunks@[i].end,
        bytes_where(chunks@, held@, true) <= u64::MAX,
    ensures
        r.0 == bytes_where(chunks@, held@, true),
        r.1@ == missing_chunks(chunks@, held@),
{
    let mut already: u64 = 0;
    let mut missing: Vec<(u32, u64, u64)> = Vec::new();
    let n = chunks.len();
    for i in 0..n
        invariant
            n == chunks@.len(),
            forall|k: int| 0 <= k < chunks@.len() ==> (#[trigger] chunks@[k]).start <= chunks@[k].end,
            bytes_where(chunks@, held@, true) <= u64::MAX,
            already == bytes_where(chunks@.take(i as int), held@, true),
            missing@ == missing_chunks(chunks@.take(i as int), held@),
    {
        let c = &chunks[i];
        assert(chunks@.take(i + 1).drop_last() =~= chunks@.take(i as int));
        assert(chunks@.take(i + 1).last() == chunks@[i as int]);
        let mut found = false;
        let m = held.len();
        for j in 0..m
            invariant
                m == held@.len(),
                found == exists|k: int| 0 <= k < j && held@[k] == c.index,
        {
            if held[j] == c.index {
                found = true;
            }
        }
        proof {
            lemma_bytes_where_prefix(chunks@, held@, i + 1);
        }
        if found {
            already = already + (c.end - c.start);
        } else {
            missing.push((c.index, c.start, c.end));
        }
    }
    assert(chunks@.take(n as int) =~= chunks@);
    (already, missing)
}

/// Held bytes of a prefix never exceed those of the whole map.
proof fn lemma_bytes_where_prefix(chunks: Seq<ChunkInit>, held: Seq<u32>, k: int)
    requires
        0 <= k <= chunks.len(),
        forall|i: int| 0 <= i < chunks.len() ==> (#[trigger] chunks[i]).start <= chunks[i].end,
    ensures
        0 <= bytes_where(chunks.take(k), held, true) <= bytes_where(chunks, held, true),
    decreases chunks.len() - k,
{
    lemma_bytes_where_nonneg(chunks.take(k), held, true);
    if k < chunks.len() {
        lemma_bytes_where_prefix(chunks, held, k + 1);
        assert(chunks.take(k + 1).drop_last() =~= chunks.take(k));
        assert(chunks.take(k + 1).last() == chunks[k]);
    } else {
        assert(chunks.take(k) =~= chunks);
    }
}

proof fn lemma_bytes_where_nonneg(chunks: Seq<ChunkInit>, held: Seq<u32>, is_held: bool)
    requires
        forall|i: int| 0 <= i < chunks.len() ==> (#[trigger] chunks[i]).start <= chunks[i].end,
    ensures
        bytes_where(chunks, held, is_held) >= 0,
    decreases chunks.len(),
{
    if chunks.len() > 0 {
        assert(chunks.last() == chunks[chunks.len() - 1]);
        lemma_bytes_where_nonneg(chunks.drop_last(), held, is_held);
    }
}

/// The byte lengths of the chunks of a map add up to the end of the last.
proof fn lemma_chunk_prefix_sum(chunks: Seq<ChunkInit>, size: nat, k: int)
    requires
        1 <= k <= chunks.len(),
        forall|i: int|
            0 <= i < chunks.len() ==> {
                let c = #[trigger] chunks[i];
                &&& c.start == i * CHUNK_SIZE
                &&& c.end == if (i + 1) * CHUNK_SIZE < size {
                    (i + 1) * CHUNK_SIZE
                } else {
                    size as int
                }
            },
        (chunks.len() - 1) * CHUNK_SIZE <= size,
    ensures
        bytes_where(chunks.take(k), Seq::empty(), false) == chunks[k - 1].end,
    decreases k,
{
    let c = chunks[k - 1];
    assert(!Seq::<u32>::empty().contains(c.index));
    assert(chunks.take(k).drop_last() =~= chunks.take(k - 1));
    assert(chunks.take(k).last() == c);
    let e = Seq::<u32>::empty();
    assert(bytes_where(chunks.take(k), e, false) == chunk_len(c) + bytes_where(
        chunks.take(k - 1),
        e,
        false,
    ));
    if k == 1 {
        assert(chunks.take(0) =~= Seq::<ChunkInit>::empty());
        assert(c.start == 0);
    } else {
        lemma_chunk_prefix_sum(chunks, size, k - 1);
        let p = chunks[k - 2];
        assert(p.end == c.start) by (nonlinear_arith)
            requires
                p.end == if (k - 1) * CHUNK_SIZE < size {
                    (k - 1) * CHUNK_SIZE
                } else {
                    size as int
                },
                c.start == (k - 1) * CHUNK_SIZE,
                (k - 1) * CHUNK_SIZE <= (chunks.len() - 1) * CHUNK_SIZE,
                (chunks.len() - 1) * CHUNK_SIZE <= size,
                k <= chunks.len(),
        {}
    }
}

/// Every chunk counts once: the held and the missing bytes add up.
proof fn lemma_split_bytes(chunks: Seq<ChunkInit>, held: Seq<u32>)
    ensures
        bytes_where(chunks, held, true) + bytes_where(chunks, held, false) == bytes_where(
            chunks,
            Seq::empty(),
            false,
        ),
    decreases chunks.len(),
{
    if chunks.len() > 0 {
        lemma_split_bytes(chunks.drop_last(), held);
        assert(!Seq::<u32>::empty().contains(chunks.last().index));
    }
}

/// Resuming never loses or double-counts a byte: for a file's chunk map,
/// the bytes the server holds plus those still to send are the file's size.
pub proof fn law_resume_covers_file(chunks: Seq<ChunkInit>, data: Seq<u8>, held: Seq<u32>)
    requires
        is_chunk_map(chunks, data),
    ensures
        bytes_where(chunks, held, true) + bytes_where(chunks, held, false) == data.len(),
{
    let size = data.len();
    lemma_split_bytes(chunks, held);
    assert((chunks.len() - 1) * CHUNK_SIZE <= size) by (nonlinear_arith)
        requires
            chunks.len() == chunk_count(size),
            chunk_count(size) == if size == 0 {
                1
            } else {
                ((size + CHUNK_SIZE - 1) / (CHUNK_SIZE as int)) as nat
            },
    {}
    lemma_chunk_prefix_sum(chunks, size, chunks.len() as int);
    assert(chunks.take(chunks.len() as int) =~= chunks);
    let last = chunks[chunks.len() - 1];
    assert(last.end == size) by (nonlinear_arith)
        requires
            last.end == if chunks.len() * CHUNK_SIZE < size {
                chunks.len() * CHUNK_SIZE
            } else {
                size as int
            },
            chunks.len() == chunk_count(size),
            chunk_count(size) == if size == 0 {
                1
            } else {
                ((size + CHUNK_SIZE - 1) / (CHUNK_SIZE as int)) as nat
            },
    {}
}

/// The completion notification: its title and body.
pub open spec fn completion_text(tracks: u64, files_failed: u64, skipped: u64) -> (Seq<char>, Seq<char>) {
    let title = if files_failed > 0 {
        "Upload finished with errors"@
    } else {
        "Upload complete"@
    };
    let body = decimal_digits(tracks as nat) + " track(s) ingested"@ + (if files_failed > 0 {
        " \u{b7} "@ + decimal_digits(files_failed as nat) + " failed"@
    } else {
        Seq::empty()
    }) + (if skipped > 0 {
        " \u{b7} "@ + decimal_digits(skipped as nat) + " skipped"@
    } else {
        Seq::empty()
    });
    (title, body)
}

pub fn completion_message(tracks: u64, files_failed: u64, skipped: u64) -> (r: (&'static str, String))
    ensures
        r.0@ == completion_text(tracks, files_failed, skipped).0,
        r.1@ == completion_text(tracks, files_failed, skipped).1,
{
    let title = if files_failed > 0 {
        "Upload finished with errors"
    } else {
        "Upload complete"
    };
    let mut body = decimal_string(tracks);
    push_str(&mut body, " track(s) ingested");
    let ghost b1 = body@;
    if files_failed > 0 {
        push_str(&mut body, " \u{b7} ");
        let d = decimal_string(files_failed);
        push_all(&mut body, &d);
        push_str(&mut body, " failed");
    }
    let ghost b2 = body@;
    if skipped > 0 {
        push_str(&mut body, " \u{b7} ");
        let d = decimal_string(skipped);
        push_all(&mut body, &d);
        push_str(&mut body, " skipped");
    }
    assert(body@ =~= completion_text(tracks, files_failed, skipped).1);
    (title, string_from_chars(&body))
}

/// The body of the notification for a job where nothing was read.
pub fn nothing_uploaded_message(skipped: u64) -> (r: String)
    ensures
        r@ == "0 uploaded \u{b7} "@ + decimal_digits(skipped as nat) + " skipped"@,
{
    let mut v = chars_of("0 uploaded \u{b7} ");
    let d = decimal_string(skipped);
    push_all(&mut v, &d);
    push_str(&mut v, " skipped");
    string_from_chars(&v)
}

/// Tries at one chunk before its error is surfaced.
pub const CHUNK_RETRIES: u32 = 3;

/// After the `attempt`-th failed try at a chunk (counting from 1): `None` to
/// give up and surface the error, or the pause in milliseconds before the
/// next try, which grows by 150 ms a try.
pub fn chunk_retry_delay(attempt: u32) -> (r: Option<u64>)
    ensures
        r == if attempt >= CHUNK_RETRIES {
            None
        } else {
            Some((150 * attempt) as u64)
        },
{
    if attempt >= CHUNK_RETRIES {
        None
    } else {
        Some(150 * (attempt as u64))
    }
}

// ---------------------------------------------------------------------------
// The steps of an upload job
// ---------------------------------------------------------------------------

/// What reading one picked source adds to a job.
#[derive(Debug, Clone)]
pub enum ReadStep {
    /// The source could not be read: this line goes to the job's errors.
    Failed(String),
    /// The source is empty: it counts as skipped.
    Skip,
    /// The file to declare (its bytes are uploaded later).
    Upload(UploadFileInit),
}

/// A read failure is reported as `<hint>: read error: <error>`; empty
/// content is skipped; anything else is named (from the hint, the path or
/// the sniffed format) and its chunk map prepared.
pub fn after_read(hint: &str, raw_path: &str, read: &Result<Vec<u8>, AppError>) -> (r: ReadStep)
    ensures
        match read {
            Err(e) => r matches ReadStep::Failed(m) && m@ == hint@ + ": read error: "@ + error_text(*e),
            Ok(d) => if d@.len() == 0 {
                r is Skip
            } else {
                r matches ReadStep::Upload(f) && f.filename@ == determined_filename(
                    Some(hint@),
                    raw_path@,
                    d@,
                ) && f.hash@ == hex_lower_bytes(sha256(d@)) && f.total_size == d@.len()
                    && f.chunk_size == CHUNK_SIZE && f.total_chunks as int == chunk_count(d@.len())
                    % 0x1_0000_0000 && is_chunk_map(f.chunks@, d@)
            },
        },
{
    match read {
        Err(e) => {
            let text = e.to_string();
            let mut v = chars_of(hint);
            push_str(&mut v, ": read error: ");
            push_str(&mut v, text.as_str());
            ReadStep::Failed(string_from_chars(&v))
        },
        Ok(d) => {
            if d.len() == 0 {
                ReadStep::Skip
            } else {
                let name = determine_filename(Some(hint), raw_path, d.as_slice());
                ReadStep::Upload(prepare_file(name, d.as_slice()))
            }
        },
    }
}

/// The counts a finished job reports.
#[derive(Debug, Clone, Copy, PartialEq, Eq, Structural)]
pub struct JobReport {
    pub state: UploadState,
    pub total_files: u64,
    pub tracks_ingested: u64,
    pub files_failed: u64,
    pub skipped: u64,
}

/// How a job ended.
#[derive(Debug, Clone, Copy, PartialEq, Eq, Structural)]
pub enum UploadState {
    Completed,
    Error,
    Cancelled,
}

impl UploadState {
    /// The state's name in the completion event.
    pub fn as_str(self) -> (r: &'static str)
        ensures
            r@ == match self {
                UploadState::Completed => "completed"@,
                UploadState::Error => "error"@,
                UploadState::Cancelled => "cancelled"@,
            },
    {
        match self {
            UploadState::Completed => "completed",
            UploadState::Error => "error",
            UploadState::Cancelled => "cancelled",
        }
    }
}

/// After reading every source: with nothing to upload no session is
/// opened and the job completes at once (nothing uploaded, the skipped
/// count kept); otherwise `None`, and a session is declared.
pub fn after_scan(files: usize, skipped: u64) -> (r: Option<JobReport>)
    ensures
        files == 0 ==> r == Some(
            (JobReport {
                state: UploadState::Completed,
                total_files: 0,
                tracks_ingested: 0,
                files_failed: 0,
                skipped,
            }),
        ),
        files > 0 ==> r is None,
{
    if files == 0 {
        Some(
            JobReport {
                state: UploadState::Completed,
                total_files: 0,
                tracks_ingested: 0,
                files_failed: 0,
                skipped,
            },
        )
    } else {
        None
    }
}

/// A session that could not be declared ends the job in error, every file
/// counted as failed.
pub fn after_init_failure(total_files: u64, skipped: u64) -> (r: JobReport)
    ensures
        r == (JobReport {
            state: UploadState::Error,
            total_files,
            tracks_ingested: 0,
            files_failed: total_files,
            skipped,
        }),
{
    JobReport { state: UploadState::Error, total_files, tracks_ingested: 0, files_failed: total_files, skipped }
}

/// A chunk that failed for good: harmless once the session has completed
/// (a lost acknowledgement racing the finalised session), so `None` and the
/// job goes on to its report; otherwise the session is cancelled and the
/// job ends cancelled, every file counted as failed.
pub fn after_chunk_failure(already_complete: bool, session_completed: bool, total_files: u64, skipped: u64) -> (r: Option<JobReport>)
    ensures
        already_complete || session_completed ==> r is None,
        !(already_complete || session_completed) ==> r == Some(
            (JobReport {
                state: UploadState::Cancelled,
                total_files,
                tracks_ingested: 0,
                files_failed: total_files,
                skipped,
            }),
        ),
{
    if already_complete || session_completed {
        None
    } else {
        Some(
            JobReport {
                state: UploadState::Cancelled,
                total_files,
                tracks_ingested: 0,
                files_failed: total_files,
                skipped,
            },
        )
    }
}


/// One of the eleven audio extensions the server takes, in lower case:
/// flac, mp3, ogg, opus, m4a, wav, aiff, ape, wv, aac, mp4.
pub open spec fn is_listed_audio_extension(e: Seq<char>) -> bool {
    ||| e == "flac"@
    ||| e == "mp3"@
    ||| e == "ogg"@
    ||| e == "opus"@
    ||| e == "m4a"@
    ||| e == "wav"@
    ||| e == "aiff"@
    ||| e == "ape"@
    ||| e == "wv"@
    ||| e == "aac"@
    ||| e == "mp4"@
}

proof fn lemma_last_index_suffix(x: Seq<char>, y: Seq<char>, c: char)
    requires
        forall|i: int| 0 <= i < y.len() ==> y[i] != c,
    ensures
        last_index_of(x + y, c) == last_index_of(x, c),
    decreases y.len(),
{
    if y.len() == 0 {
        assert(x + y =~= x);
    } else {
        assert((x + y).drop_last() =~= x + y.drop_last());
        lemma_last_index_suffix(x, y.drop_last(), c);
    }
}

/// The file `dir/stem.ext` (a stem and an extension without separators,
/// the extension without dots): it is uploadable when the extension, in any
/// ASCII case, is one of the eleven audio extensions; with any other
/// extension it is uploadable only as an archive name.
pub proof fn law_audio_files_are_uploadable(dir: Seq<char>, stem: Seq<char>, ext: Seq<char>)
    requires
        stem.len() > 0,
        ext.len() > 0,
        forall|i: int| 0 <= i < stem.len() ==> stem[i] != '/',
        forall|i: int| 0 <= i < ext.len() ==> ext[i] != '/' && ext[i] != '.',
    ensures
        is_listed_audio_extension(ascii_lower_seq(ext)) ==> is_uploadable_spec(
            dir + "/"@ + stem + "."@ + ext,
        ),
        !is_listed_audio_extension(ascii_lower_seq(ext)) ==> (is_uploadable_spec(
            dir + "/"@ + stem + "."@ + ext,
        ) <==> is_archive_name_spec(ascii_lower_seq(stem + "."@ + ext))),
{
    reveal_strlit("/");
    reveal_strlit(".");
    let name = stem + "."@ + ext;
    let path = dir + "/"@ + name;
    assert(path =~= (dir + "/"@) + name);
    assert(path.last() == ext.last());
    assert(strip_tail(path) == path);
    assert forall|i: int| 0 <= i < name.len() implies name[i] != '/' by {
        if i < stem.len() {
        } else if i > stem.len() {
            assert(name[i] == ext[i - stem.len() - 1]);
        }
    }
    lemma_last_index_suffix(dir + "/"@, name, '/');
    assert((dir + "/"@).last() == '/');
    assert(last_index_of(dir + "/"@, '/') == dir.len());
    let k = dir.len() as int;
    assert(path.subrange(k + 1, path.len() as int) =~= name);
    assert(name.len() >= 3);
    assert(file_name_of(path) == Some(name));
    lemma_last_index_suffix(stem + "."@, ext, '.');
    assert((stem + "."@).last() == '.');
    assert(last_index_of(stem + "."@, '.') == stem.len());
    assert(name =~= (stem + "."@) + ext);
    assert(name.subrange(stem.len() as int + 1, name.len() as int) =~= ext);
    assert(name_extension(name) == Some(ext));
    assert(dir + "/"@ + stem + "."@ + ext =~= path);
    assert(is_uploadable_spec(path) == (is_archive_name_spec(ascii_lower_seq(name))
        || is_audio_ext(ascii_lower_seq(ext))));
}

} // verus!
