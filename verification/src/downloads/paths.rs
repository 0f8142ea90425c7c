//! Path resolution + sanitisation for downloaded content.
//!
//! Layout mirrors the server's organiser (`Artist/Album/Track.ext`) so a
//! downloaded library browses the same way on disk as it does in-app. Every
//! component is sanitised so user-controlled metadata can't escape the
//! downloads root. Paths are handled as text with `/` separators, with the
//! component rules of `std::path::Path` on Unix.
use vstd::prelude::*;

use crate::text::{
    ascii_lower_seq, chars_eq, chars_of, decimal_digits, decimal_string, is_control,
    is_white_space, push_all, push_str, slice_chars, string_from_chars, to_ascii_lower, trim,
    trim_char_end, trim_char_start, trim_ws, trim_ws_end, trim_ws_start,
    zero_pad, zero_pad_exec, char_is_control, char_is_white_space,
};

verus! {

/// Settings key holding the downloads-root override (absolute path).
pub const SETTING_DOWNLOADS_DIR: &'static str = "downloads_dir";

/// Settings key for the mobile "Wi-Fi only" toggle (`"true"`/`"false"`).
pub const SETTING_WIFI_ONLY: &'static str = "wifi_only";

/// The temp suffix used while a download is in flight.
pub const PART_SUFFIX: &'static str = "part";

/// Top-level folder under the downloads root for podcast episodes.
pub const PODCASTS_DIR: &'static str = "Podcasts";

// ---------------------------------------------------------------------------
// Sanitising one component
// ---------------------------------------------------------------------------

/// Characters that are never allowed inside a path component.
pub open spec fn is_forbidden_char(c: char) -> bool {
    c == '/' || c == '\\' || c == ':' || c == '*' || c == '?' || c == '"' || c == '<' || c
        == '>' || c == '|'
}

pub open spec fn keeps_char(c: char) -> bool {
    !is_control(c) && !is_forbidden_char(c)
}

/// The characters of `s` that survive the separator / control filter.
pub open spec fn kept_chars(s: Seq<char>) -> Seq<char>
    decreases s.len(),
{
    if s.len() == 0 {
        Seq::empty()
    } else if keeps_char(s.last()) {
        kept_chars(s.drop_last()).push(s.last())
    } else {
        kept_chars(s.drop_last())
    }
}

/// Whitespace or a dot: what is trimmed off both ends of a component.
pub open spec fn is_edge_trimmed(c: char) -> bool {
    is_white_space(c) || c == '.'
}

/// `s` with leading whitespace and dots dropped, however they interleave.
pub open spec fn trim_edge_start(s: Seq<char>) -> Seq<char>
    decreases s.len(),
{
    if s.len() > 0 && is_edge_trimmed(s[0]) {
        trim_edge_start(s.drop_first())
    } else {
        s
    }
}

/// `s` with trailing whitespace and dots dropped, however they interleave.
pub open spec fn trim_edge_end(s: Seq<char>) -> Seq<char>
    decreases s.len(),
{
    if s.len() > 0 && is_edge_trimmed(s.last()) {
        trim_edge_end(s.drop_last())
    } else {
        s
    }
}

/// The sanitised form of one path component: the kept characters, trimmed
/// of whitespace and dots until it neither starts nor ends with either
/// (so it is never hidden or empty), or `unknown` when nothing is left.
pub open spec fn sanitized(s: Seq<char>) -> Seq<char> {
    let t = trim_edge_end(trim_edge_start(kept_chars(s)));
    if t.len() == 0 || t == seq!['.', '.'] {
        "unknown"@
    } else {
        t
    }
}

/// What a sanitised component is guaranteed to be: non-empty, not `..`, and
/// free of separators, reserved characters and control characters (NUL
/// included).
pub open spec fn is_safe_component(s: Seq<char>) -> bool {
    &&& s.len() > 0
    &&& s != seq!['.', '.']
    &&& forall|i: int| 0 <= i < s.len() ==> keeps_char(#[trigger] s[i])
}

proof fn lemma_kept_chars_all_kept(s: Seq<char>)
    ensures
        all_kept(kept_chars(s)),
    decreases s.len(),
{
    if s.len() > 0 {
        lemma_kept_chars_all_kept(s.drop_last());
        let p = kept_chars(s.drop_last());
        if keeps_char(s.last()) {
            assert forall|i: int| 0 <= i < p.push(s.last()).len() implies keeps_char(
                #[trigger] p.push(s.last())[i],
            ) by {
                if i < p.len() {
                    assert(p.push(s.last())[i] == p[i]);
                }
            }
        }
    }
}

pub open spec fn all_kept(s: Seq<char>) -> bool {
    forall|i: int| 0 <= i < s.len() ==> keeps_char(#[trigger] s[i])
}

proof fn lemma_all_kept_drop_first(s: Seq<char>)
    requires
        s.len() > 0,
        all_kept(s),
    ensures
        all_kept(s.drop_first()),
{
    assert forall|i: int| 0 <= i < s.drop_first().len() implies keeps_char(
        #[trigger] s.drop_first()[i],
    ) by {
        assert(s.drop_first()[i] == s[i + 1]);
    }
}

proof fn lemma_all_kept_drop_last(s: Seq<char>)
    requires
        s.len() > 0,
        all_kept(s),
    ensures
        all_kept(s.drop_last()),
{
    assert forall|i: int| 0 <= i < s.drop_last().len() implies keeps_char(
        #[trigger] s.drop_last()[i],
    ) by {
        assert(s.drop_last()[i] == s[i]);
    }
}

proof fn lemma_trim_ws_start_kept(s: Seq<char>)
    requires
        all_kept(s),
    ensures
        all_kept(trim_ws_start(s)),
    decreases s.len(),
{
    if s.len() > 0 && is_white_space(s[0]) {
        lemma_all_kept_drop_first(s);
        lemma_trim_ws_start_kept(s.drop_first());
    }
}

proof fn lemma_trim_ws_end_kept(s: Seq<char>)
    requires
        all_kept(s),
    ensures
        all_kept(trim_ws_end(s)),
    decreases s.len(),
{
    if s.len() > 0 && is_white_space(s.last()) {
        lemma_all_kept_drop_last(s);
        lemma_trim_ws_end_kept(s.drop_last());
    }
}

proof fn lemma_trim_char_start_kept(s: Seq<char>, c: char)
    requires
        all_kept(s),
    ensures
        all_kept(trim_char_start(s, c)),
    decreases s.len(),
{
    if s.len() > 0 && s[0] == c {
        lemma_all_kept_drop_first(s);
        lemma_trim_char_start_kept(s.drop_first(), c);
    }
}

proof fn lemma_trim_char_end_kept(s: Seq<char>, c: char)
    requires
        all_kept(s),
    ensures
        all_kept(trim_char_end(s, c)),
    decreases s.len(),
{
    if s.len() > 0 && s.last() == c {
        lemma_all_kept_drop_last(s);
        lemma_trim_char_end_kept(s.drop_last(), c);
    }
}

proof fn lemma_trim_edge_start_kept(s: Seq<char>)
    requires
        all_kept(s),
    ensures
        all_kept(trim_edge_start(s)),
    decreases s.len(),
{
    if s.len() > 0 && is_edge_trimmed(s[0]) {
        lemma_all_kept_drop_first(s);
        lemma_trim_edge_start_kept(s.drop_first());
    }
}

proof fn lemma_trim_edge_end_kept(s: Seq<char>)
    requires
        all_kept(s),
    ensures
        all_kept(trim_edge_end(s)),
    decreases s.len(),
{
    if s.len() > 0 && is_edge_trimmed(s.last()) {
        lemma_all_kept_drop_last(s);
        lemma_trim_edge_end_kept(s.drop_last());
    }
}

proof fn lemma_trim_edge_start_clean(s: Seq<char>)
    ensures
        trim_edge_start(s).len() > 0 ==> !is_edge_trimmed(trim_edge_start(s)[0]),
        trim_edge_end(trim_edge_start(s)).len() <= trim_edge_start(s).len(),
    decreases s.len(),
{
    if s.len() > 0 && is_edge_trimmed(s[0]) {
        lemma_trim_edge_start_clean(s.drop_first());
    }
    lemma_trim_edge_end_prefix(trim_edge_start(s));
}

/// Trimming the end keeps a prefix of the text.
proof fn lemma_trim_edge_end_prefix(s: Seq<char>)
    ensures
        trim_edge_end(s).len() <= s.len(),
        trim_edge_end(s) == s.subrange(0, trim_edge_end(s).len() as int),
        trim_edge_end(s).len() > 0 ==> !is_edge_trimmed(trim_edge_end(s).last()),
    decreases s.len(),
{
    if s.len() > 0 && is_edge_trimmed(s.last()) {
        lemma_trim_edge_end_prefix(s.drop_last());
        assert(s.drop_last().subrange(0, trim_edge_end(s).len() as int) =~= s.subrange(
            0,
            trim_edge_end(s).len() as int,
        ));
    } else {
        assert(s.subrange(0, s.len() as int) =~= s);
    }
}

/// A sanitised component other than `unknown` neither starts nor ends with
/// whitespace or a dot: it is never hidden and never blank at its ends.
pub proof fn lemma_sanitized_has_clean_ends(s: Seq<char>)
    ensures
        sanitized(s) == "unknown"@ || (!is_edge_trimmed(sanitized(s)[0]) && !is_edge_trimmed(
            sanitized(s).last(),
        )),
{
    let a = trim_edge_start(kept_chars(s));
    lemma_trim_edge_start_clean(kept_chars(s));
    lemma_trim_edge_end_prefix(a);
    let t = trim_edge_end(a);
    if t.len() > 0 {
        assert(t[0] == a[0]);
    }
}

/// One of the nine characters a path component may not hold: the
/// separators `/` and `\` and the reserved `: * ? " < > |`.
pub open spec fn is_reserved_in_names(c: char) -> bool {
    ||| c == '/'
    ||| c == '\\'
    ||| c == ':'
    ||| c == '*'
    ||| c == '?'
    ||| c == '"'
    ||| c == '<'
    ||| c == '>'
    ||| c == '|'
}

proof fn lemma_kept_chars_plain(s: Seq<char>)
    requires
        forall|i: int| 0 <= i < s.len() ==> !is_control(#[trigger] s[i]) && !is_reserved_in_names(s[i]),
    ensures
        kept_chars(s) == s,
    decreases s.len(),
{
    if s.len() > 0 {
        lemma_kept_chars_plain(s.drop_last());
        assert(s.drop_last().push(s.last()) =~= s);
    }
}

/// A component that holds no control character and none of the nine
/// reserved characters, and neither starts nor ends with whitespace or a
/// dot, comes back unchanged: every other character (`&`, `'`, `#`,
/// letters of any script, inner dots and spaces) is kept, in order.
pub proof fn law_sanitize_keeps_plain_names(s: Seq<char>)
    requires
        s.len() > 0,
        forall|i: int| 0 <= i < s.len() ==> !is_control(#[trigger] s[i]) && !is_reserved_in_names(s[i]),
        !is_white_space(s[0]) && s[0] != '.',
        !is_white_space(s.last()) && s.last() != '.',
    ensures
        sanitized(s) == s,
{
    lemma_kept_chars_plain(s);
    assert(trim_edge_start(s) == s);
    assert(trim_edge_end(s) == s);
}

/// A sanitised component never holds a control character or one of the
/// nine reserved characters.
pub proof fn law_sanitize_drops_reserved(s: Seq<char>)
    ensures
        forall|i: int|
            0 <= i < sanitized(s).len() ==> !is_control(#[trigger] sanitized(s)[i])
                && !is_reserved_in_names(sanitized(s)[i]),
{
    lemma_sanitized_is_safe(s);
    reveal_strlit("unknown");
}

/// A sanitised component is always safe to embed in a path.
pub proof fn lemma_sanitized_is_safe(s: Seq<char>)
    ensures
        is_safe_component(sanitized(s)),
{
    let k = kept_chars(s);
    lemma_kept_chars_all_kept(s);
    lemma_trim_edge_start_kept(k);
    lemma_trim_edge_end_kept(trim_edge_start(k));
    reveal_strlit("unknown");
    assert(all_kept("unknown"@));
}

/// Drops whitespace and dots from both ends until neither end has one.
fn trim_edges(v: &Vec<char>) -> (out: Vec<char>)
    ensures
        out@ == trim_edge_end(trim_edge_start(v@)),
{
    let n = v.len();
    let mut i: usize = 0;
    assert(v@.subrange(0, n as int) =~= v@);
    while i < n && (char_is_white_space(v[i]) || v[i] == '.')
        invariant
            i <= n,
            n == v@.len(),
            trim_edge_start(v@) == trim_edge_start(v@.subrange(i as int, n as int)),
        decreases n - i,
    {
        assert(v@.subrange(i as int, n as int).drop_first() =~= v@.subrange(i + 1, n as int));
        i = i + 1;
    }
    let ghost u = v@.subrange(i as int, n as int);
    assert(trim_edge_start(u) == u);
    let mut j: usize = n;
    assert(u.subrange(0, (j - i) as int) =~= u);
    while j > i && (char_is_white_space(v[j - 1]) || v[j - 1] == '.')
        invariant
            i <= j <= n,
            n == v@.len(),
            u == v@.subrange(i as int, n as int),
            trim_edge_end(u) == trim_edge_end(v@.subrange(i as int, j as int)),
        decreases j - i,
    {
        assert(v@.subrange(i as int, j as int).drop_last() =~= v@.subrange(i as int, j - 1));
        j = j - 1;
    }
    slice_chars(v, i, j)
}

/// Keeps every character that is neither a control character nor one of
/// `/ \ : * ? " < > |`.
fn filter_component(v: &Vec<char>) -> (out: Vec<char>)
    ensures
        out@ == kept_chars(v@),
{
    let mut out: Vec<char> = Vec::new();
    let n = v.len();
    for i in 0..n
        invariant
            n == v@.len(),
            out@ == kept_chars(v@.take(i as int)),
    {
        let c = v[i];
        assert(v@.take(i + 1).drop_last() == v@.take(i as int));
        let forbidden = c == '/' || c == '\\' || c == ':' || c == '*' || c == '?' || c == '"' || c
            == '<' || c == '>' || c == '|';
        if !char_is_control(c) && !forbidden {
            out.push(c);
        }
    }
    assert(v@.take(n as int) == v@);
    out
}

fn sanitize_chars(component: &Vec<char>) -> (out: Vec<char>)
    ensures
        out@ == sanitized(component@),
        is_safe_component(out@),
{
    proof {
        lemma_sanitized_is_safe(component@);
    }
    let kept = filter_component(component);
    let t = trim_edges(&kept);
    let dots = chars_of("..");
    proof {
        reveal_strlit("..");
    }
    assert(dots@ == seq!['.', '.']);
    if t.len() == 0 || chars_eq(&t, &dots) {
        chars_of("unknown")
    } else {
        t
    }
}

/// Make a single path component safe to embed. Strips path separators,
/// reserved characters and control chars, and trims whitespace/dots so we
/// don't end up with hidden, empty or `..` components.
pub fn sanitize(component: &str) -> (out: String)
    ensures
        out@ == sanitized(component@),
        is_safe_component(out@),
        out@ == "unknown"@ || (!is_edge_trimmed(out@[0]) && !is_edge_trimmed(out@.last())),
{
    proof {
        lemma_sanitized_has_clean_ends(component@);
    }
    let v = chars_of(component);
    let s = sanitize_chars(&v);
    string_from_chars(&s)
}

// ---------------------------------------------------------------------------
// Path components (Unix rules of `std::path::Path`)
// ---------------------------------------------------------------------------

/// Index of the last `c` in `s`, or -1.
pub open spec fn last_index_of(s: Seq<char>, c: char) -> int
    decreases s.len(),
{
    if s.len() == 0 {
        -1
    } else if s.last() == c {
        s.len() - 1
    } else {
        last_index_of(s.drop_last(), c)
    }
}

/// Index of the first `c` in `s`, or `s.len()`.
pub open spec fn first_index_of(s: Seq<char>, c: char) -> int
    decreases s.len(),
{
    if s.len() == 0 {
        0
    } else if s[0] == c {
        0
    } else {
        1 + first_index_of(s.drop_first(), c)
    }
}

/// Drops trailing separators and trailing `.` components, which do not
/// count as a file name (`a/b/` and `a/b/.` both name `b`). Paths follow
/// the Unix rules: `/` is the only separator (a Windows `Path` also splits
/// at `\`, which these functions keep inside a component).
pub open spec fn strip_tail(s: Seq<char>) -> Seq<char>
    decreases s.len(),
{
    if s.len() > 0 && s.last() == '/' {
        strip_tail(s.drop_last())
    } else if s.len() >= 2 && s.last() == '.' && s[s.len() - 2] == '/' {
        strip_tail(s.drop_last())
    } else {
        s
    }
}

/// `Path::file_name`: the final component, unless that is `.`, `..` or
/// there is none.
pub open spec fn file_name_of(s: Seq<char>) -> Option<Seq<char>> {
    let t = strip_tail(s);
    let name = t.subrange(last_index_of(t, '/') + 1, t.len() as int);
    if name.len() == 0 || name == seq!['.'] || name == seq!['.', '.'] {
        None
    } else {
        Some(name)
    }
}

/// `Path::extension` of a file name: what follows the last `.`, unless
/// there is no dot or the only dot starts the name.
pub open spec fn name_extension(name: Seq<char>) -> Option<Seq<char>> {
    let k = last_index_of(name, '.');
    if k <= 0 {
        None
    } else {
        Some(name.subrange(k + 1, name.len() as int))
    }
}

/// `Path::file_stem` of a file name.
pub open spec fn name_stem(name: Seq<char>) -> Seq<char> {
    let k = last_index_of(name, '.');
    if k <= 0 {
        name
    } else {
        name.subrange(0, k)
    }
}

/// `Path::new(s).extension()`.
pub open spec fn path_extension(s: Seq<char>) -> Option<Seq<char>> {
    match file_name_of(s) {
        Some(name) => name_extension(name),
        None => None,
    }
}

/// `PathBuf::join` for a relative or absolute component.
pub open spec fn path_join(base: Seq<char>, comp: Seq<char>) -> Seq<char> {
    if comp.len() > 0 && comp[0] == '/' {
        comp
    } else if base.len() == 0 || base.last() == '/' {
        base + comp
    } else {
        base + seq!['/'] + comp
    }
}

pub fn last_index_of_exec(v: &Vec<char>, c: char) -> (r: Option<usize>)
    ensures
        match r {
            None => last_index_of(v@, c) == -1,
            Some(k) => last_index_of(v@, c) == k && k < v@.len(),
        },
{
    let mut k = v.len();
    assert(v@.take(k as int) == v@);
    while k > 0 && v[k - 1] != c
        invariant
            k <= v@.len(),
            last_index_of(v@, c) == last_index_of(v@.take(k as int), c),
        decreases k,
    {
        assert(v@.take(k as int).drop_last() == v@.take(k - 1));
        k = k - 1;
    }
    if k == 0 {
        None
    } else {
        Some(k - 1)
    }
}

pub fn first_index_of_exec(v: &Vec<char>, c: char) -> (r: usize)
    ensures
        r == first_index_of(v@, c),
        r <= v@.len(),
{
    let mut k: usize = 0;
    assert(v@.skip(0) == v@);
    while k < v.len() && v[k] != c
        invariant
            k <= v@.len(),
            first_index_of(v@, c) == k + first_index_of(v@.skip(k as int), c),
        decreases v.len() - k,
    {
        assert(v@.skip(k as int).drop_first() == v@.skip(k + 1));
        k = k + 1;
    }
    proof {
        lemma_first_index_bound(v@.skip(k as int), c);
    }
    k
}

proof fn lemma_first_index_bound(s: Seq<char>, c: char)
    ensures
        0 <= first_index_of(s, c) <= s.len(),
        s.len() > 0 && s[0] == c ==> first_index_of(s, c) == 0,
    decreases s.len(),
{
    if s.len() > 0 && s[0] != c {
        lemma_first_index_bound(s.drop_first(), c);
    }
}

fn strip_tail_len(v: &Vec<char>) -> (k: usize)
    ensures
        k <= v@.len(),
        strip_tail(v@) == v@.take(k as int),
{
    let mut k = v.len();
    assert(v@.take(k as int) == v@);
    loop
        invariant
            k <= v@.len(),
            strip_tail(v@) == strip_tail(v@.take(k as int)),
        decreases k,
    {
        if k > 0 && v[k - 1] == '/' {
            assert(v@.take(k as int).drop_last() == v@.take(k - 1));
            k = k - 1;
        } else if k >= 2 && v[k - 1] == '.' && v[k - 2] == '/' {
            assert(v@.take(k as int).drop_last() == v@.take(k - 1));
            k = k - 1;
        } else {
            return k;
        }
    }
}

/// `Path::new(p).file_name()`.
pub fn file_name_exec(v: &Vec<char>) -> (r: Option<Vec<char>>)
    ensures
        match r {
            None => file_name_of(v@) is None,
            Some(n) => file_name_of(v@) == Some(n@),
        },
{
    let k = strip_tail_len(v);
    let t = slice_chars(v, 0, k);
    assert(t@ == strip_tail(v@));
    let start = match last_index_of_exec(&t, '/') {
        None => 0,
        Some(j) => j + 1,
    };
    let name = slice_chars(&t, start, t.len());
    let is_dot = name.len() == 1 && name[0] == '.';
    let is_dotdot = name.len() == 2 && name[0] == '.' && name[1] == '.';
    if name.len() == 0 || is_dot || is_dotdot {
        proof {
            if is_dot {
                assert(name@ =~= seq!['.']);
            }
            if is_dotdot {
                assert(name@ =~= seq!['.', '.']);
            }
        }
        None
    } else {
        proof {
            if name@ == seq!['.'] {
                assert(name@[0] == '.');
            }
            if name@ == seq!['.', '.'] {
                assert(name@[0] == '.' && name@[1] == '.');
            }
        }
        Some(name)
    }
}

/// `Path::extension` of a file name.
pub fn name_extension_exec(name: &Vec<char>) -> (r: Option<Vec<char>>)
    ensures
        match r {
            None => name_extension(name@) is None,
            Some(e) => name_extension(name@) == Some(e@),
        },
{
    match last_index_of_exec(name, '.') {
        None => None,
        Some(k) => {
            if k == 0 {
                None
            } else {
                assert(k < name.len());
                Some(slice_chars(name, k + 1, name.len()))
            }
        },
    }
}

/// `Path::file_stem` of a file name.
pub fn name_stem_exec(name: &Vec<char>) -> (r: Vec<char>)
    ensures
        r@ == name_stem(name@),
{
    match last_index_of_exec(name, '.') {
        None => slice_chars(name, 0, name.len()),
        Some(k) => {
            if k == 0 {
                slice_chars(name, 0, name.len())
            } else {
                slice_chars(name, 0, k)
            }
        },
    }
}

/// `Path::new(p).extension()`.
pub fn path_extension_exec(v: &Vec<char>) -> (r: Option<Vec<char>>)
    ensures
        match r {
            None => path_extension(v@) is None,
            Some(e) => path_extension(v@) == Some(e@),
        },
{
    match file_name_exec(v) {
        None => None,
        Some(name) => name_extension_exec(&name),
    }
}

/// `PathBuf::join`.
pub fn path_join_exec(base: &Vec<char>, comp: &Vec<char>) -> (r: Vec<char>)
    ensures
        r@ == path_join(base@, comp@),
{
    if comp.len() > 0 && comp[0] == '/' {
        slice_chars(comp, 0, comp.len())
    } else {
        let mut out = slice_chars(base, 0, base.len());
        if !(base.len() == 0 || base[base.len() - 1] == '/') {
            out.push('/');
        }
        push_all(&mut out, comp);
        out
    }
}

// ---------------------------------------------------------------------------
// Download layout
// ---------------------------------------------------------------------------

/// `<name>.<ext>` with both parts sanitised.
pub open spec fn dotted_file(file_name: Seq<char>, ext: Seq<char>) -> Seq<char> {
    sanitized(file_name) + seq!['.'] + sanitized(ext)
}

fn dotted_file_exec(file_name: &str, ext: &str) -> (r: Vec<char>)
    ensures
        r@ == dotted_file(file_name@, ext@),
{
    let f = sanitize_chars(&chars_of(file_name));
    let e = sanitize_chars(&chars_of(ext));
    let mut out = f;
    out.push('.');
    push_all(&mut out, &e);
    out
}

/// `<root>/<artist>/<album>/<name>.<ext>`.
pub open spec fn track_path_spec(
    root: Seq<char>,
    artist: Seq<char>,
    album: Seq<char>,
    file_name: Seq<char>,
    ext: Seq<char>,
) -> Seq<char> {
    path_join(
        path_join(path_join(root, sanitized(artist)), sanitized(album)),
        dotted_file(file_name, ext),
    )
}

/// `<root>/<artist>/<album>/<name>.<ext>` — the canonical download path
/// for one media file or cover.
pub fn track_path(root: &str, artist: &str, album: &str, file_name: &str, ext: &str) -> (out:
    String)
    ensures
        out@ == track_path_spec(root@, artist@, album@, file_name@, ext@),
{
    let r = chars_of(root);
    let a = sanitize_chars(&chars_of(artist));
    let b = sanitize_chars(&chars_of(album));
    let f = dotted_file_exec(file_name, ext);
    let p1 = path_join_exec(&r, &a);
    let p2 = path_join_exec(&p1, &b);
    let p3 = path_join_exec(&p2, &f);
    string_from_chars(&p3)
}

/// `<root>/Podcasts/<show>/<name>.<ext>`.
pub open spec fn episode_path_spec(
    root: Seq<char>,
    show: Seq<char>,
    file_name: Seq<char>,
    ext: Seq<char>,
) -> Seq<char> {
    path_join(path_join(path_join(root, PODCASTS_DIR@), sanitized(show)), dotted_file(file_name, ext))
}

/// `<root>/Podcasts/<show>/<name>.<ext>` — the download path for one episode.
pub fn episode_path(root: &str, show: &str, file_name: &str, ext: &str) -> (out: String)
    ensures
        out@ == episode_path_spec(root@, show@, file_name@, ext@),
{
    let r = chars_of(root);
    let p = chars_of(PODCASTS_DIR);
    let s = sanitize_chars(&chars_of(show));
    let f = dotted_file_exec(file_name, ext);
    let p1 = path_join_exec(&r, &p);
    let p2 = path_join_exec(&p1, &s);
    let p3 = path_join_exec(&p2, &f);
    string_from_chars(&p3)
}

/// Extension for a codec name that is already lower case, or `bin`.
pub open spec fn codec_track_extension(lc: Seq<char>) -> Seq<char> {
    if lc == "mp3"@ {
        "mp3"@
    } else if lc == "flac"@ {
        "flac"@
    } else if lc == "wav"@ {
        "wav"@
    } else if lc == "ogg"@ || lc == "vorbis"@ {
        "ogg"@
    } else if lc == "opus"@ {
        "opus"@
    } else if lc == "aac"@ || lc == "mp4"@ || lc == "m4a"@ {
        "m4a"@
    } else {
        "bin"@
    }
}

/// `track_extension`: the trimmed, lower-cased extension of the server's file
/// path when it has a non-empty one, else the codec's extension.
pub open spec fn track_extension_spec(server_file_path: Seq<char>, codec: Seq<char>) -> Seq<char> {
    match path_extension(server_file_path) {
        Some(ext) if trim_ws(ext).len() > 0 => ascii_lower_seq(trim_ws(ext)),
        _ => codec_track_extension(ascii_lower_seq(codec)),
    }
}

fn eq_lit(v: &Vec<char>, lit: &str) -> (r: bool)
    ensures
        r == (v@ == lit@),
{
    let l = chars_of(lit);
    chars_eq(v, &l)
}

/// Derive a sensible file extension for a track from the server's
/// `file_path` / `codec`. Falls back to `bin` when we can't tell.
pub fn track_extension(server_file_path: &str, codec: &str) -> (out: String)
    ensures
        out@ == track_extension_spec(server_file_path@, codec@),
{
    let p = chars_of(server_file_path);
    if let Some(ext) = path_extension_exec(&p) {
        let t = trim(&ext);
        if t.len() > 0 {
            let l = to_ascii_lower(&t);
            return string_from_chars(&l);
        }
    }
    let lc = to_ascii_lower(&chars_of(codec));
    let r = if eq_lit(&lc, "mp3") {
        "mp3"
    } else if eq_lit(&lc, "flac") {
        "flac"
    } else if eq_lit(&lc, "wav") {
        "wav"
    } else if eq_lit(&lc, "ogg") || eq_lit(&lc, "vorbis") {
        "ogg"
    } else if eq_lit(&lc, "opus") {
        "opus"
    } else if eq_lit(&lc, "aac") || eq_lit(&lc, "mp4") || eq_lit(&lc, "m4a") {
        "m4a"
    } else {
        "bin"
    };
    string_from_chars(&chars_of(r))
}

/// `NN - Title` style names: zero-padded number, or the sanitised title, or
/// the sanitised id when the title is blank.
pub open spec fn numbered_name(number: Option<i64>, width: nat, title: Seq<char>, id: Seq<char>) -> Seq<
    char,
> {
    let raw = trim_ws(title);
    match number {
        Some(n) if n > 0 => zero_pad(decimal_digits(n as nat), width) + " - "@ + sanitized(raw),
        _ => if raw.len() == 0 {
            sanitized(id)
        } else {
            sanitized(raw)
        },
    }
}

fn numbered_name_exec(number: Option<i64>, width: usize, title: &str, id: &str) -> (out: String)
    ensures
        out@ == numbered_name(number, width as nat, title@, id@),
{
    let raw = trim(&chars_of(title));
    let t = sanitize_chars(&raw);
    match number {
        Some(n) if n > 0 => {
            let digits = decimal_string(n as u64);
            let mut out = zero_pad_exec(&digits, width);
            push_str(&mut out, " - ");
            push_all(&mut out, &t);
            string_from_chars(&out)
        },
        _ => {
            if raw.len() == 0 {
                let s = sanitize_chars(&chars_of(id));
                string_from_chars(&s)
            } else {
                string_from_chars(&t)
            }
        },
    }
}

/// Resolve a track's display name: prefer `NN - Title` (zero-padded track
/// number), falling back to just the title, then the id.
pub fn track_file_name(track_no: Option<i64>, title: &str, id: &str) -> (out: String)
    ensures
        out@ == numbered_name(track_no, 2, title@, id@),
{
    numbered_name_exec(track_no, 2, title, id)
}

/// Episode display name: `NNN - Title` (zero-padded episode number) or the
/// title, falling back to the id when the title is empty.
pub fn episode_file_name(episode_no: Option<i64>, title: &str, id: &str) -> (out: String)
    ensures
        out@ == numbered_name(episode_no, 3, title@, id@),
{
    numbered_name_exec(episode_no, 3, title, id)
}

/// The part of a URL before the first `?` or `#`.
pub open spec fn url_path_part(url: Seq<char>) -> Seq<char> {
    url.take(first_index_of(url, '?')).take(first_index_of(url.take(first_index_of(url, '?')), '#'))
}

pub open spec fn is_podcast_extension(e: Seq<char>) -> bool {
    e == "mp3"@ || e == "m4a"@ || e == "aac"@ || e == "ogg"@ || e == "opus"@ || e == "flac"@ || e
        == "wav"@ || e == "mp4"@
}

/// Extension for an optional codec name that is already lower case, or `mp3`.
pub open spec fn codec_episode_extension(lc: Option<Seq<char>>) -> Seq<char> {
    match lc {
        Some(c) => if c == "mp3"@ || c == "mpeg"@ {
            "mp3"@
        } else if c == "aac"@ || c == "mp4"@ || c == "m4a"@ {
            "m4a"@
        } else if c == "flac"@ {
            "flac"@
        } else if c == "ogg"@ || c == "vorbis"@ {
            "ogg"@
        } else if c == "opus"@ {
            "opus"@
        } else if c == "wav"@ {
            "wav"@
        } else {
            "mp3"@
        },
        None => "mp3"@,
    }
}

pub open spec fn episode_extension_spec(url: Seq<char>, codec: Option<Seq<char>>) -> Seq<char> {
    match path_extension(url_path_part(url)) {
        Some(ext) if is_podcast_extension(ascii_lower_seq(trim_ws(ext))) => ascii_lower_seq(
            trim_ws(ext),
        ),
        _ => codec_episode_extension(
            match codec {
                Some(c) => Some(ascii_lower_seq(c)),
                None => None,
            },
        ),
    }
}

/// Episode extension from the enclosure URL path (ignoring the query string
/// and fragment), falling back to the codec, then `mp3`.
pub fn episode_extension(enclosure_url: &str, codec: Option<&str>) -> (out: String)
    ensures
        out@ == episode_extension_spec(
            enclosure_url@,
            match codec {
                Some(c) => Some(c@),
                None => None,
            },
        ),
{
    let url = chars_of(enclosure_url);
    let q = first_index_of_exec(&url, '?');
    let before_q = slice_chars(&url, 0, q);
    let h = first_index_of_exec(&before_q, '#');
    let path = slice_chars(&before_q, 0, h);
    if let Some(ext) = path_extension_exec(&path) {
        let e = to_ascii_lower(&trim(&ext));
        if eq_lit(&e, "mp3") || eq_lit(&e, "m4a") || eq_lit(&e, "aac") || eq_lit(&e, "ogg")
            || eq_lit(&e, "opus") || eq_lit(&e, "flac") || eq_lit(&e, "wav") || eq_lit(&e, "mp4") {
            return string_from_chars(&e);
        }
    }
    let r = match codec {
        Some(c) => {
            let lc = to_ascii_lower(&chars_of(c));
            if eq_lit(&lc, "mp3") || eq_lit(&lc, "mpeg") {
                "mp3"
            } else if eq_lit(&lc, "aac") || eq_lit(&lc, "mp4") || eq_lit(&lc, "m4a") {
                "m4a"
            } else if eq_lit(&lc, "flac") {
                "flac"
            } else if eq_lit(&lc, "ogg") || eq_lit(&lc, "vorbis") {
                "ogg"
            } else if eq_lit(&lc, "opus") {
                "opus"
            } else if eq_lit(&lc, "wav") {
                "wav"
            } else {
                "mp3"
            }
        },
        None => "mp3",
    };
    string_from_chars(&chars_of(r))
}

} // verus!
