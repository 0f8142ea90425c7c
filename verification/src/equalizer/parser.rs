//! The ParametricEQ / Equalizer APO text subset accepted by profile import.
//!
//! A profile text is a list of lines: blank lines and `#`/`;` comments are
//! skipped, one optional `Preamp: <number> dB` line, and `Filter N: ON|OFF
//! PK Fc <Hz> Hz Gain <dB> dB Q <value>` lines with positive, unique filter
//! numbers. This module reads the text's structure and hands out the
//! numeric fields as text; turning them into numbers (and checking that
//! they are finite) is done by the caller, line by line, between `step` and
//! `accept_band`, so errors come in line order.
use vstd::prelude::*;
use vstd::string::StringSliceAdditionalSpecFns;

use crate::equalizer::model::{validate_name, name_error, EqualizerValidationError, MAX_BANDS};
use crate::text::{
    ascii_lower, ascii_lower_seq, chars_of, char_to_ascii_lower, decimal_digits, decimal_string,
    is_white_space, char_is_white_space, parse_u64, parse_u64_exec, push_all, push_str,
    slice_chars, string_from_chars, trim, trim_char_end, trim_char_start, trim_end_matches,
    trim_start_matches, trim_ws,
};

verus! {

/// Largest accepted profile text, in bytes.
pub const MAX_IMPORT_BYTES: usize = 65536;

/// Most lines a profile text may have.
pub const MAX_IMPORT_LINES: usize = 512;

/// Name of an imported profile when none is proposed.
pub const DEFAULT_IMPORT_NAME: &'static str = "Imported equalizer";

/// The name an imported file's profile gets: the proposed name trimmed, or
/// the default when none is proposed or it is blank.
pub open spec fn import_name_spec(proposed: Option<Seq<char>>) -> Seq<char> {
    match proposed {
        Some(p) => if trim_ws(p).len() > 0 {
            trim_ws(p)
        } else {
            DEFAULT_IMPORT_NAME@
        },
        None => DEFAULT_IMPORT_NAME@,
    }
}

pub fn import_profile_name(proposed: Option<&str>) -> (out: String)
    ensures
        out@ == import_name_spec(match proposed {
            Some(p) => Some(p@),
            None => None::<Seq<char>>,
        }),
{
    if let Some(p) = proposed {
        let t = trim(&chars_of(p));
        if t.len() > 0 {
            return string_from_chars(&t);
        }
    }
    string_from_chars(&chars_of(DEFAULT_IMPORT_NAME))
}

/// A non-fatal remark about an imported profile.
#[derive(Debug, Clone, PartialEq, Eq)]
pub struct ParseWarning {
    pub line: Option<usize>,
    pub message: String,
}

/// Why a profile text was rejected, with the line (1-based) when one is to
/// blame.
#[derive(Debug, Clone, PartialEq, Eq)]
pub struct EqualizerParseError {
    pub line: Option<usize>,
    pub message: String,
}

impl EqualizerParseError {
    /// An error about the text as a whole.
    pub fn global(message: String) -> (r: Self)
        ensures
            r.line is None,
            r.message == message,
    {
        EqualizerParseError { line: None, message }
    }

    /// An error about one line.
    pub fn line(line: usize, message: String) -> (r: Self)
        ensures
            r.line == Some(line),
            r.message == message,
    {
        EqualizerParseError { line: Some(line), message }
    }

    /// The error's text (what its `Display` shows).
    pub fn to_string(&self) -> (r: String)
        ensures
            r@ == self.message@,
    {
        self.message.clone()
    }
}

/// A validation failure as a whole-text parse error.
pub fn validation_error(error: EqualizerValidationError) -> (r: EqualizerParseError)
    ensures
        r.line is None,
        r.message == error.message,
{
    EqualizerParseError::global(error.message)
}

// ---------------------------------------------------------------------------
// Lines and words
// ---------------------------------------------------------------------------

/// Index of the first `c` in `s`, or `s.len()`.
pub open spec fn index_of(s: Seq<char>, c: char) -> int
    decreases s.len(),
{
    if s.len() == 0 {
        0
    } else if s[0] == c {
        0
    } else {
        1 + index_of(s.drop_first(), c)
    }
}

/// `str::lines`: split after each `\n`, dropping the `\n` and a `\r` just
/// before it; no empty line after a final `\n`.
pub open spec fn lines_of(s: Seq<char>) -> Seq<Seq<char>>
    decreases s.len(),
{
    if s.len() == 0 {
        Seq::empty()
    } else {
        let k = index_of(s, '\n');
        if k >= s.len() {
            seq![s]
        } else {
            proof {
                lemma_index_of(s, '\n');
            }
            let piece = s.take(k);
            let line = if piece.len() > 0 && piece.last() == '\r' {
                piece.drop_last()
            } else {
                piece
            };
            seq![line] + lines_of(s.skip(k + 1))
        }
    }
}

pub proof fn lemma_index_of(s: Seq<char>, c: char)
    ensures
        0 <= index_of(s, c) <= s.len(),
        index_of(s, c) < s.len() ==> s[index_of(s, c)] == c,
        forall|i: int| 0 <= i < index_of(s, c) ==> s[i] != c,
    decreases s.len(),
{
    if s.len() > 0 && s[0] != c {
        lemma_index_of(s.drop_first(), c);
        assert forall|i: int| 0 <= i < index_of(s, c) implies s[i] != c by {
            if i > 0 {
                assert(s[i] == s.drop_first()[i - 1]);
            }
        }
    }
}

fn index_of_exec(v: &Vec<char>, from: usize, c: char) -> (k: usize)
    requires
        from <= v@.len(),
    ensures
        k - from == index_of(v@.skip(from as int), c),
        from <= k <= v@.len(),
{
    let mut k = from;
    assert(v@.skip(from as int) =~= v@.skip(k as int));
    while k < v.len() && v[k] != c
        invariant
            from <= k <= v@.len(),
            index_of(v@.skip(from as int), c) == (k - from) + index_of(v@.skip(k as int), c),
        decreases v@.len() - k,
    {
        assert(v@.skip(k as int).drop_first() =~= v@.skip(k + 1));
        k = k + 1;
    }
    k
}

/// The lines of a text.
pub fn text_lines(input: &str) -> (r: Vec<String>)
    ensures
        r@.map_values(|s: String| s@) == lines_of(input@),
{
    let v = chars_of(input);
    let mut out: Vec<String> = Vec::new();
    let mut start: usize = 0;
    assert(v@.skip(0) =~= v@);
    while start < v.len()
        invariant
            start <= v@.len(),
            lines_of(v@) == out@.map_values(|s: String| s@) + lines_of(v@.skip(start as int)),
        decreases v@.len() - start,
    {
        let ghost rest = v@.skip(start as int);
        let k = index_of_exec(&v, start, '\n');
        proof {
            lemma_index_of(rest, '\n');
        }
        let ghost prev = out@;
        if k == v.len() {
            let line = slice_chars(&v, start, v.len());
            assert(line@ =~= rest);
            out.push(string_from_chars(&line));
            assert(out@.map_values(|s: String| s@) =~= prev.map_values(|s: String| s@).push(
                rest,
            ));
            assert(v@.skip(v@.len() as int) =~= Seq::<char>::empty());
            start = v.len();
        } else {
            let end = if k > start && v[k - 1] == '\r' {
                k - 1
            } else {
                k
            };
            let line = slice_chars(&v, start, end);
            let ghost piece = rest.take(k - start);
            assert(line@ =~= (if piece.len() > 0 && piece.last() == '\r' {
                piece.drop_last()
            } else {
                piece
            }));
            out.push(string_from_chars(&line));
            assert(rest.skip(k - start + 1) =~= v@.skip(k + 1));
            assert(out@.map_values(|s: String| s@) =~= prev.map_values(|s: String| s@).push(
                line@,
            ));
            assert(lines_of(rest) == seq![line@] + lines_of(v@.skip(k + 1)));
            start = k + 1;
        }
    }
    assert(v@.skip(start as int) =~= Seq::<char>::empty());
    assert(out@.map_values(|s: String| s@) + Seq::<Seq<char>>::empty() =~= out@.map_values(
        |s: String| s@,
    ));
    out
}

/// Length of the leading run of characters that are (or are not)
/// whitespace.
pub open spec fn run_len(s: Seq<char>, ws: bool) -> int
    decreases s.len(),
{
    if s.len() == 0 || is_white_space(s[0]) != ws {
        0
    } else {
        1 + run_len(s.drop_first(), ws)
    }
}

/// `str::split_whitespace`: the maximal runs of non-whitespace characters.
pub open spec fn words_of(s: Seq<char>) -> Seq<Seq<char>>
    decreases s.len(),
{
    if s.len() == 0 {
        Seq::empty()
    } else if is_white_space(s[0]) {
        words_of(s.drop_first())
    } else {
        let n = run_len(s, false);
        if 0 < n <= s.len() {
            seq![s.take(n)] + words_of(s.skip(n))
        } else {
            Seq::empty()
        }
    }
}

pub proof fn lemma_run_len(s: Seq<char>, ws: bool)
    ensures
        0 <= run_len(s, ws) <= s.len(),
        s.len() > 0 && is_white_space(s[0]) == ws ==> run_len(s, ws) >= 1,
    decreases s.len(),
{
    if s.len() > 0 && is_white_space(s[0]) == ws {
        lemma_run_len(s.drop_first(), ws);
    }
}

fn run_end(v: &Vec<char>, from: usize, ws: bool) -> (k: usize)
    requires
        from <= v@.len(),
    ensures
        k - from == run_len(v@.skip(from as int), ws),
        from <= k <= v@.len(),
{
    let mut k = from;
    while k < v.len() && char_is_white_space(v[k]) == ws
        invariant
            from <= k <= v@.len(),
            run_len(v@.skip(from as int), ws) == (k - from) + run_len(v@.skip(k as int), ws),
        decreases v@.len() - k,
    {
        assert(v@.skip(k as int).drop_first() =~= v@.skip(k + 1));
        k = k + 1;
    }
    k
}

/// The words of a line.
pub fn split_words(v: &Vec<char>) -> (r: Vec<Vec<char>>)
    ensures
        r@.map_values(|w: Vec<char>| w@) == words_of(v@),
{
    let mut out: Vec<Vec<char>> = Vec::new();
    let mut i: usize = 0;
    assert(v@.skip(0) =~= v@);
    while i < v.len()
        invariant
            i <= v@.len(),
            words_of(v@) == out@.map_values(|w: Vec<char>| w@) + words_of(v@.skip(i as int)),
        decreases v@.len() - i,
    {
        let ghost rest = v@.skip(i as int);
        if char_is_white_space(v[i]) {
            assert(rest.drop_first() =~= v@.skip(i + 1));
            i = i + 1;
        } else {
            let k = run_end(v, i, false);
            proof {
                lemma_run_len(rest, false);
            }
            let w = slice_chars(v, i, k);
            assert(w@ =~= rest.take(k - i));
            assert(rest.skip(k - i) =~= v@.skip(k as int));
            let ghost prev = out@;
            out.push(w);
            assert(out@.map_values(|w: Vec<char>| w@) =~= prev.map_values(|w: Vec<char>| w@).push(
                rest.take(k - i),
            ));
            i = k;
        }
    }
    assert(v@.skip(i as int) =~= Seq::<char>::empty());
    assert(out@.map_values(|w: Vec<char>| w@) + Seq::<Seq<char>>::empty() =~= out@.map_values(
        |w: Vec<char>| w@,
    ));
    out
}

/// `str::eq_ignore_ascii_case`.
pub open spec fn eq_ic(a: Seq<char>, b: Seq<char>) -> bool {
    ascii_lower_seq(a) == ascii_lower_seq(b)
}

pub fn eq_ic_exec(a: &Vec<char>, b: &str) -> (r: bool)
    ensures
        r == eq_ic(a@, b@),
{
    let bv = chars_of(b);
    if a.len() != bv.len() {
        assert(ascii_lower_seq(a@).len() != ascii_lower_seq(bv@).len());
        return false;
    }
    let n = a.len();
    for i in 0..n
        invariant
            n == a@.len(),
            n == bv@.len(),
            bv@ == b@,
            forall|j: int| 0 <= j < i ==> ascii_lower(a@[j]) == ascii_lower(bv@[j]),
    {
        if char_to_ascii_lower(a[i]) != char_to_ascii_lower(bv[i]) {
            assert(ascii_lower_seq(a@)[i as int] != ascii_lower_seq(bv@)[i as int]);
            return false;
        }
    }
    assert(ascii_lower_seq(a@) =~= ascii_lower_seq(bv@));
    true
}

// ---------------------------------------------------------------------------
// Whole-text checks
// ---------------------------------------------------------------------------

/// Size, line count and name checks, in that order; the lines when all
/// pass.
pub open spec fn begin_error(input: Seq<char>, byte_len: nat, proposed_name: Seq<char>) -> Option<
    Seq<char>,
> {
    if byte_len > MAX_IMPORT_BYTES {
        Some("profile exceeds "@ + decimal_digits(MAX_IMPORT_BYTES as nat) + " bytes"@)
    } else if lines_of(input).len() > MAX_IMPORT_LINES {
        Some("profile exceeds "@ + decimal_digits(MAX_IMPORT_LINES as nat) + " lines"@)
    } else {
        name_error(proposed_name, "profile name"@)
    }
}

pub fn begin_import(input: &str, proposed_name: &str) -> (r: Result<Vec<String>, EqualizerParseError>)
    ensures
        match begin_error(input@, input.spec_bytes().len(), proposed_name@) {
            Some(m) => r matches Err(e) && e.line is None && e.message@ == m,
            None => r matches Ok(lines) && lines@.map_values(|s: String| s@) == lines_of(input@),
        },
{
    let byte_len = input.as_bytes().len();
    if byte_len > MAX_IMPORT_BYTES {
        let mut m = chars_of("profile exceeds ");
        let d = decimal_string(MAX_IMPORT_BYTES as u64);
        push_all(&mut m, &d);
        push_str(&mut m, " bytes");
        return Err(EqualizerParseError::global(string_from_chars(&m)));
    }
    let lines = text_lines(input);
    assert(lines@.len() == lines@.map_values(|s: String| s@).len());
    if lines.len() > MAX_IMPORT_LINES {
        let mut m = chars_of("profile exceeds ");
        let d = decimal_string(MAX_IMPORT_LINES as u64);
        push_all(&mut m, &d);
        push_str(&mut m, " lines");
        return Err(EqualizerParseError::global(string_from_chars(&m)));
    }
    assert(input.spec_bytes().len() <= MAX_IMPORT_BYTES);
    assert(lines_of(input@).len() <= MAX_IMPORT_LINES);
    match validate_name(proposed_name, "profile name") {
        Ok(()) => Ok(lines),
        Err(e) => Err(validation_error(e)),
    }
}

// ---------------------------------------------------------------------------
// Lines
// ---------------------------------------------------------------------------

/// What one line holds, as plain values.
pub enum LineSpec {
    Skip,
    Preamp(Seq<char>),
    Band(u32, bool, Seq<char>, Seq<char>, Seq<char>),
    Fail(Seq<char>),
}

/// What one line holds, handed to the caller.
#[derive(Debug, Clone, PartialEq, Eq)]
pub enum LineItem {
    /// Blank or comment.
    Skip,
    /// The preamp's numeric text.
    Preamp { value: String },
    /// A filter: its number, whether it is on, and the numeric texts of its
    /// frequency, gain and Q.
    Band { number: u32, enabled: bool, frequency: String, gain: String, q: String },
}

/// The line's text: trimmed, and on the first line a byte-order mark
/// dropped first.
pub open spec fn line_text(first: bool, raw: Seq<char>) -> Seq<char> {
    if first {
        trim_ws(trim_char_start(raw, '\u{feff}'))
    } else {
        trim_ws(raw)
    }
}

pub open spec fn expected_message(expected: Seq<char>, found: Seq<char>) -> Seq<char> {
    "expected '"@ + expected + "', found '"@ + found + "'"@
}

pub open spec fn unsupported_directive_text() -> Seq<char> {
    "unsupported directive; version 1 accepts only Preamp and PK Filter lines"@
}

pub open spec fn filter_shape_text() -> Seq<char> {
    "expected `Filter N: ON|OFF PK Fc <Hz> Hz Gain <dB> dB Q <value>`"@
}

/// `<u32 as FromStr>::from_str`.
pub open spec fn parse_u32(s: Seq<char>) -> Option<u32> {
    match parse_u64(s) {
        Some(n) => if n <= u32::MAX {
            Some(n as u32)
        } else {
            None
        },
        None => None,
    }
}

/// The filter-line checks after the filter number: the on/off switch, the
/// kind, and the fixed words.
pub open spec fn filter_rest(n: u32, t: Seq<Seq<char>>) -> LineSpec {
    if !(eq_ic(t[2], "on"@) || eq_ic(t[2], "off"@)) {
        LineSpec::Fail("filter must be ON or OFF"@)
    } else if !eq_ic(t[3], "pk"@) {
        LineSpec::Fail("unsupported filter kind '"@ + t[3] + "'"@)
    } else if !eq_ic(t[4], "Fc"@) {
        LineSpec::Fail(expected_message("Fc"@, t[4]))
    } else if !eq_ic(t[6], "Hz"@) {
        LineSpec::Fail(expected_message("Hz"@, t[6]))
    } else if !eq_ic(t[7], "Gain"@) {
        LineSpec::Fail(expected_message("Gain"@, t[7]))
    } else if !eq_ic(t[9], "dB"@) {
        LineSpec::Fail(expected_message("dB"@, t[9]))
    } else if !eq_ic(t[10], "Q"@) {
        LineSpec::Fail(expected_message("Q"@, t[10]))
    } else {
        LineSpec::Band(n, eq_ic(t[2], "on"@), t[5], t[8], t[11])
    }
}

/// What a line holds, given whether a preamp line was seen and the filter
/// numbers used so far.
pub open spec fn scan_spec(preamp_seen: bool, numbers: Seq<u32>, first: bool, raw: Seq<char>) -> LineSpec {
    let line = line_text(first, raw);
    if line.len() == 0 || line[0] == '#' || line[0] == ';' {
        LineSpec::Skip
    } else {
        let t = words_of(line);
        let head = if t.len() > 0 {
            t[0]
        } else {
            Seq::empty()
        };
        if eq_ic(trim_char_end(head, ':'), "preamp"@) {
            if preamp_seen {
                LineSpec::Fail("duplicate Preamp line"@)
            } else if t.len() != 3 || !eq_ic(t[2], "db"@) {
                LineSpec::Fail("expected `Preamp: <number> dB`"@)
            } else {
                LineSpec::Preamp(t[1])
            }
        } else if !eq_ic(head, "filter"@) {
            LineSpec::Fail(unsupported_directive_text())
        } else if t.len() != 12 {
            LineSpec::Fail(filter_shape_text())
        } else if !(t[1].len() > 0 && t[1].last() == ':') {
            LineSpec::Fail("filter number must end with ':'"@)
        } else {
            match parse_u32(t[1].drop_last()) {
                None => LineSpec::Fail("filter number must be a positive integer"@),
                Some(n) => if n == 0 || numbers.contains(n) {
                    LineSpec::Fail("filter numbers must be positive and unique"@)
                } else {
                    filter_rest(n, t)
                },
            }
        }
    }
}

/// The import's progress: whether a preamp line was read, the filter
/// numbers used and the bands accepted.
pub struct ImportState {
    preamp_seen: bool,
    numbers: Vec<u32>,
    bands: usize,
}

impl ImportState {
    pub closed spec fn preamp_seen_spec(&self) -> bool {
        self.preamp_seen
    }

    pub closed spec fn numbers_spec(&self) -> Seq<u32> {
        self.numbers@
    }

    pub closed spec fn bands_spec(&self) -> nat {
        self.bands as nat
    }

    pub fn new() -> (r: Self)
        ensures
            !r.preamp_seen_spec(),
            r.numbers_spec().len() == 0,
            r.bands_spec() == 0,
    {
        ImportState { preamp_seen: false, numbers: Vec::new(), bands: 0 }
    }

    /// How many filter lines were accepted so far.
    pub fn band_count(&self) -> (r: usize)
        ensures
            r == self.bands_spec(),
    {
        self.bands
    }

    /// Whether a preamp line was read (else the profile gets 0 dB and a
    /// warning).
    pub fn preamp_seen(&self) -> (r: bool)
        ensures
            r == self.preamp_seen_spec(),
    {
        self.preamp_seen
    }

    fn has_number(&self, n: u32) -> (r: bool)
        ensures
            r == self.numbers_spec().contains(n),
    {
        let k = self.numbers.len();
        for i in 0..k
            invariant
                k == self.numbers@.len(),
                forall|j: int| 0 <= j < i ==> self.numbers@[j] != n,
        {
            if self.numbers[i] == n {
                return true;
            }
        }
        false
    }

    /// Read line `line_no` (1-based; `first` for the first line): what it
    /// holds, or the error it is. A preamp line is recorded, and so is a
    /// filter's number; an error leaves the state as it was.
    pub fn step(&mut self, first: bool, line_no: usize, raw: &str) -> (r: Result<
        LineItem,
        EqualizerParseError,
    >)
        ensures
            match scan_spec(old(self).preamp_seen_spec(), old(self).numbers_spec(), first, raw@) {
                LineSpec::Skip => r == Ok::<LineItem, EqualizerParseError>(LineItem::Skip)
                    && final(self).preamp_seen_spec() == old(self).preamp_seen_spec()
                    && final(self).numbers_spec() == old(self).numbers_spec(),
                LineSpec::Preamp(v) => r matches Ok(LineItem::Preamp { value }) && value@ == v
                    && final(self).preamp_seen_spec() && final(self).numbers_spec() == old(
                    self,
                ).numbers_spec(),
                LineSpec::Band(n, on, f, g, q) => r matches Ok(
                    LineItem::Band { number, enabled, frequency, gain, q: qq },
                ) && number == n && enabled == on && frequency@ == f && gain@ == g && qq@ == q
                    && final(self).preamp_seen_spec() == old(self).preamp_seen_spec()
                    && final(self).numbers_spec() == old(self).numbers_spec().push(n),
                LineSpec::Fail(m) => r matches Err(e) && e.line == Some(line_no) && e.message@
                    == m && final(self).preamp_seen_spec() == old(self).preamp_seen_spec()
                    && final(self).numbers_spec() == old(self).numbers_spec(),
            },
            final(self).bands_spec() == old(self).bands_spec(),
    {
        let rv = chars_of(raw);
        let line = if first {
            trim(&trim_start_matches(&rv, '\u{feff}'))
        } else {
            trim(&rv)
        };
        if line.len() == 0 || line[0] == '#' || line[0] == ';' {
            return Ok(LineItem::Skip);
        }
        let t = split_words(&line);
        let ghost tv = t@.map_values(|w: Vec<char>| w@);
        assert(tv == words_of(line@));
        let head: Vec<char> = if t.len() > 0 {
            slice_chars(&t[0], 0, t[0].len())
        } else {
            Vec::new()
        };
        proof {
            if t@.len() > 0 {
                assert(t@[0]@.subrange(0, t@[0]@.len() as int) =~= t@[0]@);
                assert(head@ == tv[0]);
            } else {
                assert(head@ =~= Seq::<char>::empty());
            }
        }
        let head_trimmed = trim_end_matches(&head, ':');
        if eq_ic_exec(&head_trimmed, "preamp") {
            if self.preamp_seen {
                return Err(EqualizerParseError::line(line_no, "duplicate Preamp line".to_owned()));
            }
            if t.len() != 3 || !eq_ic_exec(&t[2], "db") {
                return Err(
                    EqualizerParseError::line(line_no, "expected `Preamp: <number> dB`".to_owned()),
                );
            }
            assert(t@[1]@ == tv[1]);
            self.preamp_seen = true;
            return Ok(LineItem::Preamp { value: string_from_chars(&t[1]) });
        }
        if !eq_ic_exec(&head, "filter") {
            return Err(
                EqualizerParseError::line(
                    line_no,
                    "unsupported directive; version 1 accepts only Preamp and PK Filter lines".to_owned(),
                ),
            );
        }
        if t.len() != 12 {
            return Err(
                EqualizerParseError::line(
                    line_no,
                    "expected `Filter N: ON|OFF PK Fc <Hz> Hz Gain <dB> dB Q <value>`".to_owned(),
                ),
            );
        }
        assert(forall|i: int| 0 <= i < 12 ==> #[trigger] t@[i]@ == tv[i]);
        let num = &t[1];
        if !(num.len() > 0 && num[num.len() - 1] == ':') {
            return Err(
                EqualizerParseError::line(line_no, "filter number must end with ':'".to_owned()),
            );
        }
        let digits = slice_chars(num, 0, num.len() - 1);
        assert(digits@ =~= tv[1].drop_last());
        let n: u32 = match parse_u64_exec(&digits) {
            Some(v) => {
                if v > 4294967295 {
                    return Err(
                        EqualizerParseError::line(
                            line_no,
                            "filter number must be a positive integer".to_owned(),
                        ),
                    );
                }
                v as u32
            },
            None => {
                return Err(
                    EqualizerParseError::line(
                        line_no,
                        "filter number must be a positive integer".to_owned(),
                    ),
                );
            },
        };
        if n == 0 || self.has_number(n) {
            return Err(
                EqualizerParseError::line(
                    line_no,
                    "filter numbers must be positive and unique".to_owned(),
                ),
            );
        }
        let on = eq_ic_exec(&t[2], "on");
        if !(on || eq_ic_exec(&t[2], "off")) {
            return Err(EqualizerParseError::line(line_no, "filter must be ON or OFF".to_owned()));
        }
        if !eq_ic_exec(&t[3], "pk") {
            let mut m = chars_of("unsupported filter kind '");
            push_all(&mut m, &t[3]);
            push_str(&mut m, "'");
            return Err(EqualizerParseError::line(line_no, string_from_chars(&m)));
        }
        expect_token(&t, 4, "Fc", line_no)?;
        expect_token(&t, 6, "Hz", line_no)?;
        expect_token(&t, 7, "Gain", line_no)?;
        expect_token(&t, 9, "dB", line_no)?;
        expect_token(&t, 10, "Q", line_no)?;
        self.numbers.push(n);
        Ok(
            LineItem::Band {
                number: n,
                enabled: on,
                frequency: string_from_chars(&t[5]),
                gain: string_from_chars(&t[8]),
                q: string_from_chars(&t[11]),
            },
        )
    }

    /// Accept the band just read (its numbers parsed by the caller); more
    /// than `MAX_BANDS` bands is an error at that line.
    pub fn accept_band(&mut self, line_no: usize) -> (r: Result<(), EqualizerParseError>)
        requires
            old(self).bands_spec() <= MAX_BANDS,
        ensures
            final(self).bands_spec() == old(self).bands_spec() + 1,
            final(self).preamp_seen_spec() == old(self).preamp_seen_spec(),
            final(self).numbers_spec() == old(self).numbers_spec(),
            match r {
                Ok(()) => final(self).bands_spec() <= MAX_BANDS,
                Err(e) => final(self).bands_spec() > MAX_BANDS && e.line == Some(line_no)
                    && e.message@ == "profile exceeds "@ + decimal_digits(MAX_BANDS as nat)
                    + " filters"@,
            },
    {
        self.bands = self.bands + 1;
        if self.bands > MAX_BANDS {
            let mut m = chars_of("profile exceeds ");
            let d = decimal_string(MAX_BANDS as u64);
            push_all(&mut m, &d);
            push_str(&mut m, " filters");
            return Err(EqualizerParseError::line(line_no, string_from_chars(&m)));
        }
        Ok(())
    }

    /// After the last line: a profile needs at least one filter.
    pub fn finish(&self) -> (r: Result<(), EqualizerParseError>)
        ensures
            match r {
                Ok(()) => self.bands_spec() > 0,
                Err(e) => self.bands_spec() == 0 && e.line is None && e.message@
                    == "profile must contain at least one PK filter"@,
            },
    {
        if self.bands == 0 {
            let m = "profile must contain at least one PK filter".to_owned();
            proof {
                reveal_strlit("profile must contain at least one PK filter");
            }
            return Err(EqualizerParseError::global(m));
        }
        Ok(())
    }
}

/// Fail with "expected '<expected>', found '<token>'" unless the token
/// equals `expected` ignoring ASCII case.
pub fn expect_token(tokens: &Vec<Vec<char>>, index: usize, expected: &str, line: usize) -> (r:
    Result<(), EqualizerParseError>)
    requires
        index < tokens@.len(),
    ensures
        match r {
            Ok(()) => eq_ic(tokens@[index as int]@, expected@),
            Err(e) => !eq_ic(tokens@[index as int]@, expected@) && e.line == Some(line)
                && e.message@ == expected_message(expected@, tokens@[index as int]@),
        },
{
    if eq_ic_exec(&tokens[index], expected) {
        Ok(())
    } else {
        let mut m = chars_of("expected '");
        push_str(&mut m, expected);
        push_str(&mut m, "', found '");
        push_all(&mut m, &tokens[index]);
        push_str(&mut m, "'");
        Err(EqualizerParseError::line(line, string_from_chars(&m)))
    }
}

/// The warning for a profile without a preamp line.
pub fn missing_preamp_warning() -> (r: ParseWarning)
    ensures
        r.line is None,
        r.message@ == "No Preamp line; using 0 dB"@,
{
    let m = "No Preamp line; using 0 dB".to_owned();
    proof {
        reveal_strlit("No Preamp line; using 0 dB");
    }
    ParseWarning { line: None, message: m }
}

/// A filter line is read as a band only when its switch word (the third
/// word) is `ON` or `OFF` in any ASCII case, and the band is switched on
/// exactly when that word is `ON`: an `OFF` filter imports switched off.
/// Its number is the second word without its `:`, new and positive, and its
/// frequency, gain and Q are the words after `Fc`, `Gain` and `Q`.
pub proof fn law_filter_switch(preamp_seen: bool, numbers: Seq<u32>, first: bool, raw: Seq<char>)
    ensures
        scan_spec(preamp_seen, numbers, first, raw) matches LineSpec::Band(_, on, _, _, _) ==> ({
            let t = words_of(line_text(first, raw));
            &&& t.len() == 12
            &&& (on <==> eq_ic(t[2], "on"@))
            &&& (!on <==> eq_ic(t[2], "off"@))
        }),
        scan_spec(preamp_seen, numbers, first, raw) matches LineSpec::Band(n, _, f, g, q) ==> ({
            let t = words_of(line_text(first, raw));
            &&& t.len() == 12
            &&& eq_ic(t[0], "filter"@)
            &&& t[1] == t[1].drop_last().push(':')
            &&& parse_u32(t[1].drop_last()) == Some(n)
            &&& n > 0
            &&& !numbers.contains(n)
            &&& eq_ic(t[3], "pk"@)
            &&& eq_ic(t[4], "Fc"@) && f == t[5]
            &&& eq_ic(t[6], "Hz"@)
            &&& eq_ic(t[7], "Gain"@) && g == t[8]
            &&& eq_ic(t[9], "dB"@)
            &&& eq_ic(t[10], "Q"@) && q == t[11]
        }),
{
    reveal_strlit("on");
    reveal_strlit("off");
    let t = words_of(line_text(first, raw));
    if t.len() == 12 && t[1].len() > 0 {
        assert(t[1] =~= t[1].drop_last().push(t[1].last()));
    }
    if t.len() == 12 {
        assert(ascii_lower_seq("on"@).len() == 2);
        assert(ascii_lower_seq("off"@).len() == 3);
        assert(eq_ic(t[2], "on"@) ==> ascii_lower_seq(t[2]).len() == 2);
        assert(eq_ic(t[2], "off"@) ==> ascii_lower_seq(t[2]).len() == 3);
    }
}

} // verus!
