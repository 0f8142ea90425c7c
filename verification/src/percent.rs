//! Percent-encoding of URL path segments and the matching `%XX` decoders.
use vstd::prelude::*;
use vstd::string::StringSliceAdditionalSpecFns;
use vstd::utf8::{decode_utf8, encode_utf8, is_ascii_chars, valid_utf8};

use crate::text::{
    byte_is_ascii_alphanumeric, bytes_of, hex_digit, hex_digit_exec, hex_pair_radix,
    hex_pair_radix_exec, hex_upper, hex_upper_exec, string_from_chars, string_from_utf8_lossy,
    utf8_lossy,
};

verus! {

/// Bytes that may stand unescaped in a path segment.
pub open spec fn is_segment_safe(b: u8) -> bool {
    byte_is_ascii_alphanumeric(b) || b == 45 || b == 95 || b == 46 || b == 126
}

/// One byte, either as itself or as `%XX` with upper-case hex.
pub open spec fn encode_byte(b: u8) -> Seq<char> {
    if is_segment_safe(b) {
        seq![b as char]
    } else {
        seq!['%', hex_upper(b / 16), hex_upper(b % 16)]
    }
}

/// The percent-encoding of a byte string.
pub open spec fn percent_encoded(b: Seq<u8>) -> Seq<char>
    decreases b.len(),
{
    if b.len() == 0 {
        Seq::empty()
    } else {
        encode_byte(b[0]) + percent_encoded(b.drop_first())
    }
}

/// Decodes `%XX` escapes left to right; an escape needs both digits present.
/// `allow_plus` admits the `%+X` form that `u8::from_str_radix` accepts.
pub open spec fn percent_decoded_bytes(b: Seq<u8>, allow_plus: bool) -> Seq<u8>
    decreases b.len(),
{
    if b.len() == 0 {
        Seq::empty()
    } else if b[0] == 37 && b.len() >= 3 && escape_value(b[1], b[2], allow_plus) is Some {
        seq![escape_value(b[1], b[2], allow_plus)->0] + percent_decoded_bytes(b.skip(3), allow_plus)
    } else {
        seq![b[0]] + percent_decoded_bytes(b.drop_first(), allow_plus)
    }
}

/// The byte an escape's two digits stand for.
pub open spec fn escape_value(b1: u8, b2: u8, allow_plus: bool) -> Option<u8> {
    if allow_plus {
        hex_pair_radix(b1, b2)
    } else {
        match (hex_digit(b1), hex_digit(b2)) {
            (Some(h), Some(l)) => Some((h * 16 + l) as u8),
            _ => None,
        }
    }
}

fn escape_value_exec(b1: u8, b2: u8, allow_plus: bool) -> (r: Option<u8>)
    ensures
        r == escape_value(b1, b2, allow_plus),
{
    if allow_plus {
        hex_pair_radix_exec(b1, b2)
    } else {
        match (hex_digit_exec(b1), hex_digit_exec(b2)) {
            (Some(h), Some(l)) => Some(h * 16 + l),
            _ => None,
        }
    }
}

/// The text a decoder returns: the decoded bytes read as UTF-8, with
/// invalid sequences replaced (`String::from_utf8_lossy`).
pub open spec fn percent_decoded(s: Seq<char>, allow_plus: bool) -> Seq<char> {
    let d = percent_decoded_bytes(encode_utf8(s), allow_plus);
    if valid_utf8(d) {
        decode_utf8(d)
    } else {
        utf8_lossy(d)
    }
}

/// Percent-encode every byte of `input` that is not URL-safe in a path
/// segment (ASCII alphanumerics and `-_.~` pass through).
pub fn encode_path_segment(input: &str) -> (out: String)
    ensures
        out@ == percent_encoded(input.spec_bytes()),
{
    let b = bytes_of(input);
    let mut out: Vec<char> = Vec::new();
    let n = b.len();
    assert(b@.skip(0) == b@);
    for i in 0..n
        invariant
            n == b@.len(),
            out@ + percent_encoded(b@.skip(i as int)) == percent_encoded(b@),
    {
        let x = b[i];
        assert(b@.skip(i as int).drop_first() == b@.skip(i + 1));
        let ghost prev = out@;
        if (48 <= x && x <= 57) || (97 <= x && x <= 122) || (65 <= x && x <= 90) || x == 45 || x
            == 95 || x == 46 || x == 126 {
            out.push(x as char);
        } else {
            out.push('%');
            out.push(hex_upper_exec(x / 16));
            out.push(hex_upper_exec(x % 16));
        }
        assert(out@ == prev + encode_byte(x));
        assert(prev + percent_encoded(b@.skip(i as int)) == prev + (encode_byte(x)
            + percent_encoded(b@.skip(i + 1))));
        assert(out@ + percent_encoded(b@.skip(i + 1)) =~= percent_encoded(b@));
    }
    assert(b@.skip(n as int) =~= Seq::<u8>::empty());
    assert(out@ =~= percent_encoded(b@));
    string_from_chars(&out)
}

/// Decode `%XX` escapes in `input`, then read the bytes as UTF-8 (lossily).
pub fn decode_percent(input: &str, allow_plus: bool) -> (out: String)
    ensures
        out@ == percent_decoded(input@, allow_plus),
{
    let b = bytes_of(input);
    let mut out: Vec<u8> = Vec::new();
    let mut i: usize = 0;
    assert(b@.skip(0) == b@);
    while i < b.len()
        invariant
            i <= b@.len(),
            out@ + percent_decoded_bytes(b@.skip(i as int), allow_plus) == percent_decoded_bytes(
                b@,
                allow_plus,
            ),
        decreases b.len() - i,
    {
        let ghost rest = b@.skip(i as int);
        if b[i] == 37 && b.len() - i > 2 {
            if let Some(v) = escape_value_exec(b[i + 1], b[i + 2], allow_plus) {
                assert(rest[1] == b@[i + 1] && rest[2] == b@[i + 2] && rest[0] == b@[i as int]);
                assert(rest.skip(3) == b@.skip(i + 3));
                let ghost prev = out@;
                out.push(v);
                assert(out@ + percent_decoded_bytes(b@.skip(i + 3), allow_plus) =~= prev + (seq![
                    v,
                ] + percent_decoded_bytes(rest.skip(3), allow_plus)));
                i = i + 3;
                continue;
            }
        }
        assert(rest[0] == b@[i as int]);
        assert(rest.drop_first() == b@.skip(i + 1));
        let ghost prev = out@;
        out.push(b[i]);
        assert(out@ + percent_decoded_bytes(b@.skip(i + 1), allow_plus) =~= prev + (seq![
            b@[i as int],
        ] + percent_decoded_bytes(rest.drop_first(), allow_plus)));
        i = i + 1;
    }
    assert(b@.skip(i as int) =~= Seq::<u8>::empty());
    assert(out@ =~= percent_decoded_bytes(b@, allow_plus));
    string_from_utf8_lossy(&out)
}

// ---------------------------------------------------------------------------
// Round trip
// ---------------------------------------------------------------------------

/// The bytes of a run of ASCII characters.
pub open spec fn ascii_bytes(cs: Seq<char>) -> Seq<u8> {
    cs.map_values(|c: char| c as u8)
}

proof fn lemma_encode_byte_ascii(b: u8)
    ensures
        is_ascii_chars(encode_byte(b)),
{
    let e = encode_byte(b);
    assert forall|i: int| 0 <= i < e.len() implies '\0' <= #[trigger] e[i] <= '\u{7f}' by {
        if is_segment_safe(b) {
            assert(e[i] == b as char);
        } else {
            assert(b / 16 < 16 && b % 16 < 16);
        }
    }
}

proof fn lemma_percent_encoded_ascii(b: Seq<u8>)
    ensures
        is_ascii_chars(percent_encoded(b)),
    decreases b.len(),
{
    if b.len() > 0 {
        lemma_encode_byte_ascii(b[0]);
        lemma_percent_encoded_ascii(b.drop_first());
        let x = encode_byte(b[0]);
        let y = percent_encoded(b.drop_first());
        assert forall|i: int| 0 <= i < (x + y).len() implies '\0' <= #[trigger] (x + y)[i]
            <= '\u{7f}' by {
            if i < x.len() {
                assert((x + y)[i] == x[i]);
            } else {
                assert((x + y)[i] == y[i - x.len()]);
            }
        }
    }
}

proof fn lemma_encode_utf8_ascii(cs: Seq<char>)
    requires
        is_ascii_chars(cs),
    ensures
        encode_utf8(cs) == ascii_bytes(cs),
{
    vstd::utf8::is_ascii_chars_encode_utf8(cs);
    assert(encode_utf8(cs) =~= ascii_bytes(cs));
}

proof fn lemma_hex_upper_digit(n: u8)
    requires
        n < 16,
    ensures
        hex_digit(hex_upper(n) as u8) == Some(n),
        hex_upper(n) as u8 != 43,
{
}

/// Decoding the bytes of an encoding gives back the encoded bytes.
proof fn lemma_decode_encoded_bytes(b: Seq<u8>, allow_plus: bool)
    ensures
        percent_decoded_bytes(ascii_bytes(percent_encoded(b)), allow_plus) == b,
    decreases b.len(),
{
    if b.len() > 0 {
        let x = b[0];
        let rest = percent_encoded(b.drop_first());
        lemma_decode_encoded_bytes(b.drop_first(), allow_plus);
        let e = ascii_bytes(encode_byte(x) + rest);
        assert(ascii_bytes(encode_byte(x) + rest) =~= ascii_bytes(encode_byte(x)) + ascii_bytes(
            rest,
        ));
        if is_segment_safe(x) {
            assert(e[0] == x);
            assert(e.drop_first() =~= ascii_bytes(rest));
            assert(percent_decoded_bytes(e, allow_plus) == seq![x] + percent_decoded_bytes(
                e.drop_first(),
                allow_plus,
            ));
            assert(seq![x] + b.drop_first() =~= b);
        } else {
            lemma_hex_upper_digit(x / 16);
            lemma_hex_upper_digit(x % 16);
            assert(e[0] == 37);
            assert(e[1] == hex_upper(x / 16) as u8);
            assert(e[2] == hex_upper(x % 16) as u8);
            assert((x / 16) * 16 + x % 16 == x);
            assert(escape_value(e[1], e[2], allow_plus) == Some(x));
            assert(e.skip(3) =~= ascii_bytes(rest));
            assert(seq![x] + b.drop_first() =~= b);
        }
    } else {
        assert(ascii_bytes(percent_encoded(b)) =~= Seq::<u8>::empty());
        assert(b =~= Seq::<u8>::empty());
    }
}

/// Decoding a percent-encoded segment gives back exactly the original text,
/// whichever of the decoders reads it.
pub proof fn law_decode_undoes_encode(s: Seq<char>, allow_plus: bool)
    ensures
        percent_decoded(percent_encoded(encode_utf8(s)), allow_plus) == s,
{
    let b = encode_utf8(s);
    lemma_percent_encoded_ascii(b);
    lemma_encode_utf8_ascii(percent_encoded(b));
    lemma_decode_encoded_bytes(b, allow_plus);
    vstd::utf8::encode_utf8_valid_utf8(s);
    vstd::utf8::encode_utf8_decode_utf8(s);
}

} // verus!
