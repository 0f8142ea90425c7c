//! Signed decimal integers as text: `str::parse::<i64>` with its error
//! kinds, and `i64` display.
use vstd::prelude::*;

use crate::text::{decimal_digits, decimal_string, digit_value, is_ascii_digit};

verus! {

/// Why a decimal integer did not parse (`std::num::IntErrorKind`).
#[derive(Debug, Clone, Copy, PartialEq, Eq, Structural)]
pub enum IntErrorKind {
    Empty,
    InvalidDigit,
    PosOverflow,
    NegOverflow,
}

/// The message `ParseIntError` displays for each kind.
pub open spec fn int_error_text(kind: IntErrorKind) -> Seq<char> {
    match kind {
        IntErrorKind::Empty => "cannot parse integer from empty string"@,
        IntErrorKind::InvalidDigit => "invalid digit found in string"@,
        IntErrorKind::PosOverflow => "number too large to fit in target type"@,
        IntErrorKind::NegOverflow => "number too small to fit in target type"@,
    }
}

pub fn int_error_message(kind: IntErrorKind) -> (r: &'static str)
    ensures
        r@ == int_error_text(kind),
{
    match kind {
        IntErrorKind::Empty => "cannot parse integer from empty string",
        IntErrorKind::InvalidDigit => "invalid digit found in string",
        IntErrorKind::PosOverflow => "number too large to fit in target type",
        IntErrorKind::NegOverflow => "number too small to fit in target type",
    }
}

/// Digits read left to right into `acc`, away from zero in the sign's
/// direction; the first non-digit or the first step out of `i64` range
/// decides the error.
pub open spec fn fold_digits(acc: int, ds: Seq<char>, positive: bool) -> Result<int, IntErrorKind>
    decreases ds.len(),
{
    if ds.len() == 0 {
        Ok(acc)
    } else if !is_ascii_digit(ds[0]) {
        Err(IntErrorKind::InvalidDigit)
    } else {
        let next = if positive {
            acc * 10 + digit_value(ds[0])
        } else {
            acc * 10 - digit_value(ds[0])
        };
        if next > i64::MAX {
            Err(IntErrorKind::PosOverflow)
        } else if next < i64::MIN {
            Err(IntErrorKind::NegOverflow)
        } else {
            fold_digits(next, ds.drop_first(), positive)
        }
    }
}

/// `<i64 as FromStr>::from_str`: an optional sign, then digits.
pub open spec fn parse_i64_spec(s: Seq<char>) -> Result<i64, IntErrorKind> {
    if s.len() == 0 {
        Err(IntErrorKind::Empty)
    } else if (s[0] == '+' || s[0] == '-') && s.len() == 1 {
        Err(IntErrorKind::InvalidDigit)
    } else {
        let positive = s[0] != '-';
        let ds = if s[0] == '+' || s[0] == '-' {
            s.drop_first()
        } else {
            s
        };
        match fold_digits(0, ds, positive) {
            Ok(v) => Ok(v as i64),
            Err(e) => Err(e),
        }
    }
}

/// Parse a decimal `i64` as `str::parse::<i64>` does.
pub fn parse_i64(s: &Vec<char>) -> (r: Result<i64, IntErrorKind>)
    ensures
        r == parse_i64_spec(s@),
{
    if s.len() == 0 {
        return Err(IntErrorKind::Empty);
    }
    let signed = s[0] == '+' || s[0] == '-';
    if signed && s.len() == 1 {
        return Err(IntErrorKind::InvalidDigit);
    }
    let positive = s[0] != '-';
    let start: usize = if signed {
        1
    } else {
        0
    };
    let ghost ds = if signed {
        s@.drop_first()
    } else {
        s@
    };
    assert(ds =~= s@.skip(start as int));
    let mut acc: i64 = 0;
    let mut i = start;
    assert(s@.skip(start as int) =~= ds.skip(0));
    while i < s.len()
        invariant
            start <= i <= s@.len(),
            s@.len() > 0,
            !((s@[0] == '+' || s@[0] == '-') && s@.len() == 1),
            positive == (s@[0] != '-'),
            ds == (if s@[0] == '+' || s@[0] == '-' {
                s@.drop_first()
            } else {
                s@
            }),
            ds == s@.skip(start as int),
            fold_digits(0, ds, positive) == fold_digits(acc as int, s@.skip(i as int), positive),
        decreases s.len() - i,
    {
        let c = s[i];
        let ghost rest = s@.skip(i as int);
        assert(rest[0] == c);
        assert(rest.drop_first() =~= s@.skip(i + 1));
        if !('0' <= c && c <= '9') {
            assert(!is_ascii_digit(rest[0]));
            assert(fold_digits(acc as int, rest, positive) == Err::<int, IntErrorKind>(
                IntErrorKind::InvalidDigit,
            ));
            return Err(IntErrorKind::InvalidDigit);
        }
        let d: i128 = ((c as u32) - ('0' as u32)) as i128;
        let next: i128 = if positive {
            (acc as i128) * 10 + d
        } else {
            (acc as i128) * 10 - d
        };
        assert(next == if positive {
            acc * 10 + digit_value(rest[0])
        } else {
            acc * 10 - digit_value(rest[0])
        });
        if next > i64::MAX as i128 {
            assert(fold_digits(acc as int, rest, positive) == Err::<int, IntErrorKind>(
                IntErrorKind::PosOverflow,
            ));
            return Err(IntErrorKind::PosOverflow);
        }
        if next < i64::MIN as i128 {
            return Err(IntErrorKind::NegOverflow);
        }
        acc = next as i64;
        i = i + 1;
    }
    assert(s@.skip(i as int) =~= Seq::<char>::empty());
    Ok(acc)
}

/// `format!("{n}")` for an `i64`.
pub open spec fn i64_text(n: i64) -> Seq<char> {
    if n < 0 {
        seq!['-'] + decimal_digits((-(n as int)) as nat)
    } else {
        decimal_digits(n as nat)
    }
}

pub fn i64_string(n: i64) -> (out: Vec<char>)
    ensures
        out@ == i64_text(n),
{
    if n < 0 {
        let m: u64 = (0 - (n as i128)) as u64;
        let d = decimal_string(m);
        let mut out: Vec<char> = Vec::new();
        out.push('-');
        crate::text::push_all(&mut out, &d);
        out
    } else {
        decimal_string(n as u64)
    }
}

/// One digit step of `fold_digits` after the digits read so far.
pub open spec fn fold_step(r: Result<int, IntErrorKind>, c: char, positive: bool) -> Result<
    int,
    IntErrorKind,
> {
    match r {
        Err(e) => Err(e),
        Ok(acc) => if !is_ascii_digit(c) {
            Err(IntErrorKind::InvalidDigit)
        } else {
            let next = if positive {
                acc * 10 + digit_value(c)
            } else {
                acc * 10 - digit_value(c)
            };
            if next > i64::MAX {
                Err(IntErrorKind::PosOverflow)
            } else if next < i64::MIN {
                Err(IntErrorKind::NegOverflow)
            } else {
                Ok(next)
            }
        },
    }
}

/// Reading one more digit is one more step.
pub proof fn lemma_fold_push(acc: int, s: Seq<char>, c: char, positive: bool)
    ensures
        fold_digits(acc, s.push(c), positive) == fold_step(fold_digits(acc, s, positive), c, positive),
    decreases s.len(),
{
    reveal_with_fuel(fold_digits, 2);
    if s.len() == 0 {
        assert(s.push(c).drop_first() =~= Seq::<char>::empty());
    } else {
        assert(s.push(c)[0] == s[0]);
        assert(s.push(c).drop_first() =~= s.drop_first().push(c));
        if is_ascii_digit(s[0]) {
            let next = if positive {
                acc * 10 + digit_value(s[0])
            } else {
                acc * 10 - digit_value(s[0])
            };
            lemma_fold_push(next, s.drop_first(), c, positive);
        }
    }
}

/// The decimal digits of `m` read back give `m` (or `-m` for a negative
/// sign) whenever that value is an `i64`.
pub proof fn lemma_fold_decimal(m: nat, positive: bool)
    requires
        positive ==> m <= i64::MAX,
        !positive ==> -(m as int) >= i64::MIN,
    ensures
        fold_digits(0, decimal_digits(m), positive) == Ok::<int, IntErrorKind>(
            if positive {
                m as int
            } else {
                -(m as int)
            },
        ),
        decimal_digits(m).len() >= 1,
        is_ascii_digit(decimal_digits(m)[0]),
    decreases m,
{
    let c: char = ((m % 10 + 48) as u8) as char;
    assert(digit_value(c) == m % 10);
    assert(is_ascii_digit(c));
    if m < 10 {
        assert(decimal_digits(m) == seq![c]);
        assert(seq![c].drop_first() =~= Seq::<char>::empty());
        lemma_fold_push(0, Seq::empty(), c, positive);
        assert(Seq::<char>::empty().push(c) =~= seq![c]);
    } else {
        lemma_fold_decimal(m / 10, positive);
        assert(decimal_digits(m) == decimal_digits(m / 10) + seq![c]);
        assert(decimal_digits(m / 10) + seq![c] =~= decimal_digits(m / 10).push(c));
        lemma_fold_push(0, decimal_digits(m / 10), c, positive);
        assert((m / 10) * 10 + m % 10 == m) by (nonlinear_arith)
            requires
                m >= 10,
        {}
        assert(decimal_digits(m)[0] == decimal_digits(m / 10)[0]);
    }
}

/// An `i64` displayed and parsed back is itself.
pub proof fn law_i64_text_round_trip(n: i64)
    ensures
        parse_i64_spec(i64_text(n)) == Ok::<i64, IntErrorKind>(n),
{
    if n < 0 {
        let m = (-(n as int)) as nat;
        lemma_fold_decimal(m, false);
        let s = i64_text(n);
        assert(s[0] == '-');
        assert(s.drop_first() =~= decimal_digits(m));
    } else {
        lemma_fold_decimal(n as nat, true);
    }
}

} // verus!
