//! Picking a profile name that does not clash with the names already in
//! use, by appending a numbered marker to the base name, cut so that the
//! whole stays within `MAX_NAME_CHARS`.
use vstd::prelude::*;

use crate::equalizer::model::{
    name_key, normalize_matcher, normalized_matcher, MAX_NAME_CHARS,
};
use crate::text::{
    chars_of, decimal_digits, decimal_string, push_all, push_str, slice_chars, string_from_chars,
    trim, trim_ws,
};

verus! {

/// The texts of a list of strings.
pub open spec fn texts(v: Seq<String>) -> Seq<Seq<char>> {
    v.map_values(|s: String| s@)
}

pub fn contains_key(keys: &Vec<String>, k: &String) -> (r: bool)
    ensures
        r == texts(keys@).contains(k@),
{
    let n = keys.len();
    for i in 0..n
        invariant
            n == keys@.len(),
            forall|j: int| 0 <= j < i ==> (#[trigger] keys@[j])@ != k@,
    {
        if keys[i] == *k {
            assert(texts(keys@)[i as int] == k@);
            return true;
        }
    }
    proof {
        if texts(keys@).contains(k@) {
            let j = choose|j: int| 0 <= j < texts(keys@).len() && texts(keys@)[j] == k@;
            assert(keys@[j]@ == k@);
        }
    }
    false
}

/// `base` cut so that `marker` fits within `MAX_NAME_CHARS`, then the marker.
pub open spec fn with_marker(base: Seq<char>, marker: Seq<char>) -> Seq<char> {
    let keep: int = if marker.len() < MAX_NAME_CHARS {
        MAX_NAME_CHARS - marker.len()
    } else {
        0
    };
    base.take(if base.len() < keep {
        base.len() as int
    } else {
        keep
    }) + marker
}

pub fn with_marker_exec(base: &Vec<char>, marker: &Vec<char>) -> (r: Vec<char>)
    ensures
        r@ == with_marker(base@, marker@),
{
    let keep: usize = if marker.len() < MAX_NAME_CHARS {
        MAX_NAME_CHARS - marker.len()
    } else {
        0
    };
    let cut: usize = if base.len() < keep {
        base.len()
    } else {
        keep
    };
    let mut r = slice_chars(base, 0, cut);
    assert(base@.subrange(0, cut as int) =~= base@.take(cut as int));
    push_all(&mut r, marker);
    r
}

/// The first `n` characters of `s` (all of it when shorter).
pub open spec fn take_chars(s: Seq<char>, n: nat) -> Seq<char> {
    if s.len() <= n {
        s
    } else {
        s.take(n as int)
    }
}

pub fn take_chars_exec(s: &Vec<char>, n: usize) -> (r: Vec<char>)
    ensures
        r@ == take_chars(s@, n as nat),
{
    let cut = if s.len() <= n {
        s.len()
    } else {
        n
    };
    let r = slice_chars(s, 0, cut);
    assert(s@.subrange(0, cut as int) =~= take_chars(s@, n as nat));
    r
}

// ---------------------------------------------------------------------------
// Recovery names: " (server recovery)", " (server recovery 2)", …
// ---------------------------------------------------------------------------

pub open spec fn recovery_marker(n: nat) -> Seq<char> {
    if n == 1 {
        " (server recovery)"@
    } else {
        " (server recovery "@ + decimal_digits(n) + ")"@
    }
}

fn recovery_marker_exec(n: u64) -> (r: Vec<char>)
    ensures
        r@ == recovery_marker(n as nat),
{
    if n == 1 {
        chars_of(" (server recovery)")
    } else {
        let mut v = chars_of(" (server recovery ");
        let d = decimal_string(n);
        push_all(&mut v, &d);
        push_str(&mut v, ")");
        v
    }
}

/// The first of the numbered recovery names, from `n` to 999, whose key is
/// not in `used`.
pub open spec fn first_free_recovery(base: Seq<char>, used: Seq<Seq<char>>, n: nat) -> Option<
    Seq<char>,
>
    decreases 1000 - n,
{
    if n > 999 {
        None
    } else {
        let c = with_marker(base, recovery_marker(n));
        if !used.contains(normalized_matcher(trim_ws(c))) {
            Some(c)
        } else {
            first_free_recovery(base, used, n + 1)
        }
    }
}

/// The deterministic choice of a recovery name: the trimmed base if its
/// key is free, else the first free numbered name.
pub open spec fn recovery_name_pick(base: Seq<char>, used: Seq<Seq<char>>) -> Option<Seq<char>> {
    let b = trim_ws(base);
    if !used.contains(normalized_matcher(trim_ws(b))) {
        Some(b)
    } else {
        first_free_recovery(b, used, 1)
    }
}

/// The name tried with a random suffix once the numbered names are used up.
pub open spec fn random_recovery_candidate(random: Seq<char>) -> Seq<char> {
    take_chars("Recovered "@ + random, MAX_NAME_CHARS as nat)
}

/// Claim a recovery name for `base`: the trimmed base, or the first
/// numbered variant whose key is free. The claimed name's key is added to
/// `used`; `None` (with `used` unchanged) when all are taken.
pub fn claim_recovery_name(base: &str, used: &mut Vec<String>) -> (r: Option<String>)
    ensures
        match recovery_name_pick(base@, texts(old(used)@)) {
            Some(n) => r matches Some(s) && s@ == n && final(used)@.len() == old(used)@.len() + 1
                && final(used)@.take(old(used)@.len() as int) == old(used)@
                && final(used)@.last()@ == normalized_matcher(trim_ws(n)),
            None => r is None && final(used)@ == old(used)@,
        },
{
    let b = trim(&chars_of(base));
    let bs = string_from_chars(&b);
    let k = name_key(bs.as_str());
    if !contains_key(used, &k) {
        let ghost before = used@;
        used.push(k);
        assert(used@.take(before.len() as int) =~= before);
        return Some(bs);
    }
    let mut n: u64 = 1;
    while n <= 999
        invariant
            1 <= n <= 1000,
            used@ == old(used)@,
            b@ == trim_ws(base@),
            texts(used@).contains(normalized_matcher(trim_ws(b@))),
            recovery_name_pick(base@, texts(used@)) == first_free_recovery(
                b@,
                texts(used@),
                n as nat,
            ),
        decreases 1000 - n,
    {
        let marker = recovery_marker_exec(n);
        let c = with_marker_exec(&b, &marker);
        let cs = string_from_chars(&c);
        let ck = name_key(cs.as_str());
        if !contains_key(used, &ck) {
            let ghost before = used@;
            used.push(ck);
            assert(used@.take(before.len() as int) =~= before);
            return Some(cs);
        }
        n = n + 1;
    }
    None
}

/// Claim the random-suffix recovery name if its key is free.
pub fn claim_random_recovery_name(random: &str, used: &mut Vec<String>) -> (r: Option<String>)
    ensures
        ({
            let c = random_recovery_candidate(random@);
            if texts(old(used)@).contains(normalized_matcher(trim_ws(c))) {
                r is None && final(used)@ == old(used)@
            } else {
                r matches Some(s) && s@ == c && final(used)@ == old(used)@.push(
                    final(used)@.last(),
                ) && final(used)@.last()@ == normalized_matcher(trim_ws(c))
            }
        }),
{
    let mut v = chars_of("Recovered ");
    push_str(&mut v, random);
    let c = take_chars_exec(&v, MAX_NAME_CHARS);
    let cs = string_from_chars(&c);
    let ck = name_key(cs.as_str());
    if contains_key(used, &ck) {
        None
    } else {
        used.push(ck);
        Some(cs)
    }
}

// ---------------------------------------------------------------------------
// Promotion names: " (2)", " (3)", …
// ---------------------------------------------------------------------------

pub open spec fn promotion_marker(n: nat) -> Seq<char> {
    " ("@ + decimal_digits(n) + ")"@
}

/// The first numbered promotion name, from `n` to 999, not among `keys`.
pub open spec fn first_free_promotion(base: Seq<char>, keys: Seq<Seq<char>>, n: nat) -> Option<
    Seq<char>,
>
    decreases 1000 - n,
{
    if n > 999 {
        None
    } else {
        let c = with_marker(base, promotion_marker(n));
        if !keys.contains(normalized_matcher(c)) {
            Some(c)
        } else {
            first_free_promotion(base, keys, n + 1)
        }
    }
}

/// The deterministic choice of a promotion name: the base if no existing
/// name matches it, else the first free numbered name from 2.
pub open spec fn promotion_name_pick(base: Seq<char>, keys: Seq<Seq<char>>) -> Option<Seq<char>> {
    if !keys.contains(normalized_matcher(base)) {
        Some(base)
    } else {
        first_free_promotion(base, keys, 2)
    }
}

/// The keys of a list of names (`normalize_matcher` of each).
pub open spec fn name_keys_of(names: Seq<String>) -> Seq<Seq<char>> {
    names.map_values(|s: String| normalized_matcher(s@))
}

pub fn name_keys(names: &[String]) -> (keys: Vec<String>)
    ensures
        texts(keys@) == name_keys_of(names@),
{
    let mut keys: Vec<String> = Vec::new();
    let n = names.len();
    for i in 0..n
        invariant
            n == names@.len(),
            keys@.len() == i,
            texts(keys@) == name_keys_of(names@.take(i as int)),
    {
        let ghost prev = keys@;
        keys.push(normalize_matcher(names[i].as_str()));
        assert forall|j: int| 0 <= j < i + 1 implies #[trigger] texts(keys@)[j] == name_keys_of(
            names@.take(i + 1),
        )[j] by {
            if j < i {
                assert(keys@[j] == prev[j]);
                assert(texts(prev)[j] == name_keys_of(names@.take(i as int))[j]);
                assert(names@.take(i + 1)[j] == names@.take(i as int)[j]);
            } else {
                assert(names@.take(i + 1)[j] == names@[i as int]);
            }
        }
        assert(texts(keys@) =~= name_keys_of(names@.take(i + 1)));
    }
    assert(names@.take(n as int) =~= names@);
    keys
}

pub fn pick_promotion_name(base: &str, keys: &Vec<String>) -> (r: Option<String>)
    ensures
        match promotion_name_pick(base@, texts(keys@)) {
            Some(n) => r matches Some(s) && s@ == n,
            None => r is None,
        },
{
    let bk = normalize_matcher(base);
    if !contains_key(keys, &bk) {
        return Some(string_from_chars(&chars_of(base)));
    }
    let b = chars_of(base);
    let mut n: u64 = 2;
    while n <= 999
        invariant
            2 <= n <= 1000,
            b@ == base@,
            promotion_name_pick(base@, texts(keys@)) == first_free_promotion(
                b@,
                texts(keys@),
                n as nat,
            ),
        decreases 1000 - n,
    {
        let mut marker = chars_of(" (");
        let d = decimal_string(n);
        push_all(&mut marker, &d);
        push_str(&mut marker, ")");
        let c = with_marker_exec(&b, &marker);
        let cs = string_from_chars(&c);
        let ck = normalize_matcher(cs.as_str());
        if !contains_key(keys, &ck) {
            return Some(cs);
        }
        n = n + 1;
    }
    None
}

/// The name tried with a random suffix once the numbered names are used up.
pub open spec fn random_promotion_name(random: Seq<char>) -> Seq<char> {
    take_chars("Local "@ + random, MAX_NAME_CHARS as nat)
}

pub fn random_promotion_name_exec(random: &str) -> (r: String)
    ensures
        r@ == random_promotion_name(random@),
{
    let mut v = chars_of("Local ");
    push_str(&mut v, random);
    string_from_chars(&take_chars_exec(&v, MAX_NAME_CHARS))
}

proof fn lemma_first_free_recovery(base: Seq<char>, used: Seq<Seq<char>>, n: nat)
    ensures
        first_free_recovery(base, used, n) matches Some(c) ==> !used.contains(
            normalized_matcher(trim_ws(c)),
        ),
    decreases 1000 - n,
{
    if n <= 999 {
        lemma_first_free_recovery(base, used, n + 1);
    }
}

proof fn lemma_first_free_promotion(base: Seq<char>, keys: Seq<Seq<char>>, n: nat)
    ensures
        first_free_promotion(base, keys, n) matches Some(c) ==> !keys.contains(
            normalized_matcher(c),
        ),
    decreases 1000 - n,
{
    if n <= 999 {
        lemma_first_free_promotion(base, keys, n + 1);
    }
}

/// A recovery name picked for a base never clashes with a name in use.
pub proof fn law_recovery_name_is_free(base: Seq<char>, used: Seq<Seq<char>>)
    ensures
        recovery_name_pick(base, used) matches Some(n) ==> !used.contains(
            normalized_matcher(trim_ws(n)),
        ),
{
    lemma_first_free_recovery(trim_ws(base), used, 1);
}

/// A promotion name picked for a base never matches an existing name.
pub proof fn law_promotion_name_is_free(base: Seq<char>, keys: Seq<Seq<char>>)
    ensures
        promotion_name_pick(base, keys) matches Some(n) ==> !keys.contains(normalized_matcher(n)),
{
    lemma_first_free_promotion(base, keys, 2);
}

/// A recovery name for `base` that clashes with no key in `used`: the
/// trimmed base or its first free numbered variant, else `"Recovered "` and
/// a random UUID, drawn again while its key is taken. The claimed name's
/// key is added to `used`. `None`, with `used` unchanged, only when every
/// one of the (2^64 - 1) random draws clashed; `drawn` is then the last.
pub fn unique_recovery_name(base: &str, used: &mut Vec<String>) -> (r: Option<String>)
    ensures
        match recovery_name_pick(base@, texts(old(used)@)) {
            Some(n) => r matches Some(s) && s@ == n && final(used)@ == old(used)@.push(
                final(used)@.last(),
            ) && final(used)@.last()@ == normalized_matcher(trim_ws(n)),
            None => match r {
                Some(s) => (exists|random: Seq<char>|
                    crate::hashing::is_simple_uuid_shape(random) && s@ == random_recovery_candidate(
                        random,
                    )) && !texts(old(used)@).contains(normalized_matcher(trim_ws(s@)))
                    && final(used)@ == old(used)@.push(final(used)@.last())
                    && final(used)@.last()@ == normalized_matcher(trim_ws(s@)),
                None => final(used)@ == old(used)@,
            },
        },
{
    let ghost before = used@;
    match claim_recovery_name(base, used) {
        Some(name) => {
            assert(used@ =~= before.push(used@.last()));
            return Some(name);
        },
        None => {},
    }
    let mut attempt: u64 = 0;
    while attempt < u64::MAX
        invariant
            used@ == before,
            before == old(used)@,
            recovery_name_pick(base@, texts(before)) is None,
        decreases u64::MAX - attempt,
    {
        let random = crate::hashing::random_uuid_simple();
        match claim_random_recovery_name(random.as_str(), used) {
            Some(name) => {
                assert(crate::hashing::is_simple_uuid_shape(random@) && name@
                    == random_recovery_candidate(random@));
                return Some(name);
            },
            None => {},
        }
        attempt = attempt + 1;
    }
    None
}

} // verus!
