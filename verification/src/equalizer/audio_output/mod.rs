//! Classification of platform audio outputs and the output records built
//! from what the platform reports. Reading the platform itself is the
//! application's work.
pub mod macos;
pub mod windows;

use vstd::prelude::*;

verus! {

/// The Unicode lowercase mapping of a string (`str::to_lowercase`).
pub uninterp spec fn unicode_lowercase(s: Seq<char>) -> Seq<char>;

/// `str::to_lowercase` from std. Claimed: the result is
/// `unicode_lowercase` of the input (a function of the text alone; the
/// mapping takes no locale).
#[verifier::external_body]
pub(crate) fn to_lowercase(s: &str) -> (r: String)
    ensures
        r@ == unicode_lowercase(s@),
{
    s.to_lowercase()
}

} // verus!
