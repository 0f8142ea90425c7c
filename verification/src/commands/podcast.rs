//! Paging default for podcast search.
use vstd::prelude::*;

use crate::commands::library::{normalised_limit, MAX_LIMIT};

verus! {

/// Same rule as library listings: default for a missing or non-positive
/// limit, otherwise capped at `MAX_LIMIT`.
pub fn normalise_limit(limit: Option<i64>) -> (r: i64)
    ensures
        r == normalised_limit(limit),
        1 <= r <= MAX_LIMIT,
{
    let l = match limit {
        Some(l) => l,
        None => 50,
    };
    if l <= 0 {
        50
    } else if l < 200 {
        l
    } else {
        200
    }
}

} // verus!
