//! Coalescing of bursts of audio-route change hints: each hint takes a new
//! generation number, and after the settle delay only the newest hint's
//! refresh runs.
use vstd::prelude::*;

verus! {

/// Delay before a scheduled refresh checks whether it is still the newest.
pub const SETTLE_MS: u64 = 650;

/// The generation of the newest scheduled refresh.
pub struct EqualizerRouteDebouncer {
    generation: u64,
}

impl EqualizerRouteDebouncer {
    pub closed spec fn generation_spec(&self) -> u64 {
        self.generation
    }

    pub fn new() -> (r: Self)
        ensures
            r.generation_spec() == 0,
    {
        EqualizerRouteDebouncer { generation: 0 }
    }

    /// Record a new hint; its generation is returned.
    pub fn schedule(&mut self) -> (g: u64)
        ensures
            g == final(self).generation_spec(),
            g == next_generation(old(self).generation_spec()),
    {
        self.generation = self.generation.wrapping_add(1);
        self.generation
    }

    /// Is `generation` still the newest hint, so its refresh should run?
    pub fn is_current(&self, generation: u64) -> (r: bool)
        ensures
            r == (generation == self.generation_spec()),
    {
        generation == self.generation
    }
}

impl Default for EqualizerRouteDebouncer {
    fn default() -> (r: Self)
        ensures
            r.generation_spec() == 0,
    {
        EqualizerRouteDebouncer::new()
    }
}

/// The generation after `g` (the counter wraps).
pub open spec fn next_generation(g: u64) -> u64 {
    if g == u64::MAX {
        0
    } else {
        (g + 1) as u64
    }
}

/// A hint superseded by a newer one is no longer current, so only the
/// newest hint's refresh runs.
pub proof fn law_superseded_hint_is_stale(g: u64)
    ensures
        next_generation(g) != next_generation(next_generation(g)),
{
}

} // verus!
