//! The source of random integers, and what the engine makes of its answers.
use vstd::prelude::*;

verus! {

/// A source of uniform random integers. The engine asks for a value `v` with
/// `low <= v < high`, or for `low` itself where `low == high`.
///
/// Nothing is assumed of an implementation: whatever it answers goes through
/// `settle_draw` before the engine uses it.
pub trait RandomSource {
    fn uniform_int(&mut self, low: u32, high: u32) -> u32;
}

/// The value the engine uses when the source answered `raw` to a request for
/// `[low, high)`: the answer itself if it lies in the range, else `low`.
pub open spec fn settled(low: u32, high: u32, raw: u32) -> u32 {
    if low <= raw < high {
        raw
    } else {
        low
    }
}

/// What can come out of a draw from `[low, high)`.
pub open spec fn drawable(low: u32, high: u32, v: u32) -> bool {
    if low < high {
        low <= v < high
    } else {
        v == low
    }
}

/// Brings an answer of the source into the range that was asked for.
pub fn settle_draw(low: u32, high: u32, raw: u32) -> (v: u32)
    ensures
        v == settled(low, high, raw),
        drawable(low, high, v),
{
    if low <= raw && raw < high {
        raw
    } else {
        low
    }
}

/// Draws once from `[low, high)`. An empty range gives `low`, and so does a
/// source that answers outside the range.
pub fn draw<R: RandomSource>(rng: &mut R, low: u32, high: u32) -> (v: u32)
    ensures
        drawable(low, high, v),
{
    let raw = rng.uniform_int(low, high);
    settle_draw(low, high, raw)
}

} // verus!
