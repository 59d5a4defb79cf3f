//! Points, and the running score.

use vstd::prelude::*;
use crate::geometry::MAX_SIZE;

verus! {

/// Points for destroying an enemy of the given size: its size in pixels,
/// rounded to the nearest whole number, halves upward.
pub open spec fn points_of(size: int) -> int {
    (size + 50) / 100
}

/// `score` raised by `gained`, stopping at the largest score there is.
pub open spec fn raised(score: int, gained: int) -> int {
    if score + gained > u32::MAX {
        u32::MAX as int
    } else {
        score + gained
    }
}

/// Points for destroying an enemy of the given size.
pub fn points_for(size: i64) -> (p: u32)
    requires
        0 < size <= MAX_SIZE,
    ensures
        p == points_of(size as int),
        p <= 10_000,
{
    let rounded: i64 = (size + 50) / 100;
    rounded as u32
}

/// Adds `gained` to `score`; the score never wraps around.
pub fn raise(score: u32, gained: u32) -> (r: u32)
    ensures
        r == raised(score as int, gained as int),
        r >= score,
{
    if gained > u32::MAX - score {
        u32::MAX
    } else {
        score + gained
    }
}

/// The record after a run has reached `score`.
pub fn record(high_score: u32, score: u32) -> (r: u32)
    ensures
        r >= high_score,
        r >= score,
        r == high_score || r == score,
{
    if score > high_score {
        score
    } else {
        high_score
    }
}

/// Raising a score in two steps is raising it by the sum.
pub proof fn lemma_raised_twice(score: int, a: int, b: int)
    requires
        0 <= score <= u32::MAX,
        0 <= a,
        0 <= b,
    ensures
        raised(raised(score, a), b) == raised(score, a + b),
{
}

} // verus!
