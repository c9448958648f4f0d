//! The crate's only door to randomness: two trusted wrappers around the
//! `rand` crate, and verified helpers built on them.  Nothing is assumed of
//! a drawn value beyond its range, so every caller is verified for every
//! outcome the range admits.

use vstd::prelude::*;
use rand::Rng;

verus! {

/// Relies on rand's `thread_rng` and `Rng::gen_range` over `0..n`: the
/// result is uniformly drawn and strictly below `n`; the range must not be
/// empty, or `gen_range` panics.
#[verifier::external_body]
fn random_below(n: u64) -> (r: u64)
    requires
        n > 0,
    ensures
        r < n,
{
    rand::thread_rng().gen_range(0..n)
}

/// Relies on rand's `thread_rng` and `Rng::gen_ratio`: the result is true
/// with probability `num / den`; `gen_ratio` panics when `den` is zero or
/// `num` exceeds `den`, so those are ruled out.  Nothing can be promised of
/// which boolean comes back.
#[verifier::external_body]
pub(crate) fn random_ratio(num: u32, den: u32) -> bool
    requires
        0 < den,
        num <= den,
{
    rand::thread_rng().gen_ratio(num, den)
}

/// A uniformly random index into a collection of `n` elements.
pub fn random_index(n: usize) -> (r: usize)
    requires
        n > 0,
    ensures
        r < n,
{
    random_below(n as u64) as usize
}

/// A uniformly random value of the closed interval `[lo, hi]`.
pub fn random_in_range(lo: i64, hi: i64) -> (r: i64)
    requires
        lo <= hi,
        hi - lo < 1000000000,
    ensures
        lo <= r <= hi,
{
    let span: u64 = (hi - lo) as u64 + 1;
    let offset = random_below(span);
    lo + (offset as i64)
}

} // verus!
