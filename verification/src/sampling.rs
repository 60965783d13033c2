//! Evenly spaced sampling of an interval.

use vstd::prelude::*;
use crate::fixed::floor_div;
use crate::fixed::lemma_floor_div_between;

verus! {

/// The spacing of `n` samples from `min` to `max`, rounded down.
pub open spec fn delta_spec(min: int, max: int, n: int) -> int {
    (max - min) / (n - 1)
}

/// `n` samples from `min` on, spaced as `delta_spec` says.
pub open spec fn linspace_spec(min: int, max: int, n: int) -> Seq<i64> {
    Seq::new(n as nat, |i: int| (min + delta_spec(min, max, n) * i) as i64)
}

/// The spacing of `n` samples from `min` to `max`, rounded down.
#[must_use]
pub fn delta(min: i64, max: i64, n: usize) -> (delta: i64)
    requires
        n >= 2,
        i64::MIN <= max - min <= i64::MAX,
    ensures
        delta == delta_spec(min as int, max as int, n as int),
{
    proof {
        lemma_floor_div_between(max - min, n - 1);
    }
    floor_div(max as i128 - min as i128, (n - 1) as i128) as i64
}

/// `n` evenly spaced samples that start at `min` and end at `max`, or just
/// before where the spacing had to be rounded.
#[must_use]
pub fn linspace(min: i64, max: i64, n: usize) -> (samples: Vec<i64>)
    requires
        n >= 2,
        i64::MIN <= max - min <= i64::MAX,
        i64::MIN <= min + delta_spec(min as int, max as int, n as int) * (n - 1) <= i64::MAX,
    ensures
        samples@ == linspace_spec(min as int, max as int, n as int),
{
    let delta = delta(min, max, n);
    let mut samples: Vec<i64> = Vec::new();
    let mut i: usize = 0;
    while i < n
        invariant
            i <= n,
            n >= 2,
            delta == delta_spec(min as int, max as int, n as int),
            i64::MIN <= min + delta * (n - 1) <= i64::MAX,
            samples@ == linspace_spec(min as int, max as int, n as int).take(i as int),
        decreases n - i,
    {
        proof {
            lemma_sample_between(min as int, delta as int, n as int, i as int);
        }
        let step = (delta as i128) * (i as i128);
        samples.push((min as i128 + step) as i64);
        assert(samples@ == linspace_spec(min as int, max as int, n as int).take(i + 1));
        i = i + 1;
    }
    assert(linspace_spec(min as int, max as int, n as int).take(n as int) == linspace_spec(
        min as int,
        max as int,
        n as int,
    ));
    samples
}

/// Every sample lies between the first and the last.
pub proof fn lemma_sample_between(min: int, delta: int, n: int, i: int)
    requires
        0 <= i < n,
    ensures
        delta >= 0 ==> min <= min + delta * i <= min + delta * (n - 1),
        delta <= 0 ==> min + delta * (n - 1) <= min + delta * i <= min,
{
    assert(delta >= 0 ==> 0 <= delta * i <= delta * (n - 1)) by (nonlinear_arith)
        requires
            0 <= i < n,
    ;
    assert(delta <= 0 ==> delta * (n - 1) <= delta * i <= 0) by (nonlinear_arith)
        requires
            0 <= i < n,
    ;
}

} // verus!
