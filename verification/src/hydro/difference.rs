//! The difference of two pore pressure profiles.

use vstd::prelude::*;
use vstd::relations::sorted_by;
use vstd::relations::total_ordering;
use vstd::seq_lib::lemma_sorted_unique;
use vstd::seq_lib::to_multiset_insert;
use crate::error::Error;
use crate::fixed::floor_div;
use crate::fixed::lemma_floor_div_between;
use crate::fixed::mul_floor;
use crate::hydro::ProfilePorePressure;
use crate::profile::interpolation::eval_spec;
use crate::profile::interpolation::lemma_eval_defined;
use crate::profile::point::Point;
use crate::profile::profile_trait::Profile;
use crate::profile::sorting::is_stable_sort_of;

verus! {

/// Depths of two profiles that lie closer together than this, 0.1, are
/// taken as one in their difference.
pub const MERGE_INTERVAL: i64 = 100_000;

/// The order of quantities.
pub open spec fn ascending() -> spec_fn(i64, i64) -> bool {
    |a: i64, b: i64| a <= b
}

/// The values in ascending order.
pub open spec fn sorted_values(values: Seq<i64>) -> Seq<i64> {
    values.sort_by(ascending())
}

/// The least distance at which a value is kept beside the one before it:
/// all but a thousandth of the interval.
pub open spec fn spacing_threshold(interval: int) -> int {
    mul_floor(if interval < 0 { -interval } else { interval }, 999_000)
}

/// `kept`, and behind it each value of `rest` that lies at least
/// `threshold` beyond the last one kept before it.
pub open spec fn keep_spaced(rest: Seq<i64>, kept: Seq<i64>, threshold: int) -> Seq<i64>
    decreases rest.len(),
{
    if rest.len() == 0 {
        kept
    } else if kept.len() > 0 && rest.first() - kept.last() >= threshold {
        keep_spaced(rest.drop_first(), kept.push(rest.first()), threshold)
    } else {
        keep_spaced(rest.drop_first(), kept, threshold)
    }
}

/// Ascending values without those that crowd: the first and the last stay,
/// and between them each value that lies at least `threshold` beyond the
/// last one kept. Up to two values stay as they are.
pub open spec fn thinned(sorted: Seq<i64>, threshold: int) -> Seq<i64> {
    if sorted.len() <= 2 {
        sorted
    } else {
        keep_spaced(sorted.subrange(1, sorted.len() - 1), seq![sorted.first()], threshold).push(
            sorted.last(),
        )
    }
}

/// The depths of the samples.
pub open spec fn depths(s: Seq<Point>) -> Seq<i64> {
    Seq::new(s.len(), |i: int| s[i].x)
}

/// The depths at which the difference of two profiles is sampled: those of
/// both, thinned.
pub open spec fn difference_depths(a: Seq<Point>, b: Seq<Point>) -> Seq<i64> {
    thinned(sorted_values(depths(a) + depths(b)), spacing_threshold(MERGE_INTERVAL as int))
}

/// The samples of the difference of two profiles, where it has one.
pub open spec fn difference_samples(a: Seq<Point>, b: Seq<Point>) -> Seq<Point> {
    Seq::new(
        difference_depths(a, b).len(),
        |i: int|
            Point {
                x: difference_depths(a, b)[i],
                y: difference_at(a, b, difference_depths(a, b)[i] as int) as i64,
            },
    )
}

/// The value of the first profile less that of the second at `x`.
pub open spec fn difference_at(a: Seq<Point>, b: Seq<Point>, x: int) -> int {
    eval_spec(a, x).unwrap() - eval_spec(b, x).unwrap()
}

/// Why two profiles have no difference, if so: one of them has no sample
/// while the other has, or a difference is too large for a quantity.
pub open spec fn difference_failure(a: Seq<Point>, b: Seq<Point>) -> Option<Error> {
    if (a.len() == 0) != (b.len() == 0) {
        Some(Error::EmptyOrInsufficientProfile)
    } else if exists|i: int|
        0 <= i < difference_depths(a, b).len() && !(i64::MIN <= #[trigger] difference_at(
            a,
            b,
            difference_depths(a, b)[i] as int,
        ) <= i64::MAX) {
        Some(Error::Overflow)
    } else {
        None
    }
}

proof fn lemma_ascending_is_total()
    ensures
        total_ordering(ascending()),
{
    let leq = ascending();
    assert(vstd::relations::reflexive(leq));
    assert(vstd::relations::antisymmetric(leq));
    assert(vstd::relations::transitive(leq));
    assert(vstd::relations::strongly_connected(leq));
}

/// The values in ascending order.
pub fn sort_values(values: &Vec<i64>) -> (sorted: Vec<i64>)
    ensures
        sorted@ == sorted_values(values@),
{
    let mut out: Vec<i64> = Vec::new();
    let mut i: usize = 0;
    assert(values@.take(0) == Seq::<i64>::empty());
    while i < values.len()
        invariant
            i <= values.len(),
            sorted_by(out@, ascending()),
            out@.to_multiset() == values@.take(i as int).to_multiset(),
        decreases values.len() - i,
    {
        let e = values[i];
        let mut pos: usize = out.len();
        while pos > 0 && out[pos - 1] > e
            invariant
                pos <= out.len(),
                forall|j: int| pos <= j < out.len() ==> out[j] > e,
            decreases pos,
        {
            pos = pos - 1;
        }
        proof {
            let before = out@;
            let after = before.insert(pos as int, e);
            assert forall|j: int| 0 <= j < pos implies before[j] <= e by {
                assert(ascending()(before[j], before[pos - 1]));
            }
            assert(sorted_by(after, ascending())) by {
                assert forall|a: int, b: int| 0 <= a < b < after.len() implies #[trigger] ascending()(
                    after[a],
                    after[b],
                ) by {
                    if a < pos && b > pos {
                        assert(after[a] == before[a] && after[b] == before[b - 1]);
                    } else if a < pos && b < pos {
                        assert(after[a] == before[a] && after[b] == before[b]);
                        assert(ascending()(before[a], before[b]));
                    } else if a > pos {
                        assert(after[a] == before[a - 1] && after[b] == before[b - 1]);
                        assert(ascending()(before[a - 1], before[b - 1]));
                    }
                }
            }
            to_multiset_insert(before, pos as int, e);
            vstd::seq_lib::to_multiset_build(values@.take(i as int), e);
            assert(values@.take(i + 1) == values@.take(i as int).push(e));
        }
        out.insert(pos, e);
        i = i + 1;
    }
    proof {
        assert(values@.take(values.len() as int) == values@);
        lemma_ascending_is_total();
        values@.lemma_sort_by_ensures(ascending());
        lemma_sorted_unique(out@, sorted_values(values@), ascending());
    }
    out
}

/// The values in ascending order, without those that lie closer than
/// almost `interval` behind the one kept before them; the least and the
/// greatest always stay.
pub fn unique(values: &Vec<i64>, interval: i64) -> (kept: Vec<i64>)
    ensures
        kept@ == thinned(sorted_values(values@), spacing_threshold(interval as int)),
{
    let copy = sort_values(values);
    let n = copy.len();
    if n <= 2 {
        copy
    } else {
        let size: i128 = if interval < 0 {
            -(interval as i128)
        } else {
            interval as i128
        };
        proof {
            lemma_floor_div_between(size * 999_000, 1_000_000);
        }
        let threshold = floor_div(size * 999_000, 1_000_000);
        let ghost middle = copy@.subrange(1, n - 1);
        let mut res: Vec<i64> = Vec::new();
        res.push(copy[0]);
        assert(res@ == seq![copy@.first()]);
        let mut i: usize = 1;
        assert(middle.skip(0) == middle);
        while i < n - 1
            invariant
                1 <= i <= n - 1,
                n == copy.len(),
                middle == copy@.subrange(1, n - 1),
                res.len() > 0,
                keep_spaced(middle, seq![copy@.first()], threshold as int) == keep_spaced(
                    middle.skip(i - 1),
                    res@,
                    threshold as int,
                ),
            decreases n - i,
        {
            let element = copy[i];
            proof {
                let rest = middle.skip(i - 1);
                assert(rest.first() == copy@[i as int]);
                assert(rest.drop_first() == middle.skip(i as int));
            }
            if element as i128 - res[res.len() - 1] as i128 >= threshold {
                res.push(element);
            }
            i = i + 1;
        }
        res.push(copy[n - 1]);
        res
    }
}

impl ProfilePorePressure {
    /// The depths of the samples.
    pub fn xs(&self) -> (xs: Vec<i64>)
        ensures
            xs@ == depths(self.samples()),
    {
        let points = self.points();
        let mut xs: Vec<i64> = Vec::new();
        let mut i: usize = 0;
        while i < points.len()
            invariant
                i <= points.len(),
                points@ == self.samples(),
                xs@ == depths(self.samples()).take(i as int),
            decreases points.len() - i,
        {
            xs.push(points[i].x);
            assert(xs@ == depths(self.samples()).take(i + 1));
            i = i + 1;
        }
        assert(depths(self.samples()).take(points.len() as int) == depths(self.samples()));
        xs
    }

    /// This profile less `rhs`, sampled at the depths of both.
    pub fn difference(&self, rhs: &Self) -> (difference: Result<Self, Error>)
        ensures
            match difference {
                Ok(p) => difference_failure(self.samples(), rhs.samples()) is None
                    && is_stable_sort_of(
                    p.samples(),
                    difference_samples(self.samples(), rhs.samples()),
                ),
                Err(e) => difference_failure(self.samples(), rhs.samples()) == Some(e),
            },
    {
        let ghost a = self.samples();
        let ghost b = rhs.samples();
        let mut all = self.xs();
        let mut others = rhs.xs();
        all.append(&mut others);
        let merged = unique(&all, MERGE_INTERVAL);
        proof {
            vstd::seq_lib::to_multiset_len(depths(a) + depths(b));
            (depths(a) + depths(b)).lemma_sort_by_ensures(ascending());
            vstd::seq_lib::to_multiset_len(sorted_values(depths(a) + depths(b)));
            lemma_ascending_is_total();
        }
        let ghost target = difference_samples(a, b);
        let mut points: Vec<Point> = Vec::new();
        let mut i: usize = 0;
        while i < merged.len()
            invariant
                i <= merged.len(),
                a == self.samples(),
                b == rhs.samples(),
                merged@ == difference_depths(a, b),
                target == difference_samples(a, b),
                points@ == target.take(i as int),
                i > 0 ==> a.len() > 0 && b.len() > 0,
                forall|j: int|
                    0 <= j < i ==> i64::MIN <= #[trigger] difference_at(
                        a,
                        b,
                        difference_depths(a, b)[j] as int,
                    ) <= i64::MAX,
            decreases merged.len() - i,
        {
            let x = merged[i];
            proof {
                lemma_eval_defined(a, x as int);
                lemma_eval_defined(b, x as int);
                lemma_depths_nonempty(a, b);
            }
            let upper = match self.eval(x) {
                Ok(v) => v,
                Err(e) => { return Err(e); },
            };
            let lower = match rhs.eval(x) {
                Ok(v) => v,
                Err(e) => { return Err(e); },
            };
            let value: i128 = upper as i128 - lower as i128;
            if value < i64::MIN as i128 || value > i64::MAX as i128 {
                proof {
                    let at = difference_depths(a, b)[i as int] as int;
                    assert(!(i64::MIN <= difference_at(a, b, at) <= i64::MAX));
                }
                return Err(Error::Overflow);
            }
            points.push(Point::new(x, value as i64));
            assert(points@ == target.take(i + 1));
            i = i + 1;
        }
        proof {
            assert(target.take(merged.len() as int) == target);
            lemma_depths_nonempty(a, b);
        }
        Ok(ProfilePorePressure::new(points))
    }
}

/// Two profiles have depths to compare as soon as one of them has a
/// sample, and none when both are empty.
proof fn lemma_depths_nonempty(a: Seq<Point>, b: Seq<Point>)
    ensures
        difference_depths(a, b).len() > 0 <==> a.len() + b.len() > 0,
{
    let all = depths(a) + depths(b);
    lemma_ascending_is_total();
    all.lemma_sort_by_ensures(ascending());
    vstd::seq_lib::to_multiset_len(all);
    vstd::seq_lib::to_multiset_len(sorted_values(all));
}

} // verus!
