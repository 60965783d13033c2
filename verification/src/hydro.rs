//! Pore pressure over depth, and its change under a drawdown.

pub mod difference;

use vstd::prelude::*;
use vstd::arithmetic::div_mod::lemma_fundamental_div_mod_converse;
use crate::error::Error;
use crate::fixed::floor_div;
use crate::fixed::lemma_floor_div_bound;
use crate::fixed::wide_product;
use crate::profile::interpolation::eval_spec;
use crate::profile::interpolation::lemma_eval_at_sample;
use crate::profile::interpolation::lemma_eval_within_samples;
use crate::profile::interpolation::sorted_by_x;
use crate::profile::point::Point;
use crate::profile::profile_trait::Profile;
use crate::profile::sorting::is_stable_sort_of;
use crate::profile::sorting::lemma_sort_invariance;
use crate::profile::sorting::sort_by_x;

verus! {

/// Distance from the base of a profile over which a drawdown fades in: 10.
pub const INFLUENCE_DEPTH: i64 = 10_000_000;

/// Spacing of the samples of a drawdown profile: 0.1.
pub const DZ: i64 = 100_000;

/// The pore pressure at depth `z` after a drawdown: unchanged above the
/// influence zone, inside it shifted by a share of `d_u_0` that grows
/// linearly to the whole at the base, and never negative.
pub open spec fn drawdown_value(base: Seq<Point>, d_u_0: int, influence_depth: int, z: int) -> int
    recommends
        base.len() > 0,
        influence_depth > 0,
{
    let total_depth = base.last().x as int;
    let u_0 = eval_spec(base, z).unwrap();
    if z >= total_depth - influence_depth {
        let elapsed_depth = total_depth - z;
        let d_u = (d_u_0 * (influence_depth - elapsed_depth)) / influence_depth;
        if u_0 + d_u < 0 {
            0
        } else {
            u_0 + d_u
        }
    } else {
        u_0
    }
}

/// The value of the `k`-th sample of a drawdown profile.
pub open spec fn sample_value(
    base: Seq<Point>,
    d_u_0: int,
    influence_depth: int,
    dz: int,
    k: int,
) -> int {
    drawdown_value(base, d_u_0, influence_depth, k * dz)
}

/// The number of samples that a drawdown profile takes: one every `dz`
/// from the surface down to the base.
pub open spec fn sample_count(base: Seq<Point>, dz: int) -> nat
    recommends
        base.len() > 0,
        dz > 0,
{
    if base.last().x < 0 {
        0
    } else {
        (base.last().x as int / dz + 1) as nat
    }
}

/// The samples of a drawdown profile.
pub open spec fn drawdown_samples(
    base: Seq<Point>,
    d_u_0: int,
    influence_depth: int,
    dz: int,
) -> Seq<Point> {
    Seq::new(
        sample_count(base, dz),
        |k: int|
            Point {
                x: (k * dz) as i64,
                y: sample_value(base, d_u_0, influence_depth, dz, k) as i64,
            },
    )
}

/// Why no drawdown profile can be derived, if so: the base has no sample,
/// or a shifted pressure is too large for a quantity.
pub open spec fn drawdown_failure(
    base: Seq<Point>,
    d_u_0: int,
    influence_depth: int,
    dz: int,
) -> Option<Error> {
    if base.len() == 0 {
        Some(Error::EmptyOrInsufficientProfile)
    } else if exists|k: int|
        0 <= k < sample_count(base, dz) && #[trigger] sample_value(
            base,
            d_u_0,
            influence_depth,
            dz,
            k,
        ) > i64::MAX {
        Some(Error::Overflow)
    } else {
        None
    }
}

/// Pore pressure as a piecewise-linear field over depth.
#[derive(Debug)]
pub struct ProfilePorePressure {
    points: Vec<Point>,
}

impl ProfilePorePressure {
    #[verifier::type_invariant]
    spec fn ascending(self) -> bool {
        sorted_by_x(self.points@)
    }

    /// The samples of the default profile: no pressure at the surface,
    /// 1000 at a depth of 100.
    pub open spec fn default_samples() -> Seq<Point> {
        seq![Point { x: 0, y: 0 }, Point { x: 100_000_000, y: 1_000_000_000 }]
    }

    /// Builds the profile from samples in any order.
    #[must_use]
    pub fn new(points: Vec<Point>) -> (profile: Self)
        ensures
            is_stable_sort_of(profile.samples(), points@),
    {
        let copy = sort_by_x(points);
        Self { points: copy }
    }

    /// The profile after a drawdown of `d_u_0` at its base, with the
    /// standard influence depth and sample spacing.
    pub fn drawdown_profile(&self, d_u_0: i64) -> (drawn: Result<Self, Error>)
        ensures
            match drawn {
                Ok(p) => drawdown_failure(
                    self.samples(),
                    d_u_0 as int,
                    INFLUENCE_DEPTH as int,
                    DZ as int,
                ) is None && p.samples() == drawdown_samples(
                    self.samples(),
                    d_u_0 as int,
                    INFLUENCE_DEPTH as int,
                    DZ as int,
                ),
                Err(e) => drawdown_failure(
                    self.samples(),
                    d_u_0 as int,
                    INFLUENCE_DEPTH as int,
                    DZ as int,
                ) == Some(e),
            },
    {
        self.drawdown_profile_with(d_u_0, INFLUENCE_DEPTH, DZ)
    }

    /// The profile after a drawdown of `d_u_0` at its base, which fades in
    /// over `influence_depth` and is sampled every `dz`.
    pub fn drawdown_profile_with(&self, d_u_0: i64, influence_depth: i64, dz: i64) -> (drawn:
        Result<Self, Error>)
        requires
            influence_depth > 0,
            dz > 0,
        ensures
            match drawn {
                Ok(p) => drawdown_failure(
                    self.samples(),
                    d_u_0 as int,
                    influence_depth as int,
                    dz as int,
                ) is None && p.samples() == drawdown_samples(
                    self.samples(),
                    d_u_0 as int,
                    influence_depth as int,
                    dz as int,
                ),
                Err(e) => drawdown_failure(
                    self.samples(),
                    d_u_0 as int,
                    influence_depth as int,
                    dz as int,
                ) == Some(e),
            },
    {
        let n = self.points.len();
        if n == 0 {
            return Err(Error::EmptyOrInsufficientProfile);
        }
        let total_depth = self.points[n - 1].x;
        let ghost base = self.samples();
        let ghost target = drawdown_samples(base, d_u_0 as int, influence_depth as int, dz as int);
        let mut new_points: Vec<Point> = Vec::new();
        if total_depth >= 0 {
            let mut z: i64 = 0;
            let ghost mut k: int = 0;
            loop
                invariant_except_break
                    0 <= z <= total_depth,
                    z == k * dz,
                    0 <= k < target.len(),
                    new_points@ == target.take(k),
                invariant
                    dz > 0,
                    influence_depth > 0,
                    base == self.samples(),
                    base.len() > 0,
                    total_depth == base.last().x,
                    total_depth >= 0,
                    target == drawdown_samples(
                        base,
                        d_u_0 as int,
                        influence_depth as int,
                        dz as int,
                    ),
                    forall|j: int|
                        0 <= j < new_points@.len() ==> #[trigger] sample_value(
                            base,
                            d_u_0 as int,
                            influence_depth as int,
                            dz as int,
                            j,
                        ) <= i64::MAX,
                ensures
                    new_points@ == target,
                decreases total_depth - z,
            {
                let u_0 = match self.eval(z) {
                    Ok(v) => v,
                    Err(e) => { return Err(e); },
                };
                let u: i128 = if z as i128 >= total_depth as i128 - influence_depth as i128 {
                    let elapsed_depth: i128 = total_depth as i128 - z as i128;
                    let share: i64 = (influence_depth as i128 - elapsed_depth) as i64;
                    let d_u = floor_div(wide_product(d_u_0, share), influence_depth as i128);
                    proof {
                        lemma_floor_div_bound(
                            d_u_0 * share,
                            influence_depth as int,
                            0x4000_0000_0000_0000_0000_0000_0000_0000,
                        );
                    }
                    let raised = u_0 as i128 + d_u;
                    if raised < 0 {
                        0
                    } else {
                        raised
                    }
                } else {
                    u_0 as i128
                };
                assert(u == sample_value(
                    base,
                    d_u_0 as int,
                    influence_depth as int,
                    dz as int,
                    k,
                ));
                if u > i64::MAX as i128 {
                    return Err(Error::Overflow);
                }
                new_points.push(Point::new(z, u as i64));
                assert(new_points@ == target.take(k + 1));
                if total_depth - z < dz {
                    proof {
                        lemma_fundamental_div_mod_converse(
                            total_depth as int,
                            dz as int,
                            k,
                            total_depth - z,
                        );
                        assert(target.take(k + 1) == target);
                    }
                    break ;
                }
                proof {
                    lemma_next_sample_in_range(total_depth as int, dz as int, k);
                }
                z = z + dz;
                proof {
                    k = k + 1;
                }
            }
        } else {
            assert(new_points@ == target);
        }
        let drawn = ProfilePorePressure::new(new_points);
        proof {
            assert(sorted_by_x(target)) by {
                assert forall|i: int, j: int| 0 <= i < j < target.len() implies target[i].x
                    <= target[j].x by {
                    lemma_sample_depths(total_depth as int, dz as int, i, j);
                }
            }
            assert(crate::profile::sorting::depth_determines_value(target)) by {
                assert forall|i: int, j: int|
                    0 <= i < target.len() && 0 <= j < target.len() && target[i].x
                        == target[j].x implies target[i].y == target[j].y by {
                    if i < j {
                        lemma_sample_depths(total_depth as int, dz as int, i, j);
                    } else if j < i {
                        lemma_sample_depths(total_depth as int, dz as int, j, i);
                    }
                }
            }
            lemma_stable_sort_of_sorted(target);
            lemma_sort_invariance(target, target, drawn.samples(), target, 0);
        }
        Ok(drawn)
    }
}

/// A drawdown leaves the pore pressure as it was above the influence zone:
/// a sample that lies more than the influence depth above the base has the
/// value of the base profile at its depth.
pub proof fn lemma_drawdown_above_influence(
    base: Seq<Point>,
    d_u_0: int,
    influence_depth: int,
    dz: int,
    k: int,
)
    requires
        base.len() > 0,
        influence_depth > 0,
        dz > 0,
        0 <= k < sample_count(base, dz),
        k * dz < base.last().x - influence_depth,
    ensures
        drawdown_samples(base, d_u_0, influence_depth, dz)[k].x == k * dz,
        eval_spec(base, k * dz) == Some(
            drawdown_samples(base, d_u_0, influence_depth, dz)[k].y as int,
        ),
{
    assert(0 <= k * dz) by (nonlinear_arith)
        requires
            0 <= k,
            0 < dz,
    ;
    lemma_eval_within_samples(base, k * dz);
}

/// At the base the drawdown applies in full: where a sample falls on the
/// base of an ascending profile, its value is that of the deepest sample
/// of the base profile shifted by `d_u_0`, or zero where that is negative.
pub proof fn lemma_drawdown_at_base(
    base: Seq<Point>,
    d_u_0: int,
    influence_depth: int,
    dz: int,
    k: int,
)
    requires
        sorted_by_x(base),
        base.len() > 0,
        influence_depth > 0,
        dz > 0,
        k >= 0,
        k * dz == base.last().x,
    ensures
        sample_value(base, d_u_0, influence_depth, dz, k) == if base.last().y + d_u_0 < 0 {
            0
        } else {
            base.last().y + d_u_0
        },
{
    lemma_eval_at_sample(base, base.len() - 1);
    assert((d_u_0 * influence_depth) / influence_depth == d_u_0) by (nonlinear_arith)
        requires
            influence_depth > 0,
    ;
}

/// A further sample fits below the current one as long as the base is at
/// least one spacing away.
proof fn lemma_next_sample_in_range(total_depth: int, dz: int, k: int)
    requires
        dz > 0,
        0 <= k,
        k * dz + dz <= total_depth,
    ensures
        (k + 1) * dz == k * dz + dz,
        k + 1 < total_depth / dz + 1,
{
    assert((k + 1) * dz == k * dz + dz) by (nonlinear_arith);
    vstd::arithmetic::div_mod::lemma_fundamental_div_mod(total_depth, dz);
    let q = total_depth / dz;
    assert(k + 1 <= q) by (nonlinear_arith)
        requires
            dz > 0,
            (k + 1) * dz <= total_depth,
            total_depth == dz * q + total_depth % dz,
            0 <= total_depth % dz < dz,
    ;
}

/// The depths of the samples of a drawdown profile ascend strictly and
/// stay within the base profile.
proof fn lemma_sample_depths(total_depth: int, dz: int, i: int, j: int)
    requires
        dz > 0,
        total_depth >= 0,
        0 <= i < j < total_depth / dz + 1,
    ensures
        0 <= i * dz < j * dz <= total_depth,
{
    vstd::arithmetic::div_mod::lemma_fundamental_div_mod(total_depth, dz);
    let q = total_depth / dz;
    assert(0 <= i * dz < j * dz <= total_depth) by (nonlinear_arith)
        requires
            dz > 0,
            0 <= i < j <= q,
            total_depth == dz * q + total_depth % dz,
            0 <= total_depth % dz < dz,
    ;
}

/// An ascending sequence is a stable sort of itself.
proof fn lemma_stable_sort_of_sorted(s: Seq<Point>)
    requires
        sorted_by_x(s),
    ensures
        is_stable_sort_of(s, s),
{
}

impl Default for ProfilePorePressure {
    /// Hydrostatic pressure from the surface down to a depth of 100.
    fn default() -> (profile: Self)
        ensures
            profile.samples() == ProfilePorePressure::default_samples(),
    {
        let mut points: Vec<Point> = Vec::new();
        points.push(Point::new(0, 0));
        points.push(Point::new(100_000_000, 1_000_000_000));
        Self { points }
    }
}

impl Clone for ProfilePorePressure {
    fn clone(&self) -> (copy: Self)
        ensures
            copy.samples() == self.samples(),
    {
        proof {
            use_type_invariant(self);
        }
        Self { points: self.points.clone() }
    }
}

impl Profile for ProfilePorePressure {
    closed spec fn samples(&self) -> Seq<Point> {
        self.points@
    }

    fn new(points: Vec<Point>) -> (profile: Self) {
        ProfilePorePressure::new(points)
    }

    fn points(&self) -> (points: &Vec<Point>) {
        proof {
            use_type_invariant(self);
        }
        &self.points
    }
}

} // verus!
