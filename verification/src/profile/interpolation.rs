//! The mathematical model of a piecewise-linear field: neighbour lookup and
//! linear interpolation over a sequence of samples.

use vstd::prelude::*;
use vstd::arithmetic::div_mod::lemma_fundamental_div_mod;
use vstd::arithmetic::div_mod::lemma_fundamental_div_mod_converse;
use crate::profile::point::Point;

verus! {

/// The samples ascend in depth.
pub open spec fn sorted_by_x(s: Seq<Point>) -> bool {
    forall|i: int, j: int| 0 <= i < j < s.len() ==> s[i].x <= s[j].x
}

/// The last sample at or above the depth `x` in the column, that is with
/// a depth of at most `x`.
pub open spec fn last_at_or_below(s: Seq<Point>, x: int) -> Option<Point>
    decreases s.len(),
{
    if s.len() == 0 {
        None
    } else if s.last().x <= x {
        Some(s.last())
    } else {
        last_at_or_below(s.drop_last(), x)
    }
}

/// The first sample with a depth of at least `x`.
pub open spec fn first_at_or_above(s: Seq<Point>, x: int) -> Option<Point>
    decreases s.len(),
{
    if s.len() == 0 {
        None
    } else if s.first().x >= x {
        Some(s.first())
    } else {
        first_at_or_above(s.drop_first(), x)
    }
}

/// The value at `x` on the line through two samples of different depth,
/// rounded down to the next millionth.
pub open spec fn interpolate(below: Point, above: Point, x: int) -> int {
    below.y + ((above.y - below.y) * (x - below.x)) / (above.x - below.x)
}

/// The value between two neighbours: the sample's own where both share a
/// depth, the line's elsewhere.
pub open spec fn lerp_value(below: Point, above: Point, x: int) -> int {
    if below.x == above.x {
        below.y as int
    } else {
        interpolate(below, above, x)
    }
}

/// The value of the field at `x`: interpolated between the neighbours,
/// constant beyond the first and the last sample, undefined without samples.
pub open spec fn eval_spec(s: Seq<Point>, x: int) -> Option<int> {
    match (last_at_or_below(s, x), first_at_or_above(s, x)) {
        (Some(below), Some(above)) => Some(lerp_value(below, above, x)),
        (None, Some(above)) => Some(above.y as int),
        (Some(below), None) => Some(below.y as int),
        (None, None) => None,
    }
}

/// What `last_at_or_below` finds, stated by position.
pub proof fn lemma_last_at_or_below(s: Seq<Point>, x: int)
    ensures
        match last_at_or_below(s, x) {
            Some(p) => exists|i: int|
                0 <= i < s.len() && s[i] == p && p.x <= x && forall|j: int|
                    i < j < s.len() ==> s[j].x > x,
            None => forall|j: int| 0 <= j < s.len() ==> s[j].x > x,
        },
    decreases s.len(),
{
    if s.len() == 0 {
    } else if s.last().x <= x {
        let i = s.len() - 1;
        assert(s[i] == s.last() && forall|j: int| i < j < s.len() ==> s[j].x > x);
    } else {
        let t = s.drop_last();
        lemma_last_at_or_below(t, x);
        match last_at_or_below(t, x) {
            Some(p) => {
                let i = choose|i: int|
                    0 <= i < t.len() && t[i] == p && p.x <= x && forall|j: int|
                        i < j < t.len() ==> t[j].x > x;
                assert forall|j: int| i < j < s.len() implies s[j].x > x by {
                    if j < t.len() {
                        assert(t[j] == s[j]);
                    }
                }
                assert(s[i] == p);
            },
            None => {
                assert forall|j: int| 0 <= j < s.len() implies s[j].x > x by {
                    if j < t.len() {
                        assert(t[j] == s[j]);
                    }
                }
            },
        }
    }
}

/// What `first_at_or_above` finds, stated by position.
pub proof fn lemma_first_at_or_above(s: Seq<Point>, x: int)
    ensures
        match first_at_or_above(s, x) {
            Some(p) => exists|i: int|
                0 <= i < s.len() && s[i] == p && p.x >= x && forall|j: int|
                    0 <= j < i ==> s[j].x < x,
            None => forall|j: int| 0 <= j < s.len() ==> s[j].x < x,
        },
    decreases s.len(),
{
    if s.len() == 0 {
    } else if s.first().x >= x {
        assert(s[0] == s.first() && forall|j: int| 0 <= j < 0 ==> s[j].x < x);
    } else {
        let t = s.drop_first();
        lemma_first_at_or_above(t, x);
        match first_at_or_above(t, x) {
            Some(p) => {
                let i = choose|i: int|
                    0 <= i < t.len() && t[i] == p && p.x >= x && forall|j: int|
                        0 <= j < i ==> t[j].x < x;
                assert forall|j: int| 0 <= j < i + 1 implies s[j].x < x by {
                    if j > 0 {
                        assert(t[j - 1] == s[j]);
                    }
                }
                assert(s[i + 1] == p);
            },
            None => {
                assert forall|j: int| 0 <= j < s.len() implies s[j].x < x by {
                    if j > 0 {
                        assert(t[j - 1] == s[j]);
                    }
                }
            },
        }
    }
}

/// A field has a value everywhere as soon as it has one sample, and
/// nowhere without.
pub proof fn lemma_eval_defined(s: Seq<Point>, x: int)
    ensures
        eval_spec(s, x) is Some <==> s.len() > 0,
{
    lemma_last_at_or_below(s, x);
    lemma_first_at_or_above(s, x);
    if s.len() > 0 {
        if s[0].x <= x {
            assert(last_at_or_below(s, x) is Some);
        } else {
            assert(first_at_or_above(s, x) is Some);
        }
    }
}

/// The interpolated value lies between the two samples' values and within
/// one millionth below the exact line.
pub proof fn lemma_interpolate_bounds(below: Point, above: Point, x: int)
    requires
        below.x <= x <= above.x,
        below.x < above.x,
    ensures
        below.y <= above.y ==> below.y <= interpolate(below, above, x) <= above.y,
        below.y >= above.y ==> above.y <= interpolate(below, above, x) <= below.y,
        (interpolate(below, above, x) - below.y) * (above.x - below.x) <= (above.y - below.y) * (x
            - below.x) < (interpolate(below, above, x) - below.y + 1) * (above.x - below.x),
{
    let dx = above.x - below.x;
    let dy = above.y - below.y;
    let t = x - below.x;
    let n = dy * t;
    let q = n / dx;
    lemma_fundamental_div_mod(n, dx);
    assert(n == dx * q + n % dx);
    assert(0 <= n % dx < dx);
    assert(q * dx <= n < (q + 1) * dx) by (nonlinear_arith)
        requires
            n == dx * q + n % dx,
            0 <= n % dx < dx,
    ;
    if dy >= 0 {
        assert(0 <= q <= dy) by (nonlinear_arith)
            requires
                q * dx <= n < (q + 1) * dx,
                n == dy * t,
                0 <= t <= dx,
                dx > 0,
                dy >= 0,
        ;
    }
    if dy <= 0 {
        assert(dy <= q <= 0) by (nonlinear_arith)
            requires
                q * dx <= n < (q + 1) * dx,
                n == dy * t,
                0 <= t <= dx,
                dx > 0,
                dy <= 0,
        ;
    }
}

/// Evaluates the line through two samples of different depth at a depth
/// between them.
pub fn interpolate_between(below: &Point, above: &Point, x: i64) -> (y: i64)
    requires
        below.x <= x <= above.x,
        below.x < above.x,
    ensures
        y == interpolate(*below, *above, x as int),
{
    let dx: u128 = (above.x as i128 - below.x as i128) as u128;
    let t: u128 = (x as i128 - below.x as i128) as u128;
    let dy: i128 = above.y as i128 - below.y as i128;
    proof {
        lemma_interpolate_bounds(*below, *above, x as int);
    }
    if dy >= 0 {
        let m: u128 = dy as u128;
        assert(m * t <= 0xffff_ffff_ffff_ffff * 0xffff_ffff_ffff_ffff) by (nonlinear_arith)
            requires
                0 <= m <= 0xffff_ffff_ffff_ffff,
                0 <= t <= 0xffff_ffff_ffff_ffff,
        ;
        let n: u128 = m * t;
        let q: u128 = n / dx;
        assert(n as int == dy as int * t as int);
        (below.y as i128 + q as i128) as i64
    } else {
        let m: u128 = (-dy) as u128;
        assert(m * t <= 0xffff_ffff_ffff_ffff * 0xffff_ffff_ffff_ffff) by (nonlinear_arith)
            requires
                0 <= m <= 0xffff_ffff_ffff_ffff,
                0 <= t <= 0xffff_ffff_ffff_ffff,
        ;
        let n: u128 = m * t;
        let q: u128 = n / dx;
        let r: u128 = n % dx;
        proof {
            let ni = n as int;
            let di = dx as int;
            lemma_fundamental_div_mod(ni, di);
            assert(dy as int * t as int == -ni) by (nonlinear_arith)
                requires
                    ni == m as int * t as int,
                    m as int == -(dy as int),
            ;
            if r == 0 {
                assert(-ni == (-(q as int)) * di + 0) by (nonlinear_arith)
                    requires
                        ni == di * q as int + r as int,
                        r == 0,
                ;
                lemma_fundamental_div_mod_converse(-ni, di, -(q as int), 0);
            } else {
                assert(-ni == (-(q as int) - 1) * di + (di - r as int)) by (nonlinear_arith)
                    requires
                        ni == di * q as int + r as int,
                ;
                lemma_fundamental_div_mod_converse(-ni, di, -(q as int) - 1, di - r as int);
            }
        }
        if r == 0 {
            (below.y as i128 - q as i128) as i64
        } else {
            (below.y as i128 - q as i128 - 1) as i64
        }
    }
}

/// At the depth of a sample the field takes the value of the last sample of
/// that depth; where no later sample shares the depth, that is the sample's
/// own value.
pub proof fn lemma_eval_at_sample(s: Seq<Point>, i: int)
    requires
        sorted_by_x(s),
        0 <= i < s.len(),
    ensures
        last_at_or_below(s, s[i].x as int) matches Some(p) && p.x == s[i].x && eval_spec(
            s,
            s[i].x as int,
        ) == Some(p.y as int),
        (i + 1 < s.len() ==> s[i].x < s[i + 1].x) ==> eval_spec(s, s[i].x as int) == Some(
            s[i].y as int,
        ),
{
    let x = s[i].x as int;
    lemma_last_at_or_below(s, x);
    lemma_first_at_or_above(s, x);
    assert(last_at_or_below(s, x) is Some);
    assert(first_at_or_above(s, x) is Some);
    let below = last_at_or_below(s, x).unwrap();
    let above = first_at_or_above(s, x).unwrap();
    let b = choose|b: int|
        0 <= b < s.len() && s[b] == below && below.x <= x && forall|j: int|
            b < j < s.len() ==> s[j].x > x;
    let a = choose|a: int|
        0 <= a < s.len() && s[a] == above && above.x >= x && forall|j: int|
            0 <= j < a ==> s[j].x < x;
    assert(b >= i);
    assert(a <= i);
    assert(below.x == x);
    assert(above.x == x);
    if i + 1 < s.len() ==> s[i].x < s[i + 1].x {
        if b > i {
            assert(s[i + 1].x <= s[b].x);
        }
        assert(b == i);
    }
}

/// Outside the sampled range the field is constant: above the first sample
/// it has that sample's value, below the last sample the last one's.
pub proof fn lemma_eval_outside_range(s: Seq<Point>, x: int)
    requires
        sorted_by_x(s),
        s.len() > 0,
    ensures
        x < s.first().x ==> eval_spec(s, x) == Some(s.first().y as int),
        x > s.last().x ==> eval_spec(s, x) == Some(s.last().y as int),
{
    lemma_last_at_or_below(s, x);
    lemma_first_at_or_above(s, x);
    if x < s.first().x {
        assert forall|j: int| 0 <= j < s.len() implies s[j].x > x by {
            assert(s[0].x <= s[j].x);
        }
        assert(last_at_or_below(s, x) is None);
        assert(first_at_or_above(s, x) == Some(s.first()));
    }
    if x > s.last().x {
        assert forall|j: int| 0 <= j < s.len() implies s[j].x < x by {
            assert(s[j].x <= s[s.len() - 1].x);
        }
        assert(first_at_or_above(s, x) is None);
        assert(last_at_or_below(s, x) == Some(s.last()));
    }
}

/// Strictly between two consecutive samples the field is the line through
/// them: its value lies between theirs and within one millionth below the
/// exact line.
pub proof fn lemma_eval_between_samples(s: Seq<Point>, i: int, x: int)
    requires
        sorted_by_x(s),
        0 <= i,
        i + 1 < s.len(),
        s[i].x < x < s[i + 1].x,
    ensures
        eval_spec(s, x) == Some(interpolate(s[i], s[i + 1], x)),
        (interpolate(s[i], s[i + 1], x) - s[i].y) * (s[i + 1].x - s[i].x) <= (s[i + 1].y
            - s[i].y) * (x - s[i].x) < (interpolate(s[i], s[i + 1], x) - s[i].y + 1) * (s[i
            + 1].x - s[i].x),
        s[i].y <= s[i + 1].y ==> s[i].y <= interpolate(s[i], s[i + 1], x) <= s[i + 1].y,
        s[i].y >= s[i + 1].y ==> s[i + 1].y <= interpolate(s[i], s[i + 1], x) <= s[i].y,
{
    lemma_last_at_or_below(s, x);
    lemma_first_at_or_above(s, x);
    assert(last_at_or_below(s, x) is Some);
    assert(first_at_or_above(s, x) is Some);
    let below = last_at_or_below(s, x).unwrap();
    let above = first_at_or_above(s, x).unwrap();
    let b = choose|b: int|
        0 <= b < s.len() && s[b] == below && below.x <= x && forall|j: int|
            b < j < s.len() ==> s[j].x > x;
    let a = choose|a: int|
        0 <= a < s.len() && s[a] == above && above.x >= x && forall|j: int|
            0 <= j < a ==> s[j].x < x;
    assert(b >= i);
    if b > i {
        assert(s[i + 1].x <= s[b].x);
    }
    assert(a <= i + 1);
    if a < i + 1 {
        assert(s[a].x <= s[i].x);
    }
    assert(b == i && a == i + 1);
    lemma_interpolate_bounds(s[i], s[i + 1], x);
}

/// The field takes no value below the least or above the greatest value
/// of its samples.
pub proof fn lemma_eval_within_samples(s: Seq<Point>, x: int)
    requires
        s.len() > 0,
    ensures
        eval_spec(s, x) matches Some(v) && (exists|i: int| 0 <= i < s.len() && s[i].y <= v) && (
        exists|j: int| 0 <= j < s.len() && v <= s[j].y),
{
    lemma_eval_defined(s, x);
    lemma_last_at_or_below(s, x);
    lemma_first_at_or_above(s, x);
    let v = eval_spec(s, x).unwrap();
    match (last_at_or_below(s, x), first_at_or_above(s, x)) {
        (Some(below), Some(above)) => {
            let b = choose|b: int|
                0 <= b < s.len() && s[b] == below && below.x <= x && forall|j: int|
                    b < j < s.len() ==> s[j].x > x;
            let a = choose|a: int|
                0 <= a < s.len() && s[a] == above && above.x >= x && forall|j: int|
                    0 <= j < a ==> s[j].x < x;
            if below.x != above.x {
                lemma_interpolate_bounds(below, above, x);
            }
            if below.y <= above.y {
                assert(s[b].y <= v && v <= s[a].y);
            } else {
                assert(s[a].y <= v && v <= s[b].y);
            }
        },
        (None, Some(above)) => {
            let a = choose|a: int|
                0 <= a < s.len() && s[a] == above && above.x >= x && forall|j: int|
                    0 <= j < a ==> s[j].x < x;
            assert(s[a].y <= v && v <= s[a].y);
        },
        (Some(below), None) => {
            let b = choose|b: int|
                0 <= b < s.len() && s[b] == below && below.x <= x && forall|j: int|
                    b < j < s.len() ==> s[j].x > x;
            assert(s[b].y <= v && v <= s[b].y);
        },
        (None, None) => {},
    }
}

} // verus!
