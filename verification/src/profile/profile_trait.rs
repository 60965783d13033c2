//! The capability shared by every depth-varying quantity.

use vstd::prelude::*;
use crate::error::Error;
use crate::profile::interpolation::eval_spec;
use crate::profile::interpolation::first_at_or_above;
use crate::profile::interpolation::interpolate_between;
use crate::profile::interpolation::last_at_or_below;
use crate::profile::interpolation::lemma_eval_defined;
use crate::profile::interpolation::lerp_value;
use crate::profile::interpolation::sorted_by_x;
use crate::profile::point::Point;
use crate::profile::sorting::is_stable_sort_of;

verus! {

/// A scalar field over depth, given by samples and read by linear
/// interpolation.
pub trait Profile: Sized {
    /// The samples of the field, in ascending depth.
    spec fn samples(&self) -> Seq<Point>;

    /// Builds the field from samples in any order.
    fn new(points: Vec<Point>) -> (profile: Self)
        ensures
            is_stable_sort_of(profile.samples(), points@),
    ;

    fn points(&self) -> (points: &Vec<Point>)
        ensures
            points@ == self.samples(),
            sorted_by_x(points@),
    ;

    /// The last sample that is no deeper than `eval_point`.
    fn point_below(&self, eval_point: i64) -> (found: Option<&Point>)
        ensures
            match found {
                Some(p) => last_at_or_below(self.samples(), eval_point as int) == Some(*p),
                None => last_at_or_below(self.samples(), eval_point as int) is None,
            },
    {
        let points = self.points();
        let mut i: usize = points.len();
        assert(points@.take(i as int) == points@);
        while i > 0
            invariant
                i <= points.len(),
                points@ == self.samples(),
                last_at_or_below(points@, eval_point as int) == last_at_or_below(
                    points@.take(i as int),
                    eval_point as int,
                ),
            decreases i,
        {
            if points[i - 1].x <= eval_point {
                assert(points@.take(i as int).last() == points@[i - 1]);
                return Some(&points[i - 1]);
            }
            assert(points@.take(i as int).drop_last() == points@.take(i - 1));
            i = i - 1;
        }
        None
    }

    /// The first sample that is no shallower than `eval_point`.
    fn point_above(&self, eval_point: i64) -> (found: Option<&Point>)
        ensures
            match found {
                Some(p) => first_at_or_above(self.samples(), eval_point as int) == Some(*p),
                None => first_at_or_above(self.samples(), eval_point as int) is None,
            },
    {
        let points = self.points();
        let mut i: usize = 0;
        assert(points@.skip(0) == points@);
        while i < points.len()
            invariant
                i <= points.len(),
                points@ == self.samples(),
                first_at_or_above(points@, eval_point as int) == first_at_or_above(
                    points@.skip(i as int),
                    eval_point as int,
                ),
            decreases points.len() - i,
        {
            if points[i].x >= eval_point {
                assert(points@.skip(i as int).first() == points@[i as int]);
                return Some(&points[i]);
            }
            assert(points@.skip(i as int).drop_first() == points@.skip(i + 1));
            i = i + 1;
        }
        None
    }

    /// Both neighbours of `eval_point`.
    fn point_around(&self, eval_point: i64) -> (found: (Option<&Point>, Option<&Point>))
        ensures
            match found.0 {
                Some(p) => last_at_or_below(self.samples(), eval_point as int) == Some(*p),
                None => last_at_or_below(self.samples(), eval_point as int) is None,
            },
            match found.1 {
                Some(p) => first_at_or_above(self.samples(), eval_point as int) == Some(*p),
                None => first_at_or_above(self.samples(), eval_point as int) is None,
            },
    {
        (self.point_below(eval_point), self.point_above(eval_point))
    }

    /// The point of the field at `eval_point` between its two neighbours.
    #[must_use]
    fn lerp(point_below: &Point, point_above: &Point, eval_point: i64) -> (point: Point)
        requires
            point_below.x <= eval_point <= point_above.x,
        ensures
            point.x == eval_point,
            point.y == lerp_value(*point_below, *point_above, eval_point as int),
    {
        if point_below.x == point_above.x {
            *point_below
        } else {
            Point { x: eval_point, y: interpolate_between(point_below, point_above, eval_point) }
        }
    }

    /// The value of the field at `eval_point`.
    fn eval(&self, eval_point: i64) -> (value: Result<i64, Error>)
        ensures
            match value {
                Ok(v) => eval_spec(self.samples(), eval_point as int) == Some(v as int),
                Err(e) => e == Error::EmptyOrInsufficientProfile,
            },
            value is Err <==> self.samples().len() == 0,
    {
        proof {
            lemma_eval_defined(self.samples(), eval_point as int);
        }
        let point_around = self.point_around(eval_point);
        match point_around {
            (Some(point_below), Some(point_above)) => {
                proof {
                    crate::profile::interpolation::lemma_last_at_or_below(
                        self.samples(),
                        eval_point as int,
                    );
                    crate::profile::interpolation::lemma_first_at_or_above(
                        self.samples(),
                        eval_point as int,
                    );
                }
                Ok(Self::lerp(point_below, point_above, eval_point).y)
            },
            (None, Some(point_above)) => Ok(point_above.y),
            (Some(point_below), None) => Ok(point_below.y),
            (None, None) => Err(Error::EmptyOrInsufficientProfile),
        }
    }
}

} // verus!
