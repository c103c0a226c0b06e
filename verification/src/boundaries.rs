//! The region of interest: an axis-aligned box with its own random
//! generator.
use vstd::prelude::*;
use rand::rngs::ThreadRng;
use rand::Rng;
use crate::space::Point;
use crate::types::{
    coordinate_in_range, default_coordinate, is_coordinate_in_range, largest_coordinate,
    COORDINATE_DEFAULT, COORDINATE_MAX,
};

verus! {

/// `rand::rngs::ThreadRng`, taken as it is: nothing is known of the state
/// of a generator.
#[verifier::external_type_specification]
#[verifier::external_body]
pub struct ExThreadRng(ThreadRng);

/// `rand::thread_rng`: a handle to the calling thread's generator. Nothing
/// is claimed of it.
#[verifier::external_body]
fn thread_generator() -> ThreadRng {
    rand::thread_rng()
}

/// `ThreadRng::clone`: another handle to the same generator. Nothing is
/// claimed of it.
#[verifier::external_body]
fn clone_generator(generator: &ThreadRng) -> ThreadRng {
    generator.clone()
}

/// `Rng::gen_range` on a half-open range of `i64`: the value drawn lies in
/// `low..high`. The range must not be empty, on which `gen_range` panics.
/// Which value comes is left open.
#[verifier::external_body]
fn draw_between(generator: &mut ThreadRng, low: i64, high: i64) -> (v: i64)
    requires
        low < high,
    ensures
        low <= v < high,
{
    generator.gen_range(low..high)
}

/// What a draw on one axis may give: a value from `lower` up to, not
/// including, `upper`; with the bounds the wrong way round, a value from
/// `upper` up to, not including, `lower`; with equal bounds, that bound.
pub open spec fn axis_draw(lower: i64, upper: i64, v: i64) -> bool {
    if lower < upper {
        lower <= v < upper
    } else if upper < lower {
        upper <= v < lower
    } else {
        v == lower
    }
}

/// Draws a coordinate for one axis.
fn sample_axis(generator: &mut ThreadRng, lower: i64, upper: i64) -> (v: i64)
    ensures
        axis_draw(lower, upper, v),
{
    if lower < upper {
        draw_between(generator, lower, upper)
    } else if upper < lower {
        draw_between(generator, upper, lower)
    } else {
        lower
    }
}

/// Limits the search space: a lower and an upper limit on each axis, and
/// the generator that samples between them. Nothing asks that a lower limit
/// be below its upper limit.
#[derive(Debug)]
pub struct Boundaries {
    pub x_lower: i64,
    pub x_upper: i64,
    pub y_lower: i64,
    pub y_upper: i64,
    pub rand: ThreadRng,
}

impl Clone for Boundaries {
    /// A copy with the same four limits.
    fn clone(&self) -> (r: Self)
        ensures
            r.same_limits(*self),
    {
        Boundaries {
            x_lower: self.x_lower,
            x_upper: self.x_upper,
            y_lower: self.y_lower,
            y_upper: self.y_upper,
            rand: clone_generator(&self.rand),
        }
    }
}

impl Boundaries {
    /// Whether `p` lies inside: both coordinates within their axis's closed
    /// interval.
    pub open spec fn contains(&self, p: Point) -> bool {
        &&& self.x_lower <= p.x <= self.x_upper
        &&& self.y_lower <= p.y <= self.y_upper
    }

    /// Whether `other` has the same four limits.
    pub open spec fn same_limits(&self, other: Boundaries) -> bool {
        &&& self.x_lower == other.x_lower
        &&& self.x_upper == other.x_upper
        &&& self.y_lower == other.y_lower
        &&& self.y_upper == other.y_upper
    }

    /// Whether all four limits are coordinates a planner accepts.
    pub open spec fn in_range(&self) -> bool {
        &&& coordinate_in_range(self.x_lower)
        &&& coordinate_in_range(self.x_upper)
        &&& coordinate_in_range(self.y_lower)
        &&& coordinate_in_range(self.y_upper)
    }

    /// Whether these are the limits of default boundaries: from the default
    /// coordinate to the largest one, on both axes.
    pub open spec fn default_limits(&self) -> bool {
        &&& self.x_lower == COORDINATE_DEFAULT
        &&& self.x_upper == COORDINATE_MAX
        &&& self.y_lower == COORDINATE_DEFAULT
        &&& self.y_upper == COORDINATE_MAX
    }

    /// Whether a draw from these boundaries may give `p`.
    pub open spec fn may_draw(&self, p: Point) -> bool {
        &&& axis_draw(self.x_lower, self.x_upper, p.x)
        &&& axis_draw(self.y_lower, self.y_upper, p.y)
    }

    /// Whether a lower limit exceeds its upper limit.
    pub open spec fn reversed(&self) -> bool {
        self.x_lower > self.x_upper || self.y_lower > self.y_upper
    }

    pub fn get_x_lower(&self) -> (r: i64)
        ensures
            r == self.x_lower,
    {
        self.x_lower
    }

    pub fn set_x_lower(&mut self, value: i64)
        ensures
            final(self).x_lower == value,
            final(self).x_upper == old(self).x_upper,
            final(self).y_lower == old(self).y_lower,
            final(self).y_upper == old(self).y_upper,
    {
        self.x_lower = value;
    }

    pub fn get_x_upper(&self) -> (r: i64)
        ensures
            r == self.x_upper,
    {
        self.x_upper
    }

    pub fn set_x_upper(&mut self, value: i64)
        ensures
            final(self).x_lower == old(self).x_lower,
            final(self).x_upper == value,
            final(self).y_lower == old(self).y_lower,
            final(self).y_upper == old(self).y_upper,
    {
        self.x_upper = value;
    }

    pub fn get_y_lower(&self) -> (r: i64)
        ensures
            r == self.y_lower,
    {
        self.y_lower
    }

    pub fn set_y_lower(&mut self, value: i64)
        ensures
            final(self).x_lower == old(self).x_lower,
            final(self).x_upper == old(self).x_upper,
            final(self).y_lower == value,
            final(self).y_upper == old(self).y_upper,
    {
        self.y_lower = value;
    }

    pub fn get_y_upper(&self) -> (r: i64)
        ensures
            r == self.y_upper,
    {
        self.y_upper
    }

    pub fn set_y_upper(&mut self, value: i64)
        ensures
            final(self).x_lower == old(self).x_lower,
            final(self).x_upper == old(self).x_upper,
            final(self).y_lower == old(self).y_lower,
            final(self).y_upper == value,
    {
        self.y_upper = value;
    }

    /// Boundaries with the given limits, taken as they are.
    pub fn new(x_lower: i64, x_upper: i64, y_lower: i64, y_upper: i64) -> (b: Self)
        ensures
            b.x_lower == x_lower,
            b.x_upper == x_upper,
            b.y_lower == y_lower,
            b.y_upper == y_upper,
    {
        let rand = thread_generator();
        Boundaries { x_lower, x_upper, y_lower, y_upper, rand }
    }

    /// Whether `node` lies inside the boundaries, limits included.
    pub fn is_node_inside(&self, node: &Point) -> (inside: bool)
        ensures
            inside == self.contains(*node),
    {
        if node.get_x() < self.x_lower {
            return false;
        }
        if node.get_x() > self.x_upper {
            return false;
        }
        if node.get_y() < self.y_lower {
            return false;
        }
        if node.get_y() > self.y_upper {
            return false;
        }
        true
    }

    /// Whether all four limits are coordinates a planner accepts.
    pub fn is_in_range(&self) -> (r: bool)
        ensures
            r == self.in_range(),
    {
        is_coordinate_in_range(self.x_lower) && is_coordinate_in_range(self.x_upper)
            && is_coordinate_in_range(self.y_lower) && is_coordinate_in_range(self.y_upper)
    }

    /// Draws a configuration at random. Only the generator changes. On each
    /// axis the draw lies between the lower limit and, excluded, the upper
    /// limit; so wherever each lower limit is below its upper limit the
    /// configuration lies inside the boundaries.
    pub fn generate_random_configuration(&mut self) -> (p: Point)
        ensures
            final(self).same_limits(*old(self)),
            old(self).may_draw(p),
            old(self).x_lower < old(self).x_upper && old(self).y_lower < old(self).y_upper
                ==> old(self).contains(p),
            !old(self).reversed() ==> old(self).contains(p),
    {
        let x: i64 = sample_axis(&mut self.rand, self.x_lower, self.x_upper);
        let y: i64 = sample_axis(&mut self.rand, self.y_lower, self.y_upper);
        Point::new(x, y)
    }
}

impl Default for Boundaries {
    /// From the default coordinate to the largest one, on both axes.
    fn default() -> (b: Self)
        ensures
            b.default_limits(),
    {
        Boundaries::new(
            default_coordinate(),
            largest_coordinate(),
            default_coordinate(),
            largest_coordinate(),
        )
    }
}

} // verus!
