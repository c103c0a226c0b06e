//! The numeric contract that coordinates and costs obey.
//!
//! Coordinates are whole numbers of lattice units, a hundred million of
//! them to the unit of length. Costs are lengths in the same units.
use vstd::prelude::*;

verus! {

/// The largest coordinate a planner accepts, in lattice units. It is chosen
/// so that sums of squared differences between any two coordinates stay far
/// inside 128 bits.
pub const COORDINATE_MAX: i64 = 0x1000_0000_0000_0000;

/// One unit of length, in lattice units: the resolution of the lattice is
/// a hundred-millionth of a unit.
pub const COORDINATE_ONE: i64 = 100_000_000;

/// Two coordinates closer than this are taken to be the same: one lattice
/// unit, so only identical coordinates are.
pub const COORDINATE_EPSILON: i64 = 1;

/// The coordinate of a point nobody has placed.
pub const COORDINATE_DEFAULT: i64 = 0;

/// The largest cost: the cost reported while no path is known.
pub const COST_MAX: u64 = 0xffff_ffff_ffff_ffff;

/// The capabilities a scalar must offer to be used as a coordinate or as a
/// cost: a largest value that doubles as a sentinel, the smallest
/// distinguishable difference, and a value to start from.
pub trait SpaceContinuous: Copy {
    /// The largest value, also used to mean "none".
    const MAX: Self;

    /// Two values closer than this are taken to be the same.
    const EPSILON: Self;

    /// The value of a scalar nobody has set.
    const DEFAULT: Self;
}

/// Coordinates are whole numbers of lattice units.
impl SpaceContinuous for i64 {
    const MAX: Self = COORDINATE_MAX;

    const EPSILON: Self = COORDINATE_EPSILON;

    const DEFAULT: Self = COORDINATE_DEFAULT;
}

/// Costs are unsigned lattice lengths.
impl SpaceContinuous for u64 {
    const MAX: Self = COST_MAX;

    const EPSILON: Self = 1;

    const DEFAULT: Self = 0;
}

/// What a scalar must offer to serve as a measure in the plane: a largest
/// value and the smallest distinguishable difference.
pub trait Metric2D: Copy {
    /// The largest value.
    const MAX: Self;

    /// Two values closer than this are taken to be the same.
    const EPSILON: Self;
}

impl Metric2D for i64 {
    const MAX: Self = COORDINATE_MAX;

    const EPSILON: Self = COORDINATE_EPSILON;
}

impl Metric2D for u64 {
    const MAX: Self = COST_MAX;

    const EPSILON: Self = 1;
}

/// Whether `v` lies in the range of coordinates that a planner accepts.
pub open spec fn coordinate_in_range(v: i64) -> bool {
    -COORDINATE_MAX <= v <= COORDINATE_MAX
}

/// The largest coordinate, as the contract of coordinates gives it.
pub fn largest_coordinate() -> (r: i64)
    ensures
        r == COORDINATE_MAX,
{
    <i64 as SpaceContinuous>::MAX
}

/// The tolerance of coordinates, as their contract gives it.
pub fn coordinate_tolerance() -> (r: i64)
    ensures
        r == COORDINATE_EPSILON,
{
    <i64 as SpaceContinuous>::EPSILON
}

/// The default coordinate, as the contract of coordinates gives it.
pub fn default_coordinate() -> (r: i64)
    ensures
        r == COORDINATE_DEFAULT,
{
    <i64 as SpaceContinuous>::DEFAULT
}

/// The largest cost, as the contract of costs gives it.
pub fn largest_cost() -> (r: u64)
    ensures
        r == COST_MAX,
{
    <u64 as SpaceContinuous>::MAX
}

/// Whether `v` is a coordinate that a planner accepts.
pub fn is_coordinate_in_range(v: i64) -> (r: bool)
    ensures
        r == coordinate_in_range(v),
{
    -largest_coordinate() <= v && v <= largest_coordinate()
}

} // verus!
