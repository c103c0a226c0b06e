//! Configurations: points of the lattice, their distance, their equality and
//! their canonical text.
use vstd::prelude::*;
use vstd::std_specs::cmp::PartialEqSpecImpl;
use vstd::string::StringExecFns;
use crate::text::{
    decimal, is_decimal_char, lemma_decimal_injective, lemma_decimal_shape, push_decimal,
};
use crate::types::{
    coordinate_in_range, coordinate_tolerance, default_coordinate, is_coordinate_in_range,
    COORDINATE_DEFAULT, COORDINATE_EPSILON,
};

verus! {

/// A configuration: a pair of lattice coordinates.
#[derive(Debug, Clone, Copy)]
pub struct Point {
    pub x: i64,
    pub y: i64,
}

/// The largest `r` whose square does not exceed `n`.
pub open spec fn floor_sqrt(n: nat) -> nat
    decreases n,
{
    if n == 0 {
        0
    } else {
        let r = floor_sqrt((n - 1) as nat);
        if (r + 1) * (r + 1) <= n {
            r + 1
        } else {
            r
        }
    }
}

/// The square of the straight-line distance between `a` and `b`.
pub open spec fn squared_distance(a: Point, b: Point) -> nat {
    ((a.x - b.x) * (a.x - b.x) + (a.y - b.y) * (a.y - b.y)) as nat
}

/// The straight-line distance between `a` and `b`, rounded down to whole
/// lattice units and capped at the largest cost.
pub open spec fn distance(a: Point, b: Point) -> u64 {
    let d = floor_sqrt(squared_distance(a, b));
    if d > u64::MAX {
        u64::MAX
    } else {
        d as u64
    }
}

/// Whether `a` and `b` differ by less than the tolerance on both axes.
pub open spec fn within_epsilon(a: Point, b: Point) -> bool {
    &&& -COORDINATE_EPSILON < a.x - b.x < COORDINATE_EPSILON
    &&& -COORDINATE_EPSILON < a.y - b.y < COORDINATE_EPSILON
}

/// Whether both coordinates of `p` lie in the range a planner accepts.
pub open spec fn in_range(p: Point) -> bool {
    coordinate_in_range(p.x) && coordinate_in_range(p.y)
}

/// The canonical text of `p`: the word POINT, then both coordinates in
/// decimal between round brackets, a space between them.
pub open spec fn wkt_text(p: Point) -> Seq<char> {
    seq!['P', 'O', 'I', 'N', 'T', '('] + decimal(p.x as int) + seq![' '] + decimal(p.y as int)
        + seq![')']
}

/// `floor_sqrt(n)` squared does not exceed `n`, and the next square does.
pub proof fn lemma_floor_sqrt_bounds(n: nat)
    ensures
        floor_sqrt(n) * floor_sqrt(n) <= n,
        n < (floor_sqrt(n) + 1) * (floor_sqrt(n) + 1),
    decreases n,
{
    if n > 0 {
        lemma_floor_sqrt_bounds((n - 1) as nat);
        let r = floor_sqrt((n - 1) as nat);
        let s = floor_sqrt(n);
        if (r + 1) * (r + 1) <= n {
            assert(s == r + 1);
            assert(n < (s + 1) * (s + 1)) by (nonlinear_arith)
                requires
                    n <= (r + 1) * (r + 1),
                    s == r + 1,
            ;
        } else {
            assert(s == r);
            assert(n < (s + 1) * (s + 1)) by (nonlinear_arith)
                requires
                    n < (r + 1) * (r + 1),
                    s == r,
            ;
            assert(s * s <= n) by (nonlinear_arith)
                requires
                    r * r <= n,
                    s == r,
            ;
        }
    } else {
        assert(floor_sqrt(n) == 0);
        assert((0 + 1) * (0 + 1) == 1) by (nonlinear_arith);
    }
}

/// Only one number has its square at or below `n` and its successor's
/// square above: `floor_sqrt(n)`.
pub proof fn lemma_floor_sqrt_unique(n: nat, r: nat)
    requires
        r * r <= n,
        n < (r + 1) * (r + 1),
    ensures
        floor_sqrt(n) == r,
{
    lemma_floor_sqrt_bounds(n);
    let s = floor_sqrt(n);
    if s < r {
        assert((s + 1) * (s + 1) <= r * r) by (nonlinear_arith)
            requires
                s + 1 <= r,
        ;
    }
    if r < s {
        assert((r + 1) * (r + 1) <= s * s) by (nonlinear_arith)
            requires
                r + 1 <= s,
        ;
    }
}

/// The square root of `n`, rounded down.
pub fn integer_sqrt(n: u128) -> (r: u64)
    ensures
        r == floor_sqrt(n as nat),
{
    let mut lo: u128 = 0;
    let mut hi: u128 = 0x1_0000_0000_0000_0000;
    assert(0x1_0000_0000_0000_0000u128 * 0x1_0000_0000_0000_0000u128 > u128::MAX) by (nonlinear_arith);
    while hi - lo > 1
        invariant
            lo < hi <= 0x1_0000_0000_0000_0000,
            lo * lo <= n,
            n < hi * hi,
        decreases hi - lo,
    {
        let mid: u128 = lo + (hi - lo) / 2;
        assert(mid * mid <= 0xffff_ffff_ffff_ffffu128 * 0xffff_ffff_ffff_ffffu128) by (nonlinear_arith)
            requires
                mid <= 0xffff_ffff_ffff_ffffu128,
        ;
        assert(0xffff_ffff_ffff_ffffu128 * 0xffff_ffff_ffff_ffffu128 <= u128::MAX) by (nonlinear_arith);
        if mid * mid <= n {
            lo = mid;
        } else {
            hi = mid;
        }
    }
    proof {
        lemma_floor_sqrt_unique(n as nat, lo as nat);
    }
    lo as u64
}

/// The distance between two coordinates on one axis.
fn axis_gap(a: i64, b: i64) -> (r: u64)
    ensures
        r == if a >= b { a - b } else { b - a },
{
    if a >= b {
        (a as i128 - b as i128) as u64
    } else {
        (b as i128 - a as i128) as u64
    }
}

impl Point {
    /// The point with the given coordinates.
    pub fn new(x: i64, y: i64) -> (p: Self)
        ensures
            p.x == x,
            p.y == y,
    {
        Point { x, y }
    }

    /// The first coordinate.
    pub fn get_x(&self) -> (r: i64)
        ensures
            r == self.x,
    {
        self.x
    }

    /// The second coordinate.
    pub fn get_y(&self) -> (r: i64)
        ensures
            r == self.y,
    {
        self.y
    }

    /// Whether both coordinates lie in the range a planner accepts.
    pub fn is_in_range(&self) -> (r: bool)
        ensures
            r == in_range(*self),
    {
        is_coordinate_in_range(self.x) && is_coordinate_in_range(self.y)
    }

    /// The canonical text of this point, by which a roadmap tells whether
    /// it holds the point already.
    pub fn to_wkt(&self) -> (s: String)
        ensures
            s@ == wkt_text(*self),
    {
        proof {
            reveal_strlit("POINT(");
            reveal_strlit(" ");
            reveal_strlit(")");
        }
        let mut s = String::from_str("POINT(");
        assert(s@ =~= seq!['P', 'O', 'I', 'N', 'T', '(']);
        push_decimal(&mut s, self.x);
        s.append(" ");
        push_decimal(&mut s, self.y);
        s.append(")");
        assert(s@ =~= wkt_text(*self));
        s
    }

    /// The straight-line distance to `other`, rounded down to whole lattice
    /// units; the largest cost if the distance exceeds it.
    pub fn euclidean_distance(&self, other: &Point) -> (d: u64)
        ensures
            d == distance(*self, *other),
    {
        let dx: u128 = axis_gap(self.get_x(), other.get_x()) as u128;
        let dy: u128 = axis_gap(self.get_y(), other.get_y()) as u128;
        assert(dx * dx <= u128::MAX && dx * dx == (self.x - other.x) * (self.x - other.x))
            by (nonlinear_arith)
            requires
                dx <= 0xffff_ffff_ffff_ffffu128,
                dx == self.x - other.x || dx == other.x - self.x,
        ;
        assert(dy * dy <= u128::MAX && dy * dy == (self.y - other.y) * (self.y - other.y))
            by (nonlinear_arith)
            requires
                dy <= 0xffff_ffff_ffff_ffffu128,
                dy == self.y - other.y || dy == other.y - self.y,
        ;
        let xx: u128 = dx * dx;
        let yy: u128 = dy * dy;
        match xx.checked_add(yy) {
            Some(sum) => integer_sqrt(sum),
            None => {
                proof {
                    let n = squared_distance(*self, *other);
                    lemma_floor_sqrt_bounds(n);
                    let s = floor_sqrt(n);
                    if s <= u64::MAX {
                        assert((s + 1) * (s + 1) <= 0x1_0000_0000_0000_0000 * 0x1_0000_0000_0000_0000)
                            by (nonlinear_arith)
                            requires
                                s + 1 <= 0x1_0000_0000_0000_0000,
                        ;
                        assert(0x1_0000_0000_0000_0000 * 0x1_0000_0000_0000_0000 == u128::MAX + 1)
                            by (nonlinear_arith);
                    }
                }
                u64::MAX
            },
        }
    }
}

impl PartialEq for Point {
    /// Two points are equal when they differ by less than the tolerance on
    /// both axes.
    fn eq(&self, other: &Self) -> (r: bool) {
        let tolerance: u64 = coordinate_tolerance() as u64;
        let eq_x: bool = axis_gap(self.x, other.x) < tolerance;
        let eq_y: bool = axis_gap(self.y, other.y) < tolerance;
        eq_x && eq_y
    }
}

impl PartialEqSpecImpl for Point {
    open spec fn obeys_eq_spec() -> bool {
        true
    }

    open spec fn eq_spec(&self, other: &Self) -> bool {
        within_epsilon(*self, *other)
    }
}

impl Default for Point {
    /// The point whose coordinates are both the default coordinate.
    fn default() -> (p: Self)
        ensures
            p.x == COORDINATE_DEFAULT,
            p.y == COORDINATE_DEFAULT,
    {
        Point { x: default_coordinate(), y: default_coordinate() }
    }
}

/// The canonical text tells points apart: two points with the same text
/// are the same point.
pub proof fn lemma_wkt_text_injective(a: Point, b: Point)
    requires
        wkt_text(a) == wkt_text(b),
    ensures
        a == b,
{
    let ax = decimal(a.x as int);
    let ay = decimal(a.y as int);
    let bx = decimal(b.x as int);
    let by = decimal(b.y as int);
    let ta = wkt_text(a);
    let tb = wkt_text(b);
    lemma_decimal_shape(a.x as int);
    lemma_decimal_shape(a.y as int);
    lemma_decimal_shape(b.x as int);
    lemma_decimal_shape(b.y as int);
    assert(ta.len() == 6 + ax.len() + 1 + ay.len() + 1);
    assert(tb.len() == 6 + bx.len() + 1 + by.len() + 1);
    assert(ta[6 + ax.len() as int] == ' ');
    assert(tb[6 + bx.len() as int] == ' ');
    if ax.len() < bx.len() {
        assert(tb[6 + ax.len() as int] == bx[ax.len() as int]);
        assert(is_decimal_char(bx[ax.len() as int]));
        assert(false);
    }
    if bx.len() < ax.len() {
        assert(ta[6 + bx.len() as int] == ax[bx.len() as int]);
        assert(is_decimal_char(ax[bx.len() as int]));
        assert(false);
    }
    assert(ax =~= ta.subrange(6, 6 + ax.len() as int));
    assert(bx =~= tb.subrange(6, 6 + bx.len() as int));
    lemma_decimal_injective(a.x as int, b.x as int);
    let from = 6 + ax.len() as int + 1;
    assert(ay =~= ta.subrange(from, from + ay.len() as int));
    assert(by =~= tb.subrange(from, from + by.len() as int));
    lemma_decimal_injective(a.y as int, b.y as int);
}

/// At the lattice's tolerance, two points are equal exactly when their
/// coordinates are.
pub proof fn lemma_within_epsilon_is_identity(a: Point, b: Point)
    ensures
        within_epsilon(a, b) <==> a == b,
{
}

/// Between points in range the distance is never capped.
pub proof fn lemma_distance_in_range(a: Point, b: Point)
    requires
        in_range(a),
        in_range(b),
    ensures
        distance(a, b) == floor_sqrt(squared_distance(a, b)),
        distance(a, b) < 0x4000_0000_0000_0000,
{
    let n = squared_distance(a, b);
    lemma_floor_sqrt_bounds(n);
    let s = floor_sqrt(n);
    let dx = a.x - b.x;
    let dy = a.y - b.y;
    let m: int = 0x2000_0000_0000_0000;
    assert(0 <= dx * dx <= m * m) by (nonlinear_arith)
        requires
            -m <= dx <= m,
    ;
    assert(0 <= dy * dy <= m * m) by (nonlinear_arith)
        requires
            -m <= dy <= m,
    ;
    assert(n == dx * dx + dy * dy);
    if s >= 2 * m {
        assert(s * s >= 4 * (m * m)) by (nonlinear_arith)
            requires
                s >= 2 * m,
                m >= 0,
        ;
        assert(m * m > 0) by (nonlinear_arith)
            requires
                m > 0,
        ;
        assert(false);
    }
}

} // verus!
