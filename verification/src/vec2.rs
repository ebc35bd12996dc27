//! Plane vectors over integer coordinates.
//!
//! Positions are kept in milli-pixels: one unit is a thousandth of a pixel.
//! Coordinates of well-formed vectors stay within `POS_LIMIT`; intermediate
//! sums may range a few times wider before they are clamped back.

use vstd::prelude::*;

verus! {

/// Largest coordinate of a well-formed position, in milli-pixels.
pub const POS_LIMIT: i64 = 1_000_000_000;

/// Largest coordinate an intermediate vector may reach before clamping.
pub const WIDE_LIMIT: i64 = 4_000_000_000;

#[derive(Clone, Copy, PartialEq, Eq, Structural, Debug)]
pub struct Vec2 {
    pub x: i64,
    pub y: i64,
}

impl Vec2 {
    /// Both coordinates lie within `POS_LIMIT`.
    pub open spec fn wf(self) -> bool {
        -POS_LIMIT <= self.x <= POS_LIMIT && -POS_LIMIT <= self.y <= POS_LIMIT
    }

    /// Both coordinates lie within `WIDE_LIMIT`.
    pub open spec fn wide(self) -> bool {
        -WIDE_LIMIT <= self.x <= WIDE_LIMIT && -WIDE_LIMIT <= self.y <= WIDE_LIMIT
    }

    pub fn new(x: i64, y: i64) -> (v: Vec2)
        ensures
            v == (Vec2 { x, y }),
    {
        Vec2 { x, y }
    }

    pub fn zero() -> (v: Vec2)
        ensures
            v == (Vec2 { x: 0i64, y: 0i64 }),
    {
        Vec2 { x: 0, y: 0 }
    }

    pub fn plus(self, other: Vec2) -> (v: Vec2)
        requires
            self.wide(),
            other.wide(),
        ensures
            v.x == self.x + other.x,
            v.y == self.y + other.y,
    {
        Vec2 { x: self.x + other.x, y: self.y + other.y }
    }

    pub fn minus(self, other: Vec2) -> (v: Vec2)
        requires
            self.wide(),
            other.wide(),
        ensures
            v.x == self.x - other.x,
            v.y == self.y - other.y,
    {
        Vec2 { x: self.x - other.x, y: self.y - other.y }
    }

    /// Squared distance between two points, exact in wide range.
    pub fn square_dist(self, other: Vec2) -> (d: i128)
        requires
            self.wide(),
            other.wide(),
        ensures
            d == spec_square_dist(self, other),
            d >= 0,
    {
        let dx: i128 = self.x as i128 - other.x as i128;
        let dy: i128 = self.y as i128 - other.y as i128;
        proof {
            lemma_square_bound(dx as int, 2 * WIDE_LIMIT as int);
            lemma_square_bound(dy as int, 2 * WIDE_LIMIT as int);
        }
        dx * dx + dy * dy
    }

    /// Clamp both coordinates back into the well-formed range.
    pub fn clamped(self) -> (v: Vec2)
        ensures
            v.x == spec_clamp(self.x as int),
            v.y == spec_clamp(self.y as int),
            v.wf(),
    {
        Vec2 { x: clamp_coord(self.x), y: clamp_coord(self.y) }
    }
}

pub open spec fn spec_square_dist(a: Vec2, b: Vec2) -> int {
    (a.x - b.x) * (a.x - b.x) + (a.y - b.y) * (a.y - b.y)
}

pub open spec fn spec_clamp(x: int) -> int {
    if x < -POS_LIMIT {
        -POS_LIMIT as int
    } else if x > POS_LIMIT {
        POS_LIMIT as int
    } else {
        x
    }
}

fn clamp_coord(x: i64) -> (r: i64)
    ensures
        r == spec_clamp(x as int),
{
    if x < -POS_LIMIT {
        -POS_LIMIT
    } else if x > POS_LIMIT {
        POS_LIMIT
    } else {
        x
    }
}

proof fn lemma_square_bound(x: int, m: int)
    requires
        -m <= x <= m,
        0 <= m,
    ensures
        0 <= x * x <= m * m,
{
    assert(0 <= x * x && x * x <= m * m) by (nonlinear_arith)
        requires
            -m <= x <= m && 0 <= m,
    ;
}

} // verus!
