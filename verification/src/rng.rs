//! Random draws for the behavior engine.
//!
//! The engine needs randomness for wander offsets, starting positions and
//! dialogue choice. One call reaches outside for a raw machine word; every
//! reduction to a range is verified here, and every caller's contract
//! states only what holds of all outcomes.

use vstd::prelude::*;
use crate::vec2::{Vec2, POS_LIMIT};

verus! {

/// Relies on rand::random: a uniformly sampled machine word; nothing is
/// promised of its value.
#[verifier::external_body]
fn random_u64() -> u64 {
    rand::random::<u64>()
}

/// A random value below a positive bound.
pub fn random_below(n: u64) -> (r: u64)
    requires
        n > 0,
    ensures
        r < n,
{
    random_u64() % n
}

/// A random index into a non-empty sequence of `n` choices.
pub fn random_index(n: usize) -> (r: usize)
    requires
        n > 0,
    ensures
        r < n,
{
    (random_below(n as u64)) as usize
}

/// A random offset inside the disk of the given radius: its length stays
/// strictly below the radius. Candidates are drawn from the surrounding
/// square until one lands inside; after a run of misses the center stands.
pub fn random_offset(radius: i64) -> (v: Vec2)
    requires
        0 < radius <= POS_LIMIT,
    ensures
        -radius < v.x < radius,
        -radius < v.y < radius,
        v.x * v.x + v.y * v.y < radius * radius,
{
    let span = (2 * radius - 1) as u64;
    let mut tries: usize = 0;
    while tries < 64
        invariant
            0 < radius <= POS_LIMIT,
            span == 2 * radius - 1,
        decreases 64 - tries,
    {
        let x = (random_below(span) as i64) - (radius - 1);
        let y = (random_below(span) as i64) - (radius - 1);
        proof {
            lemma_coord_square_bounds(x as int, y as int, radius as int);
        }
        if x * x + y * y < radius * radius {
            return Vec2 { x, y };
        }
        tries = tries + 1;
    }
    proof {
        lemma_coord_square_bounds(0, 0, radius as int);
    }
    Vec2 { x: 0, y: 0 }
}

/// Coordinates within a radius square to less than the radius squared.
proof fn lemma_coord_square_bounds(x: int, y: int, r: int)
    requires
        0 < r <= POS_LIMIT,
        -r < x < r,
        -r < y < r,
    ensures
        0 <= x * x,
        0 <= y * y,
        0 < r * r,
        x * x + y * y < 2 * r * r,
        r * r <= 1_000_000_000_000_000_000,
        2 * r * r <= 2_000_000_000_000_000_000,
{
    assert(0 <= x * x && x * x <= (r - 1) * (r - 1)) by (nonlinear_arith)
        requires
            -r < x < r && 0 < r,
    ;
    assert(0 <= y * y && y * y <= (r - 1) * (r - 1)) by (nonlinear_arith)
        requires
            -r < y < r && 0 < r,
    ;
    assert(0 < r * r && (r - 1) * (r - 1) + (r - 1) * (r - 1) < 2 * r * r) by (nonlinear_arith)
        requires
            0 < r,
    ;
    assert(r * r <= 1_000_000_000 * 1_000_000_000 && 2 * r * r <= 2 * 1_000_000_000
        * 1_000_000_000) by (nonlinear_arith)
        requires
            0 < r <= 1_000_000_000,
    ;
}

/// A random point inside a rectangle given by its origin and positive size.
pub fn random_pos_in(x: i64, y: i64, w: i64, h: i64) -> (v: Vec2)
    requires
        -POS_LIMIT <= x <= POS_LIMIT,
        -POS_LIMIT <= y <= POS_LIMIT,
        0 < w <= POS_LIMIT,
        0 < h <= POS_LIMIT,
    ensures
        x <= v.x < x + w,
        y <= v.y < y + h,
{
    let dx = random_below(w as u64) as i64;
    let dy = random_below(h as u64) as i64;
    Vec2 { x: x + dx, y: y + dy }
}

} // verus!
