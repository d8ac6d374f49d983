//! Base units of the simulation: fixed-point vectors and angles.
//!
//! Positions are measured on a milli-unit grid (`MILLI` grid cells make one
//! world unit) and angles in milli-degrees (`FULL_TURN` milli-degrees make one
//! full turn).  Both fit comfortably in `i64`, so every geometric computation
//! in the crate is exact integer arithmetic.

use vstd::arithmetic::div_mod::lemma_fundamental_div_mod;
use vstd::arithmetic::div_mod::lemma_fundamental_div_mod_converse_mod;
use vstd::prelude::*;

verus! {

/// Fixed-point scale of one world unit: coordinates, distances and velocities
/// are all counted in thousandths of a unit.
pub const MILLI: i64 = 1000;

/// A full turn, in milli-degrees.
pub const FULL_TURN: i64 = 360_000;

/// Half a turn, in milli-degrees.
pub const HALF_TURN: i64 = 180_000;

/// A quarter turn, in milli-degrees.
pub const QUARTER_TURN: i64 = 90_000;

/// Largest coordinate magnitude the geometry accepts; keeps every squared
/// distance and every intermediate product inside `i64`.
pub const MAX_COORD: i64 = 1_000_000_000;

/// A two-dimensional fixed-point vector, used both for positions and for the
/// extents of the arena.
#[derive(Clone, Copy, Debug, PartialEq, Eq, Structural)]
pub struct Vector {
    pub x: i64,
    pub y: i64,
}

impl Vector {
    /// A vector with both coordinates inside the representable range.
    pub open spec fn bounded(self) -> bool {
        -MAX_COORD <= self.x <= MAX_COORD && -MAX_COORD <= self.y <= MAX_COORD
    }

    /// Valid arena extents: non-negative and representable.
    pub open spec fn spec_valid_bounds(self) -> bool {
        0 <= self.x <= MAX_COORD && 0 <= self.y <= MAX_COORD
    }

    pub fn new(x: i64, y: i64) -> (r: Vector)
        ensures
            r == (Vector { x, y }),
    {
        Vector { x, y }
    }

    /// Whether this vector describes valid arena extents.
    pub fn valid_bounds(&self) -> (r: bool)
        ensures
            r == self.spec_valid_bounds(),
    {
        0 <= self.x && self.x <= MAX_COORD && 0 <= self.y && self.y <= MAX_COORD
    }
}

/// Turns whole degrees into the milli-degree angle unit.
pub open spec fn spec_degrees_to_angle(degrees: int) -> int {
    degrees * 1000
}

/// Turns whole degrees into milli-degrees.
pub fn degrees_to_angle(degrees: i64) -> (r: i64)
    requires
        -9_000_000_000_000 <= degrees <= 9_000_000_000_000,
    ensures
        r == spec_degrees_to_angle(degrees as int),
{
    degrees * 1000
}

/// The canonical representative of an angle, in `[0, FULL_TURN)`.
pub open spec fn spec_normalize_angle(angle: int) -> int {
    angle % (FULL_TURN as int)
}

/// The canonical signed representative of an angle, in
/// `(-HALF_TURN, HALF_TURN]`.
pub open spec fn spec_normalize_signed_angle(angle: int) -> int {
    let m = spec_normalize_angle(angle);
    if m > HALF_TURN {
        m - FULL_TURN
    } else {
        m
    }
}

/// Reduces any angle to its canonical representative in `[0, FULL_TURN)`.
pub fn normalize_angle(angle: i64) -> (r: i64)
    ensures
        r == spec_normalize_angle(angle as int),
        0 <= r < FULL_TURN,
{
    let rem = angle % FULL_TURN;
    if rem < 0 {
        proof {
            lemma_rem_to_euclidean(angle as int);
        }
        rem + FULL_TURN
    } else {
        proof {
            lemma_rem_to_euclidean(angle as int);
        }
        rem
    }
}

/// Reduces any angle to its canonical signed representative in
/// `(-HALF_TURN, HALF_TURN]`.
pub fn normalize_signed_angle(angle: i64) -> (r: i64)
    ensures
        r == spec_normalize_signed_angle(angle as int),
        -HALF_TURN < r <= HALF_TURN,
{
    let m = normalize_angle(angle);
    if m > HALF_TURN {
        m - FULL_TURN
    } else {
        m
    }
}

/// The canonical representatives really lie in their canonical ranges.
pub proof fn lemma_normalize_ranges(a: int)
    ensures
        0 <= spec_normalize_angle(a) < FULL_TURN,
        -HALF_TURN < spec_normalize_signed_angle(a) <= HALF_TURN,
{
    vstd::arithmetic::div_mod::lemma_mod_division_less_than_divisor(a, FULL_TURN as int);
}

/// Magnitude of an integer.
pub open spec fn spec_abs(a: int) -> int {
    if a >= 0 {
        a
    } else {
        -a
    }
}

/// Integer division truncating towards zero, as Rust's `/` computes it on
/// signed operands.
pub open spec fn spec_div_trunc(a: int, b: int) -> int {
    if a >= 0 {
        a / b
    } else {
        -((-a) / b)
    }
}

/// The product `a * b` scaled back down by the fixed-point unit, truncating
/// towards zero.
pub open spec fn spec_scale_milli(a: int, b: int) -> int {
    spec_div_trunc(a * b, MILLI as int)
}

/// Multiplies a coordinate by a milli-scaled factor (such as a sine value in
/// `[-MILLI, MILLI]`) and scales the product back down.
pub fn scale_milli(a: i64, b: i64) -> (r: i64)
    requires
        -MAX_COORD <= a <= MAX_COORD,
        -MILLI <= b <= MILLI,
    ensures
        r == spec_scale_milli(a as int, b as int),
        spec_abs(r as int) <= spec_abs(a as int),
{
    proof {
        lemma_scale_milli_bound(a as int, b as int);
    }
    (a * b) / MILLI
}

/// Scaling by a factor of magnitude at most `MILLI` never grows a value.
proof fn lemma_scale_milli_bound(a: int, b: int)
    requires
        -MAX_COORD <= a <= MAX_COORD,
        -MILLI <= b <= MILLI,
    ensures
        spec_abs(a * b) <= spec_abs(a) * (MILLI as int),
        spec_abs(spec_scale_milli(a, b)) <= spec_abs(a),
        spec_abs(a * b) <= MAX_COORD * (MILLI as int),
{
    let m = MILLI as int;
    assert(spec_abs(a * b) <= spec_abs(a) * m) by (nonlinear_arith)
        requires
            -MAX_COORD <= a <= MAX_COORD,
            -m <= b <= m,
            m == 1000,
    ;
    assert(spec_abs(a) * m <= MAX_COORD * m) by (nonlinear_arith)
        requires
            spec_abs(a) <= MAX_COORD,
            m == 1000,
    ;
    let p = spec_abs(a * b);
    vstd::arithmetic::div_mod::lemma_div_is_ordered(p, spec_abs(a) * m, m);
    vstd::arithmetic::div_mod::lemma_div_multiples_vanish(spec_abs(a), m);
}

/// Relates Rust's truncating remainder on `i64` to the Euclidean remainder
/// used in specifications: for any angle, the truncating remainder is either
/// already the Euclidean one or exactly one period below it.
proof fn lemma_rem_to_euclidean(a: int)
    ensures
        a >= 0 ==> a % (FULL_TURN as int) == a % (360_000 as int),
        a < 0 && -((-a) % (360_000 as int)) == 0 ==> a % (360_000 as int) == 0,
        a < 0 && -((-a) % (360_000 as int)) < 0 ==> a % (360_000 as int) == 360_000 - (-a) % (
        360_000 as int),
{
    let t = 360_000 as int;
    if a < 0 {
        lemma_fundamental_div_mod(-a, t);
        let q = (-a) / t;
        let m = (-a) % t;
        if m == 0 {
            lemma_fundamental_div_mod_converse_mod(a, t, -q, 0);
        } else {
            lemma_fundamental_div_mod_converse_mod(a, t, -q - 1, t - m);
        }
    }
}

} // verus!
