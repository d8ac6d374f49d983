//! Integer approximations of the square root, sine, cosine and arc tangent,
//! together with the exact specification each one computes.
//!
//! The simulation defines its geometry directly over these fixed-point
//! functions, so they are the single source of truth for what a distance or a
//! bearing *is* in this model: sine and cosine are milli-scaled rational
//! approximations that are exact at every multiple of a quarter turn, and the
//! arc tangent is exact on the axes and the diagonals.

use crate::types::spec_abs;
use crate::types::spec_normalize_angle;
use crate::types::spec_scale_milli;
use crate::types::Vector;
use crate::types::FULL_TURN;
use crate::types::HALF_TURN;
use crate::types::MAX_COORD;
use crate::types::MILLI;
use crate::types::QUARTER_TURN;
use vstd::arithmetic::div_mod::lemma_div_is_ordered;
use vstd::arithmetic::div_mod::lemma_div_multiples_vanish;
use vstd::arithmetic::div_mod::lemma_fundamental_div_mod_converse_mod;
use vstd::prelude::*;

verus! {

/// The non-negative integer square root: the unique `r` with
/// `r * r <= n < (r + 1) * (r + 1)`.
pub open spec fn spec_isqrt(n: int) -> int {
    choose|r: int| 0 <= r && #[trigger] (r * r) <= n && n < (r + 1) * (r + 1)
}

/// Any integer satisfying the square-root bracketing is the integer square
/// root.
pub proof fn lemma_isqrt_is(n: int, r: int)
    requires
        0 <= r,
        r * r <= n,
        n < (r + 1) * (r + 1),
    ensures
        spec_isqrt(n) == r,
{
    assert(0 <= r && r * r <= n && n < (r + 1) * (r + 1));
    assert(exists|q: int| 0 <= q && #[trigger] (q * q) <= n && n < (q + 1) * (q + 1));
    let q = spec_isqrt(n);
    assert(q == r) by (nonlinear_arith)
        requires
            0 <= r,
            0 <= q,
            r * r <= n,
            n < (r + 1) * (r + 1),
            q * q <= n,
            n < (q + 1) * (q + 1),
    ;
}

/// Computes the integer square root by binary search.
pub fn isqrt(n: u64) -> (r: u64)
    ensures
        r * r <= n < (r + 1) * (r + 1),
        r == spec_isqrt(n as int),
{
    let mut lo: u64 = 0;
    let mut hi: u64 = 4_294_967_296;
    while lo + 1 < hi
        invariant
            lo < hi <= 4_294_967_296,
            lo * lo <= n,
            n < hi * hi,
        decreases hi - lo,
    {
        let mid = lo + (hi - lo) / 2;
        proof {
            assert((mid as int) * (mid as int) <= 0xffff_fffe_0000_0001) by (nonlinear_arith)
                requires
                    0 <= mid as int <= 4_294_967_295,
            ;
        }
        if mid * mid <= n {
            lo = mid;
        } else {
            hi = mid;
        }
    }
    proof {
        lemma_isqrt_is(n as int, lo as int);
    }
    lo
}

/// Milli-scaled sine on the first half turn: a rational approximation that is
/// exact at `0`, `QUARTER_TURN` and `HALF_TURN` and stays within `MILLI`.
pub open spec fn spec_sin_half(a: int) -> int {
    let n1 = a * (180_000 - a);
    (16_000 * n1) / (162_000_000_000 - 4 * n1)
}

fn sin_half(a: u64) -> (r: u64)
    requires
        a <= 180_000,
    ensures
        r == spec_sin_half(a as int),
        r <= 1000,
{
    proof {
        lemma_sin_half_bounds(a as int);
    }
    let n1 = a * (180_000 - a);
    let num = 16_000 * n1;
    let den = 162_000_000_000 - 4 * n1;
    num / den
}

proof fn lemma_sin_half_bounds(a: int)
    requires
        0 <= a <= 180_000,
    ensures
        0 <= a * (180_000 - a) <= 8_100_000_000,
        spec_sin_half(a) <= 1000,
        spec_sin_half(a) >= 0,
{
    let n1 = a * (180_000 - a);
    assert(0 <= n1 <= 8_100_000_000) by (nonlinear_arith)
        requires
            0 <= a <= 180_000,
            n1 == a * (180_000 - a),
    ;
    let num = 16_000 * n1;
    let den = 162_000_000_000 - 4 * n1;
    assert(num <= 1000 * den) by (nonlinear_arith)
        requires
            n1 <= 8_100_000_000,
            num == 16_000 * n1,
            den == 162_000_000_000 - 4 * n1,
    ;
    lemma_div_is_ordered(num, 1000 * den, den);
    lemma_div_multiples_vanish(1000, den);
    vstd::arithmetic::div_mod::lemma_div_pos_is_pos(num, den);
}

/// Milli-scaled sine of a canonical angle in `[0, FULL_TURN)`.
pub open spec fn spec_sin(a: int) -> int {
    if a <= 180_000 {
        spec_sin_half(a)
    } else {
        -spec_sin_half(a - 180_000)
    }
}

/// Milli-scaled cosine of a canonical angle, as the sine shifted by a quarter
/// turn.
pub open spec fn spec_cos(a: int) -> int {
    spec_sin(spec_normalize_angle(a + 90_000))
}

/// Computes the milli-scaled sine of a canonical angle.
pub fn sin_milli(a: i64) -> (r: i64)
    requires
        0 <= a < FULL_TURN,
    ensures
        r == spec_sin(a as int),
        -MILLI <= r <= MILLI,
{
    if a <= 180_000 {
        sin_half(a as u64) as i64
    } else {
        -(sin_half((a - 180_000) as u64) as i64)
    }
}

/// Computes the milli-scaled cosine of a canonical angle.
pub fn cos_milli(a: i64) -> (r: i64)
    requires
        0 <= a < FULL_TURN,
    ensures
        r == spec_cos(a as int),
        -MILLI <= r <= MILLI,
{
    let shifted = a + QUARTER_TURN;
    let canonical = if shifted >= FULL_TURN {
        shifted - FULL_TURN
    } else {
        shifted
    };
    proof {
        let t = FULL_TURN as int;
        if shifted >= FULL_TURN {
            lemma_fundamental_div_mod_converse_mod(shifted as int, t, 1, shifted - t);
        } else {
            lemma_fundamental_div_mod_converse_mod(shifted as int, t, 0, shifted as int);
        }
    }
    sin_milli(canonical)
}

/// Milli-degree arc tangent on the first octant (`0 <= ay <= ax`): the
/// polynomial approximation underlying every bearing in the model, exact at
/// `0` and on the diagonal.
pub open spec fn spec_atan_octant(ay: int, ax: int) -> int {
    let t = (ay * 100_000) / ax;
    let c = (t * (100_000 - t)) / 100_000;
    let d = 14_020 + (3_799 * t) / 100_000;
    (45_000 * t) / 100_000 + (c * d) / 100_000
}

fn atan_octant(ay: u64, ax: u64) -> (r: u64)
    requires
        1 <= ax <= 2_000_000_000,
        ay <= ax,
    ensures
        r == spec_atan_octant(ay as int, ax as int),
        r <= 49_500,
{
    proof {
        lemma_atan_octant_bounds(ay as int, ax as int);
    }
    let t = (ay * 100_000) / ax;
    proof {
        assert(0 <= (t as int) * (100_000 - t as int) <= 2_500_000_000) by (nonlinear_arith)
            requires
                0 <= t as int <= 100_000,
        ;
        lemma_div_is_ordered((t as int) * (100_000 - t as int), 2_500_000_000, 100_000);
        lemma_div_multiples_vanish(25_000, 100_000);
        vstd::arithmetic::div_mod::lemma_div_pos_is_pos((t as int) * (100_000 - t as int), 100_000);
        assert(0 <= 3_799 * (t as int) <= 379_900_000) by (nonlinear_arith)
            requires
                0 <= t as int <= 100_000,
        ;
        lemma_div_is_ordered(3_799 * (t as int), 379_900_000, 100_000);
        lemma_div_multiples_vanish(3_799, 100_000);
        vstd::arithmetic::div_mod::lemma_div_pos_is_pos(3_799 * (t as int), 100_000);
    }
    let c = (t * (100_000 - t)) / 100_000;
    let d = 14_020 + (3_799 * t) / 100_000;
    proof {
        assert(0 <= (c as int) * (d as int) <= 445_500_000) by (nonlinear_arith)
            requires
                0 <= c as int <= 25_000,
                14_020 <= d as int <= 17_819,
        ;
        lemma_div_is_ordered((c as int) * (d as int), 445_500_000, 100_000);
        lemma_div_multiples_vanish(4_455, 100_000);
        vstd::arithmetic::div_mod::lemma_div_pos_is_pos((c as int) * (d as int), 100_000);
        assert(0 <= 45_000 * (t as int) <= 4_500_000_000) by (nonlinear_arith)
            requires
                0 <= t as int <= 100_000,
        ;
        lemma_div_is_ordered(45_000 * (t as int), 4_500_000_000, 100_000);
        lemma_div_multiples_vanish(45_000, 100_000);
        vstd::arithmetic::div_mod::lemma_div_pos_is_pos(45_000 * (t as int), 100_000);
    }
    (45_000 * t) / 100_000 + (c * d) / 100_000
}

proof fn lemma_atan_octant_bounds(ay: int, ax: int)
    requires
        1 <= ax <= 2_000_000_000,
        0 <= ay <= ax,
    ensures
        0 <= (ay * 100_000) / ax <= 100_000,
{
    let k = 100_000;
    assert(0 <= ay * k <= ax * k) by (nonlinear_arith)
        requires
            0 <= ay <= ax,
            k == 100_000,
    ;
    lemma_div_is_ordered(ay * k, ax * k, ax);
    lemma_div_multiples_vanish(k, ax);
    vstd::arithmetic::div_mod::lemma_div_pos_is_pos(ay * k, ax);

}

/// Milli-degree bearing of the point `(x, y)` from the origin, in
/// `(-HALF_TURN, HALF_TURN]`, built from the octant arc tangent by quadrant
/// symmetry.
pub open spec fn spec_atan2(y: int, x: int) -> int {
    let ax = spec_abs(x);
    let ay = spec_abs(y);
    let base = if ay <= ax {
        spec_atan_octant(ay, ax)
    } else {
        90_000 - spec_atan_octant(ax, ay)
    };
    let q = if x >= 0 {
        base
    } else {
        180_000 - base
    };
    if y >= 0 {
        q
    } else if q == 180_000 {
        180_000
    } else {
        -q
    }
}

/// Computes the milli-degree bearing of `(x, y)` from the origin.
pub fn atan2_milli(y: i64, x: i64) -> (r: i64)
    requires
        -MAX_COORD <= x <= MAX_COORD,
        -MAX_COORD <= y <= MAX_COORD,
        !(x == 0 && y == 0),
    ensures
        r == spec_atan2(y as int, x as int),
        -HALF_TURN < r <= HALF_TURN,
{
    let ax = if x >= 0 {
        x
    } else {
        -x
    };
    let ay = if y >= 0 {
        y
    } else {
        -y
    };
    let base = if ay <= ax {
        atan_octant(ay as u64, ax as u64) as i64
    } else {
        90_000 - (atan_octant(ax as u64, ay as u64) as i64)
    };
    let q = if x >= 0 {
        base
    } else {
        180_000 - base
    };
    if y >= 0 {
        q
    } else if q == 180_000 {
        180_000
    } else {
        -q
    }
}

/// Where the rotation of `v` by `angle` lands, coordinate by coordinate:
/// each output coordinate is the milli-scaled combination of the inputs with
/// the sine and cosine of the canonical angle.
pub open spec fn spec_rotate(v: Vector, angle: int) -> (int, int) {
    let a = spec_normalize_angle(angle);
    let c = spec_cos(a);
    let s = spec_sin(a);
    (
        spec_scale_milli(v.x as int, c) - spec_scale_milli(v.y as int, s),
        spec_scale_milli(v.x as int, s) + spec_scale_milli(v.y as int, c),
    )
}

/// Rotates a vector by the given angle.
pub fn rotate_by_angle(v: Vector, angle: i64) -> (r: Vector)
    requires
        v.bounded(),
    ensures
        (r.x as int, r.y as int) == spec_rotate(v, angle as int),
        spec_abs(r.x as int) <= spec_abs(v.x as int) + spec_abs(v.y as int),
        spec_abs(r.y as int) <= spec_abs(v.x as int) + spec_abs(v.y as int),
{
    let a = crate::types::normalize_angle(angle);
    let c = cos_milli(a);
    let s = sin_milli(a);
    let x = crate::types::scale_milli(v.x, c) - crate::types::scale_milli(v.y, s);
    let y = crate::types::scale_milli(v.x, s) + crate::types::scale_milli(v.y, c);
    Vector { x, y }
}

} // verus!
