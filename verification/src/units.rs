//! Fixed-point world units and the grid arithmetic the collision code rests
//! on.
//!
//! One world unit is `SCALE` subunits, so the skin epsilon of 0.001 world
//! units is exactly `SKIN == 1` subunit. Velocities are subunits per second
//! and time steps are milliseconds, so a displacement is
//! `velocity * dt / 1000`, which is exact integer arithmetic.

use vstd::prelude::*;

verus! {

/// Subunits per world unit.
pub const SCALE: i64 = 1000;

/// Skin epsilon: collision tests keep colliders this far away from tile
/// faces so that a collider resting flush with a boundary is not
/// misclassified as overlapping (0.001 world units).
pub const SKIN: i64 = 1;

/// Largest magnitude a position coordinate may take, in subunits.
pub const POS_LIMIT: i64 = 1_000_000_000;

/// Largest magnitude a velocity component may take, in subunits per second.
pub const VEL_LIMIT: i64 = 10_000_000;

/// Largest tick duration, in milliseconds.
pub const DT_LIMIT: i64 = 10_000;

/// Largest magnitude the grid origin may take, in subunits.
pub const ORIGIN_LIMIT: i64 = 100_000_000;

/// Largest half-extent of a collider, in subunits.
pub const HALF_LIMIT: i64 = 1_000_000;

/// Smallest legal tile size, in subunits.
pub const TS_MIN: i64 = 10;

/// Largest legal tile size, in subunits.
pub const TS_MAX: i64 = 1_000_000;

/// Floor division: the unique `q` with `q * b <= a < (q + 1) * b` for
/// positive `b`. Ghost-code `/` on `int` is Euclidean division, which is
/// exactly floor division when the divisor is positive.
pub open spec fn spec_floor_div(a: int, b: int) -> int {
    a / b
}

/// Euclidean (here: floor) division of a coordinate by a positive tile size.
pub fn floor_div(a: i64, b: i64) -> (q: i64)
    requires
        0 < b < 0x1000_0000_0000_0000,
        -0x1000_0000_0000_0000 < a < 0x1000_0000_0000_0000,
    ensures
        q == spec_floor_div(a as int, b as int),
{
    if a >= 0 {
        a / b
    } else {
        let m: i64 = -a;
        let q: i64 = (m + b - 1) / b;
        proof {
            lemma_neg_ceil_is_floor(a as int, b as int, q as int);
        }
        -q
    }
}

/// What a rate per second amounts to over a tick of `dt` milliseconds:
/// `v * dt / SCALE`, rounded toward zero so that the result is symmetric in
/// the sign of `v`.
pub open spec fn spec_scaled(v: int, dt: int) -> int {
    if v >= 0 {
        v * dt / (SCALE as int)
    } else {
        -((-v) * dt / (SCALE as int))
    }
}

/// Applies a rate per second over a tick of `dt` milliseconds.
pub fn scale_rate(v: i64, dt: i64) -> (d: i64)
    requires
        -1_000_000_000 <= v <= 1_000_000_000,
        0 <= dt <= 10_000_000,
    ensures
        d == spec_scaled(v as int, dt as int),
        v >= 0 ==> 0 <= d,
        v <= 0 ==> d <= 0,
        -10_000_000_000_000 <= d <= 10_000_000_000_000,
{
    proof {
        lemma_spec_scaled_bounds(v as int, dt as int, 1_000_000_000, 10_000_000);
    }
    if v >= 0 {
        (v * dt) / SCALE
    } else {
        -(((-v) * dt) / SCALE)
    }
}

/// Magnitude bound for `spec_scaled`: the tick displacement is no larger
/// than the product of the bounds on the rate and the tick.
pub proof fn lemma_spec_scaled_bounds(v: int, dt: int, vmax: int, dtmax: int)
    requires
        -vmax <= v <= vmax,
        0 <= dt <= dtmax,
        0 <= vmax,
    ensures
        v >= 0 ==> 0 <= spec_scaled(v, dt) <= vmax * dtmax / (SCALE as int),
        v <= 0 ==> -(vmax * dtmax / (SCALE as int)) <= spec_scaled(v, dt) <= 0,
{
    if v >= 0 {
        vstd::arithmetic::div_mod::lemma_div_pos_is_pos(v * dt, SCALE as int);
        assert(v * dt <= vmax * dtmax) by (nonlinear_arith)
            requires
                0 <= v <= vmax,
                0 <= dt <= dtmax,
        ;
        vstd::arithmetic::div_mod::lemma_div_is_ordered(v * dt, vmax * dtmax, SCALE as int);
    } else {
        vstd::arithmetic::div_mod::lemma_div_pos_is_pos((-v) * dt, SCALE as int);
        assert((-v) * dt <= vmax * dtmax) by (nonlinear_arith)
            requires
                0 < -v <= vmax,
                0 <= dt <= dtmax,
        ;
        vstd::arithmetic::div_mod::lemma_div_is_ordered((-v) * dt, vmax * dtmax, SCALE as int);
    }
}

/// For negative `a` and positive `b`, the floor quotient `a / b` is the
/// negated ceiling quotient of the magnitudes.
proof fn lemma_neg_ceil_is_floor(a: int, b: int, q: int)
    requires
        a < 0,
        b > 0,
        q == (-a + b - 1) / b,
    ensures
        a / b == -q,
{
    let m = -a + b - 1;
    vstd::arithmetic::div_mod::lemma_fundamental_div_mod(m, b);
    let r = m % b;
    assert(a == (-q) * b + (b - 1 - r)) by (nonlinear_arith)
        requires
            m == q * b + r,
            m == -a + b - 1,
    ;
    vstd::arithmetic::div_mod::lemma_fundamental_div_mod_converse(a, b, -q, b - 1 - r);
}

} // verus!
