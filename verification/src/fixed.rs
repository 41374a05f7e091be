//! Fixed-point arithmetic helpers.
//!
//! World coordinates are integers scaled by 1000 (`params::UNIT`), angles are
//! milliradians, and time is in milliseconds.  Every helper here mirrors its
//! specification exactly, so callers can reason about the simulation step by
//! step without any floating point.

use vstd::prelude::*;

verus! {

use crate::params::{FRICTION_PPM_PER_MS, PPM};
use vstd::arithmetic::div_mod::{
    lemma_div_is_ordered, lemma_div_pos_is_pos, lemma_fundamental_div_mod,
    lemma_fundamental_div_mod_converse, lemma_mod_bound,
};

/// The value `x` forced into the interval `[lo, hi]`.
pub open spec fn spec_clamp(x: int, lo: int, hi: int) -> int {
    if x < lo {
        lo
    } else if x > hi {
        hi
    } else {
        x
    }
}

/// Magnitude of `x`.
pub open spec fn spec_abs(x: int) -> int {
    if x < 0 {
        -x
    } else {
        x
    }
}

/// Magnitude of `x`.
pub fn abs_i64(x: i64) -> (r: i64)
    requires
        x > i64::MIN,
    ensures
        r == spec_abs(x as int),
{
    if x < 0 {
        -x
    } else {
        x
    }
}

/// Clamp `x` into `[lo, hi]`.
pub fn clamp_i64(x: i64, lo: i64, hi: i64) -> (r: i64)
    requires
        lo <= hi,
    ensures
        r == spec_clamp(x as int, lo as int, hi as int),
{
    if x < lo {
        lo
    } else if x > hi {
        hi
    } else {
        x
    }
}

/// Division rounding toward negative infinity.  For a positive divisor this
/// agrees with the Euclidean `/` of specifications, which is how the grid
/// maps a world coordinate to a cell index.
pub fn floor_div(a: i64, b: i64) -> (r: i64)
    requires
        b > 0,
        a > i64::MIN + b,
    ensures
        r == a as int / b as int,
{
    if a >= 0 {
        a / b
    } else {
        let q: i64 = -((-a - 1) / b) - 1;
        proof {
            let n = (-a - 1) as int;
            let bi = b as int;
            let k = n / bi;
            let r0 = n % bi;
            lemma_fundamental_div_mod(n, bi);
            lemma_mod_bound(n, bi);
            assert((-k - 1) * bi + (bi - r0 - 1) == -(bi * k + r0) - 1) by (nonlinear_arith) {}
            lemma_fundamental_div_mod_converse(a as int, bi, -k - 1, bi - r0 - 1);
        }
        q
    }
}

/// Truncating scale by one world unit: `a * b / 1000`, rounded toward zero.
/// Used to project a speed onto a direction component and to advance a
/// position by `velocity * dt`.
pub open spec fn spec_mul_unit(a: int, b: int) -> int {
    if a * b >= 0 {
        a * b / 1000
    } else {
        -((-(a * b)) / 1000)
    }
}

/// Truncating scale by parts-per-million: `v * f / 1_000_000`, rounded
/// toward zero.  Used for the per-frame friction decay.
pub open spec fn spec_scale_ppm(v: int, f: int) -> int {
    if v >= 0 {
        v * f / 1000000
    } else {
        -((-v) * f / 1000000)
    }
}

/// `a * b / 1000` rounded toward zero, with the magnitude bound callers use
/// to keep velocities and positions inside their ranges.
pub fn mul_unit(a: i64, b: i64) -> (r: i64)
    requires
        spec_abs(a as int) <= 1000000,
        spec_abs(b as int) <= 10000000000,
    ensures
        r == spec_mul_unit(a as int, b as int),
        spec_abs(r as int) * 1000 <= spec_abs(a as int) * spec_abs(b as int),
{
    proof {
        let ai = a as int;
        let bi = b as int;
        assert(spec_abs(ai * bi) == spec_abs(ai) * spec_abs(bi) && spec_abs(ai * bi)
            <= 10000000000000000) by (nonlinear_arith)
            requires
                spec_abs(ai) <= 1000000,
                spec_abs(bi) <= 10000000000,
        {
        }
    }
    let p: i64 = a * b;
    let r: i64 = if p >= 0 {
        p / 1000
    } else {
        -((-p) / 1000)
    };
    proof {
        let pp = (a as int) * (b as int);
        if pp >= 0 {
            lemma_fundamental_div_mod(pp, 1000);
            lemma_mod_bound(pp, 1000);
        } else {
            lemma_fundamental_div_mod(-pp, 1000);
            lemma_mod_bound(-pp, 1000);
        }
    }
    r
}

/// Dividing by a positive integer never grows a value's magnitude, also
/// for the flooring division of specifications.
pub proof fn lemma_div_shrinks(x: int, d: int)
    requires
        d >= 1,
    ensures
        spec_abs(x / d) <= spec_abs(x),
{
    lemma_fundamental_div_mod(x, d);
    lemma_mod_bound(x, d);
    let q = x / d;
    let r = x % d;
    assert((x >= 0 ==> 0 <= q <= x) && (x < 0 ==> x <= q <= 0)) by (nonlinear_arith)
        requires
            x == d * q + r,
            0 <= r < d,
            d >= 1,
    {
    }
}

/// Rational sine approximation on `[0, pi]` in milliradians, scaled by 1000
/// (Bhaskara's formula `16 x (pi - x) / (5 pi^2 - 4 x (pi - x))` in fixed
/// point).  Always lands in `[0, 1000]`.
pub open spec fn spec_sin_half(t: int) -> int {
    16000 * (t * (3142 - t)) / (49348820 - 4 * (t * (3142 - t)))
}

/// Sine on `[-pi, pi]` in milliradians, scaled by 1000, odd by construction.
pub open spec fn spec_sin_mrad(t: int) -> int {
    if t >= 0 {
        spec_sin_half(t)
    } else {
        -spec_sin_half(-t)
    }
}

/// Cosine on `[-pi, pi]` in milliradians, scaled by 1000, derived from the
/// sine by a quarter-turn shift; even by construction.
pub open spec fn spec_cos_mrad(t: int) -> int {
    if spec_abs(t) <= 1571 {
        spec_sin_half(spec_abs(t) + 1571)
    } else {
        -spec_sin_half(spec_abs(t) - 1571)
    }
}

fn sin_half(t: i64) -> (r: i64)
    requires
        0 <= t <= 3142,
    ensures
        r == spec_sin_half(t as int),
        0 <= r <= 1000,
{
    proof {
        assert(0 <= (t as int) * (3142 - t as int) <= 2468041) by (nonlinear_arith)
            requires
                0 <= t as int <= 3142,
        {
        }
    }
    let p: i64 = t * (3142 - t);
    let num: i64 = 16000 * p;
    let den: i64 = 49348820 - 4 * p;
    let r: i64 = num / den;
    proof {
        lemma_fundamental_div_mod(num as int, den as int);
        lemma_mod_bound(num as int, den as int);
        let q = num as int / den as int;
        assert(q <= 1000) by (nonlinear_arith)
            requires
                num == (den as int) * q + (num as int) % (den as int),
                0 <= (num as int) % (den as int) < den,
                num <= 16000 * 2468041,
                den >= 49348820 - 4 * 2468041,
        {
        }
    }
    r
}

/// Fixed-point sine of an angle in milliradians.
pub fn sin_mrad(t: i64) -> (r: i64)
    requires
        -3142 <= t <= 3142,
    ensures
        r == spec_sin_mrad(t as int),
        -1000 <= r <= 1000,
        t >= 0 ==> r >= 0,
        t <= 0 ==> r <= 0,
{
    if t >= 0 {
        sin_half(t)
    } else {
        let s: i64 = sin_half(-t);
        proof {
            assert(spec_sin_half(0) == 0);
        }
        -s
    }
}

/// Fixed-point cosine of an angle in milliradians; non-negative on the
/// clamped aiming range `[-pi/2, pi/2]`.
pub fn cos_mrad(t: i64) -> (r: i64)
    requires
        -3142 <= t <= 3142,
    ensures
        r == spec_cos_mrad(t as int),
        -1000 <= r <= 1000,
        -1571 <= t <= 1571 ==> r >= 0,
{
    let u: i64 = if t < 0 {
        -t
    } else {
        t
    };
    if u <= 1571 {
        sin_half(u + 1571)
    } else {
        let s: i64 = sin_half(u - 1571);
        -s
    }
}

/// Velocity kept after `n` milliseconds of friction, in parts per million:
/// `n` successive decays of `FRICTION_PPM_PER_MS`.
pub open spec fn spec_friction_ppm(n: nat) -> int
    decreases n,
{
    if n == 0 {
        1000000
    } else {
        spec_friction_ppm((n - 1) as nat) * 999895 / 1000000
    }
}

/// The friction factor for a frame of `dt` milliseconds.
pub fn friction_factor_ppm(dt: u32) -> (r: i64)
    ensures
        r == spec_friction_ppm(dt as nat),
        0 <= r <= 1000000,
{
    let mut f: i64 = PPM;
    let mut i: u32 = 0;
    while i < dt
        invariant
            i <= dt,
            0 <= f <= 1000000,
            f == spec_friction_ppm(i as nat),
        decreases dt - i,
    {
        let g: i64 = f * FRICTION_PPM_PER_MS;
        let h: i64 = g / PPM;
        proof {
            lemma_div_is_ordered(g as int, 999895000000int, 1000000);
            lemma_div_pos_is_pos(g as int, 1000000);
        }
        f = h;
        i = i + 1;
    }
    f
}

/// Scale a velocity component by a friction factor in parts per million,
/// rounding toward zero; the magnitude never grows.
pub fn scale_ppm(v: i64, f: i64) -> (r: i64)
    requires
        0 <= f <= 1000000,
        spec_abs(v as int) <= 1000000000,
    ensures
        r == spec_scale_ppm(v as int, f as int),
        spec_abs(r as int) <= spec_abs(v as int),
{
    proof {
        let vi = v as int;
        let fi = f as int;
        assert(spec_abs(vi * fi) == spec_abs(vi) * fi && spec_abs(vi) * fi <= 1000000000000000
            && spec_abs(vi) * fi <= spec_abs(vi) * 1000000) by (nonlinear_arith)
            requires
                spec_abs(vi) <= 1000000000,
                0 <= fi <= 1000000,
        {
        }
    }
    let p: i64 = v * f;
    let r: i64 = if p >= 0 {
        p / 1000000
    } else {
        -((-p) / 1000000)
    };
    proof {
        let vi = v as int;
        let fi = f as int;
        assert((-vi) * fi == -(vi * fi) && (vi >= 0 ==> vi * fi >= 0) && (vi < 0 ==> vi * fi
            <= 0)) by (nonlinear_arith)
            requires
                fi >= 0,
        {
        }
        let m = spec_abs(vi) * fi;
        lemma_fundamental_div_mod(m, 1000000);
        lemma_mod_bound(m, 1000000);
        let q = m / 1000000;
        assert(q * 1000000 <= m) by (nonlinear_arith)
            requires
                m == 1000000 * q + m % 1000000,
                0 <= m % 1000000,
        {
        }
        lemma_div_is_ordered(m, spec_abs(vi) * 1000000, 1000000);
        assert(spec_abs(vi) * 1000000 / 1000000 == spec_abs(vi)) by (nonlinear_arith) {}
    }
    r
}

} // verus!
