//! Fixed-point arithmetic for the trajectory model.
//!
//! World coordinates, speeds and wave amplitudes are integers counted in
//! thousandths of a world unit, so that every computation is exact machine
//! arithmetic and a position is a pure function of its inputs.

use vstd::prelude::*;

verus! {

/// Width of one fixed-point unit: all world coordinates, speeds and wave
/// amplitudes are carried as integer multiples of 1/1000 of a world unit.
pub const SCALE: i64 = 1000;

/// Half a wave period in fixed-point radians: 1000 times pi, rounded down.
pub const HALF_WAVE: i64 = 3141;

/// A full wave period in fixed-point radians.
pub const FULL_WAVE: i64 = 6282;

/// Truncating signed division by a positive divisor: rounds toward zero,
/// as the underlying machine division does.
pub open spec fn sdiv(a: int, d: int) -> int
    recommends
        d > 0,
{
    if a >= 0 {
        a / d
    } else {
        -((-a) / d)
    }
}

/// Divide a wide signed value by a positive divisor, rounding toward zero.
pub fn div_toward_zero_wide(a: i128, d: i128) -> (r: i128)
    requires
        d > 0,
        -0x7fff_ffff_ffff_ffff_ffff_ffff_ffff_ffffi128 <= a,
    ensures
        r == sdiv(a as int, d as int),
{
    if a >= 0 {
        a / d
    } else {
        let q = (-a) as u128 / (d as u128);
        assert(q <= 0x7fff_ffff_ffff_ffff_ffff_ffff_ffff_ffffu128) by {
            assert((-(a as int)) / (d as int) <= -(a as int)) by {
                vstd::arithmetic::div_mod::lemma_div_is_ordered_by_denominator(
                    -(a as int), 1, d as int);
            };
        };
        -(q as i128)
    }
}

/// The magnitude of a truncating division is bounded by the divided bound.
pub proof fn lemma_sdiv_abs_bound(a: int, d: int, b: int)
    requires
        d > 0,
        0 <= b,
        -b <= a <= b,
    ensures
        -(b / d) <= sdiv(a, d) <= b / d,
{
    vstd::arithmetic::div_mod::lemma_div_pos_is_pos(b, d);
    if a >= 0 {
        vstd::arithmetic::div_mod::lemma_div_pos_is_pos(a, d);
        vstd::arithmetic::div_mod::lemma_div_is_ordered(a, b, d);
    } else {
        vstd::arithmetic::div_mod::lemma_div_pos_is_pos(-a, d);
        vstd::arithmetic::div_mod::lemma_div_is_ordered(-a, b, d);
    }
}

/// `r` is the integer square root of `n`.
pub open spec fn is_isqrt(n: int, r: int) -> bool {
    0 <= r && r * r <= n < (r + 1) * (r + 1)
}

/// The integer square root, as a spec value.
pub open spec fn sqrt_floor(n: int) -> int {
    choose|r: int| is_isqrt(n, r)
}

/// Any witness of `is_isqrt` is the one integer square root.
pub proof fn lemma_isqrt_unique(n: int, r: int)
    requires
        is_isqrt(n, r),
    ensures
        sqrt_floor(n) == r,
{
    assert(is_isqrt(n, sqrt_floor(n)));
    let r2 = sqrt_floor(n);
    assert(r == r2) by (nonlinear_arith)
        requires
            0 <= r,
            0 <= r2,
            r * r <= n,
            n < (r + 1) * (r + 1),
            r2 * r2 <= n,
            n < (r2 + 1) * (r2 + 1),
    {
    }
}

/// The integer square root dominates the root of any smaller square.
pub proof fn lemma_isqrt_lower(n: int, r: int, m: int)
    requires
        is_isqrt(n, r),
        0 <= m,
        m * m <= n,
    ensures
        r >= m,
{
    assert(r >= m) by (nonlinear_arith)
        requires
            0 <= r,
            0 <= m,
            n < (r + 1) * (r + 1),
            m * m <= n,
    {
    }
}

/// Integer square root by bisection.
pub fn isqrt64(n: u64) -> (r: u64)
    ensures
        is_isqrt(n as int, r as int),
{
    let mut lo: u64 = 0;
    let mut hi: u64 = 0x1_0000_0000;
    while lo + 1 < hi
        invariant
            lo < hi <= 0x1_0000_0000,
            (lo as int) * (lo as int) <= n as int,
            (hi as int) * (hi as int) > n as int,
        decreases hi - lo,
    {
        let mid = lo + (hi - lo) / 2;
        assert((mid as int) * (mid as int) <= 0xffff_ffff * 0xffff_ffff) by (nonlinear_arith)
            requires
                mid <= 0xffff_ffff,
        {
        }
        if mid * mid <= n {
            lo = mid;
        } else {
            hi = mid;
        }
    }
    lo
}

/// The wave amplitude on the first half period, scaled by 1000: a rational
/// approximation of `1000 * sin(x / 1000)` for `x` in `[0, HALF_WAVE]`.
pub open spec fn spec_half_wave(x: int) -> int
    recommends
        0 <= x <= HALF_WAVE,
{
    let prod = x * (HALF_WAVE - x);
    (16000 * prod) / (5 * (HALF_WAVE as int) * (HALF_WAVE as int) - 4 * prod)
}

/// The wave amplitude, scaled by 1000, of a non-negative fixed-point angle:
/// the half-period approximation extended to all angles by odd symmetry.
pub open spec fn spec_wave(d: int) -> int
    recommends
        d >= 0,
{
    let r = d % (FULL_WAVE as int);
    if r <= HALF_WAVE {
        spec_half_wave(r)
    } else {
        -spec_half_wave(r - HALF_WAVE)
    }
}

proof fn lemma_half_wave_bounds(x: int)
    requires
        0 <= x <= HALF_WAVE,
    ensures
        0 <= spec_half_wave(x) <= 1000,
{
    let prod = x * (HALF_WAVE - x);
    let den = 5 * (HALF_WAVE as int) * (HALF_WAVE as int) - 4 * prod;
    assert(0 <= 4 * prod <= 3141 * 3141) by (nonlinear_arith)
        requires
            0 <= x <= 3141,
            prod == x * (3141 - x),
    {
    }
    assert(den >= 4 * 3141 * 3141);
    assert(16000 * prod <= 1000 * den);
    assert(spec_half_wave(x) <= 1000) by {
        vstd::arithmetic::div_mod::lemma_div_is_ordered(16000 * prod, 1000 * den, den);
        vstd::arithmetic::div_mod::lemma_div_multiples_vanish(1000, den);
    };
    assert(spec_half_wave(x) >= 0) by {
        vstd::arithmetic::div_mod::lemma_div_pos_is_pos(16000 * prod, den);
    };
}

/// Wave amplitude on the first half period.
fn half_wave(x: u64) -> (w: u64)
    requires
        x <= 3141,
    ensures
        w == spec_half_wave(x as int),
        w <= 1000,
{
    proof {
        assert(0 <= (x as int) * (3141 - x as int) && 4 * ((x as int) * (3141 - x as int))
            <= 3141 * 3141) by (nonlinear_arith)
            requires
                0 <= x <= 3141,
        {
        }
        lemma_half_wave_bounds(x as int);
    }
    let prod = x * (3141 - x);
    let num = 16000 * prod;
    let den = 5 * 3141 * 3141 - 4 * prod;
    num / den
}

/// Wave amplitude, scaled by 1000, of a non-negative fixed-point angle.
pub fn wave_milli(d: u128) -> (w: i64)
    ensures
        w == spec_wave(d as int),
        -1000 <= w <= 1000,
{
    let r = (d % (FULL_WAVE as u128)) as u64;
    if r <= HALF_WAVE as u64 {
        let w = half_wave(r);
        proof {
            lemma_half_wave_bounds(r as int);
        }
        w as i64
    } else {
        let w = half_wave(r - HALF_WAVE as u64);
        proof {
            lemma_half_wave_bounds(r as int - HALF_WAVE);
        }
        -(w as i64)
    }
}

} // verus!
