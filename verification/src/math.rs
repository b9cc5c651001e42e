//! Integer helpers the simulation is built on: magnitude, truncating
//! halving and scaling, and a floor square root.

use vstd::arithmetic::div_mod::{
    lemma_div_is_ordered, lemma_div_pos_is_pos, lemma_fundamental_div_mod,
    lemma_mod_division_less_than_divisor,
};
use vstd::prelude::*;

verus! {

/// `x / 2`, rounded toward zero.
pub open spec fn half_tz(x: int) -> int {
    if x >= 0 {
        x / 2
    } else {
        -((-x) / 2)
    }
}

/// `(a * num) / den`, rounded toward zero, for `num >= 0 < den`.
pub open spec fn mul_div_tz(a: int, num: int, den: int) -> int {
    if a >= 0 {
        (a * num) / den
    } else {
        -(((-a) * num) / den)
    }
}

/// `r` is the square root of `n`, rounded down.
pub open spec fn is_sqrt_floor(n: int, r: int) -> bool {
    0 <= r && r * r <= n && n < (r + 1) * (r + 1)
}

/// The square root of `n`, rounded down (for `n >= 0`; see
/// `lemma_sqrt_floor_exists`).
pub open spec fn sqrt_floor(n: int) -> int {
    choose|r: int| is_sqrt_floor(n, r)
}

/// Every non-negative integer has a floor square root, and `sqrt_floor`
/// denotes it.
pub proof fn lemma_sqrt_floor_exists(n: int)
    requires
        n >= 0,
    ensures
        is_sqrt_floor(n, sqrt_floor(n)),
    decreases n,
{
    if n == 0 {
        assert(is_sqrt_floor(0, 0));
    } else {
        lemma_sqrt_floor_exists(n - 1);
        let r = sqrt_floor(n - 1);
        if n < (r + 1) * (r + 1) {
            assert(is_sqrt_floor(n, r));
        } else {
            assert(n == (r + 1) * (r + 1));
            assert((r + 1) * (r + 1) < (r + 2) * (r + 2)) by (nonlinear_arith)
                requires
                    r >= 0,
            ;
            assert(is_sqrt_floor(n, r + 1));
        }
    }
}

/// The floor square root is unique.
pub proof fn lemma_sqrt_floor_unique(n: int, a: int, b: int)
    requires
        is_sqrt_floor(n, a),
        is_sqrt_floor(n, b),
    ensures
        a == b,
{
    assert(a == b) by (nonlinear_arith)
        requires
            0 <= a && a * a <= n && n < (a + 1) * (a + 1),
            0 <= b && b * b <= n && n < (b + 1) * (b + 1),
    ;
}

/// A component of a vector is no longer than the vector itself:
/// `x * x <= n` bounds `|x|` by the floor square root of `n`.
pub proof fn lemma_abs_le_sqrt(x: int, n: int, d: int)
    requires
        is_sqrt_floor(n, d),
        x * x <= n,
    ensures
        -d <= x <= d,
{
    assert(-d <= x <= d) by (nonlinear_arith)
        requires
            0 <= d,
            n < (d + 1) * (d + 1),
            x * x <= n,
    ;
}

/// If `n` does not reach `(b + 1)^2`, its floor square root is at most `b`.
pub proof fn lemma_sqrt_floor_le(n: int, b: int)
    requires
        0 <= n,
        0 <= b,
        n <= b * b + 2 * b,
    ensures
        sqrt_floor(n) <= b,
{
    lemma_sqrt_floor_exists(n);
    let r = sqrt_floor(n);
    assert(r <= b) by (nonlinear_arith)
        requires
            0 <= r && r * r <= n,
            0 <= b,
            n <= b * b + 2 * b,
    ;
}

/// Division facts for non-negative dividends and positive divisors.
pub proof fn lemma_div_bounds(p: int, d: int)
    requires
        0 <= p,
        0 < d,
    ensures
        0 <= p / d,
        (p / d) * d <= p,
        p < (p / d) * d + d,
{
    lemma_div_pos_is_pos(p, d);
    lemma_fundamental_div_mod(p, d);
    lemma_mod_division_less_than_divisor(p, d);
    assert((p / d) * d == d * (p / d)) by (nonlinear_arith);
}

/// Truncated scaling keeps the sign of `a` and, when `|a| <= den`, its
/// magnitude stays within `num`.
pub proof fn lemma_mul_div_tz_bounds(a: int, num: int, den: int)
    requires
        0 <= num,
        0 < den,
        -den <= a <= den,
    ensures
        -num <= mul_div_tz(a, num, den) <= num,
        a >= 0 ==> mul_div_tz(a, num, den) >= 0,
        a <= 0 ==> mul_div_tz(a, num, den) <= 0,
{
    let m = if a >= 0 {
        a
    } else {
        -a
    };
    vstd::arithmetic::div_mod::lemma_div_of0(den);
    assert(0 <= m * num) by (nonlinear_arith)
        requires
            0 <= m,
            0 <= num,
    ;
    assert(m * num <= den * num) by (nonlinear_arith)
        requires
            0 <= m <= den,
            0 <= num,
    ;
    lemma_div_pos_is_pos(m * num, den);
    lemma_div_is_ordered(m * num, den * num, den);
    let q = (den * num) / den;
    lemma_div_bounds(den * num, den);
    assert(q == num) by (nonlinear_arith)
        requires
            q * den <= den * num,
            den * num < q * den + den,
            0 < den,
    ;
    if a == 0 {
        assert(m * num == 0) by (nonlinear_arith)
            requires
                m == 0,
        ;
        assert((m * num) / den == 0);
        assert(mul_div_tz(a, num, den) == (m * num) / den);
    } else if a > 0 {
        assert(mul_div_tz(a, num, den) == (m * num) / den);
    } else {
        assert(mul_div_tz(a, num, den) == -((m * num) / den));
    }
}

/// The core containment bound of the boundary constraint: scaling an
/// offset of floor-length `d` down to length `k < d` leaves a vector
/// whose squared norm is at most `k^2 + 2k`, hence of floor-length at
/// most `k`.
pub proof fn lemma_scaled_offset_within(dx: int, dy: int, k: int, d: int)
    requires
        0 <= k,
        k < d,
        is_sqrt_floor(dx * dx + dy * dy, d),
    ensures
        mul_div_tz(dx, k, d) * mul_div_tz(dx, k, d) + mul_div_tz(dy, k, d) * mul_div_tz(dy, k, d)
            <= k * k + 2 * k,
{
    let n = dx * dx + dy * dy;
    let ax = if dx >= 0 {
        dx
    } else {
        -dx
    };
    let ay = if dy >= 0 {
        dy
    } else {
        -dy
    };
    let ux = (ax * k) / d;
    let uy = (ay * k) / d;
    assert(ax * ax == dx * dx && ay * ay == dy * dy) by (nonlinear_arith)
        requires
            ax == if dx >= 0 {
                dx
            } else {
                (-dx)
            },
            ay == if dy >= 0 {
                dy
            } else {
                (-dy)
            },
    ;
    assert(ax * k >= 0 && ay * k >= 0) by (nonlinear_arith)
        requires
            ax >= 0 && ay >= 0 && k >= 0,
    ;
    lemma_div_bounds(ax * k, d);
    lemma_div_bounds(ay * k, d);
    // The scaled components, squared, are bounded through multiplying by d^2.
    assert((ux * ux + uy * uy) * (d * d) <= n * (k * k)) by (nonlinear_arith)
        requires
            0 <= ux && ux * d <= ax * k,
            0 <= uy && uy * d <= ay * k,
            0 <= ax && 0 <= ay && 0 <= k && 0 < d,
            n == ax * ax + ay * ay,
    ;
    // n < (d + 1)^2 gives n <= d^2 + 2d, and k < d closes the bound.
    assert(ux * ux + uy * uy <= k * k + 2 * k) by (nonlinear_arith)
        requires
            (ux * ux + uy * uy) * (d * d) <= n * (k * k),
            n < (d + 1) * (d + 1),
            0 <= k && k < d,
            0 <= ux && 0 <= uy,
    ;
    assert(mul_div_tz(dx, k, d) * mul_div_tz(dx, k, d) == ux * ux) by (nonlinear_arith)
        requires
            mul_div_tz(dx, k, d) == if dx >= 0 {
                ux
            } else {
                (-ux)
            },
    ;
    assert(mul_div_tz(dy, k, d) * mul_div_tz(dy, k, d) == uy * uy) by (nonlinear_arith)
        requires
            mul_div_tz(dy, k, d) == if dy >= 0 {
                uy
            } else {
                (-uy)
            },
    ;
}

/// The magnitude of `x`, as an unsigned machine integer.
pub fn abs_u64(x: i64) -> (r: u64)
    requires
        x != i64::MIN,
    ensures
        x >= 0 ==> r as int == x as int,
        x < 0 ==> r as int == -(x as int),
{
    if x >= 0 {
        x as u64
    } else {
        (-x) as u64
    }
}

/// `x / 2`, rounded toward zero.
pub fn half_i64(x: i64) -> (r: i64)
    requires
        x != i64::MIN,
    ensures
        r as int == half_tz(x as int),
{
    let m: u64 = abs_u64(x) / 2;
    if x >= 0 {
        m as i64
    } else {
        -(m as i64)
    }
}

/// `(a * num) / den`, rounded toward zero.
pub fn scale_frac(a: i64, num: i64, den: i64) -> (r: i64)
    requires
        0 <= num <= 4_000_000_000,
        0 < den <= 100_000_000_000_000_000,
        -den <= a <= den,
    ensures
        r as int == mul_div_tz(a as int, num as int, den as int),
        -num <= r <= num,
{
    proof {
        lemma_mul_div_tz_bounds(a as int, num as int, den as int);
    }
    let mag: u64 = abs_u64(a);
    assert((mag as u128) * (num as u128) <= 400_000_000_000_000_000_000_000_000u128)
        by (nonlinear_arith)
        requires
            mag <= 100_000_000_000_000_000u64,
            0 <= num <= 4_000_000_000i64,
    ;
    let m: u128 = (mag as u128) * (num as u128) / (den as u128);
    if a >= 0 {
        m as i64
    } else {
        -(m as i64)
    }
}

/// The square root of `n`, rounded down, by binary search.
pub fn isqrt_u128(n: u128) -> (r: u128)
    requires
        n < 0x4000_0000_0000_0000_0000_0000_0000_0000u128,
    ensures
        is_sqrt_floor(n as int, r as int),
        r as int == sqrt_floor(n as int),
{
    let mut lo: u128 = 0;
    let mut hi: u128 = 0x8000_0000_0000_0000;
    assert(hi * hi == 0x4000_0000_0000_0000_0000_0000_0000_0000u128) by (nonlinear_arith)
        requires
            hi == 0x8000_0000_0000_0000u128,
    ;
    while lo + 1 < hi
        invariant
            lo < hi,
            hi <= 0x8000_0000_0000_0000u128,
            lo * lo <= n,
            n < hi * hi,
        decreases hi - lo,
    {
        let mid: u128 = lo + (hi - lo) / 2;
        assert(lo < mid < hi);
        assert(mid * mid < 0x8000_0000_0000_0000_0000_0000_0000_0000u128) by (nonlinear_arith)
            requires
                mid < 0x8000_0000_0000_0000u128,
        ;
        if mid * mid <= n {
            lo = mid;
        } else {
            hi = mid;
        }
    }
    assert(hi == lo + 1);
    proof {
        lemma_sqrt_floor_exists(n as int);
        lemma_sqrt_floor_unique(n as int, lo as int, sqrt_floor(n as int));
    }
    lo
}

} // verus!
