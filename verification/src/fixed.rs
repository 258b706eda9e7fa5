//! Fixed-point scalar arithmetic.
//!
//! Every scalar quantity in this crate (world coordinates, zoom scale,
//! angles in radians, seconds) is an `i64` holding the real value times
//! `SCALE`.  All rounding truncates toward zero, mirroring hardware
//! division; `divt` is the specification-level account of that rounding.

use vstd::prelude::*;
use vstd::arithmetic::div_mod::{
    lemma_fundamental_div_mod_converse, lemma_div_is_ordered, lemma_div_is_ordered_by_denominator,
    lemma_div_pos_is_pos,
};

verus! {

/// Number of fixed-point ticks in one world unit (six decimal places).
pub const SCALE: i64 = 1_000_000;

/// Absolute value of a mathematical integer.
pub open spec fn abs_i(a: int) -> int {
    if a < 0 {
        -a
    } else {
        a
    }
}

/// Quotient of `a` by `b` truncated toward zero.  (Spec-mode `/` is
/// Euclidean, which differs from machine division on negative operands.)
pub open spec fn divt(a: int, b: int) -> int
    recommends
        b != 0,
{
    let q = abs_i(a) / abs_i(b);
    if (a < 0) <==> (b < 0) {
        q
    } else {
        -q
    }
}

/// `v` forced into `[lo, hi]`.
pub open spec fn clamp_i(v: int, lo: int, hi: int) -> int {
    if v < lo {
        lo
    } else if v > hi {
        hi
    } else {
        v
    }
}

/// Truncation toward zero is an odd function of the dividend.
pub proof fn lemma_divt_neg(a: int, b: int)
    requires
        b != 0,
    ensures
        divt(-a, b) == -divt(a, b),
{
}

/// Magnitude of a truncated quotient: exactly `|a| / |b|`.
pub proof fn lemma_divt_mag(a: int, b: int)
    requires
        b != 0,
    ensures
        abs_i(divt(a, b)) == abs_i(a) / abs_i(b),
        abs_i(a) / abs_i(b) >= 0,
{
    lemma_div_pos_is_pos(abs_i(a), abs_i(b));
}

/// Truncated quotients are monotone in the magnitude of the dividend.
pub proof fn lemma_divt_mono(a1: int, a2: int, b: int)
    requires
        b > 0,
        0 <= a1 <= a2,
    ensures
        0 <= divt(a1, b) <= divt(a2, b),
{
    lemma_div_pos_is_pos(a1, b);
    lemma_div_is_ordered(a1, a2, b);
}

/// `|x * y| == |x| * |y|`.
pub proof fn lemma_abs_mul(x: int, y: int)
    by (nonlinear_arith)
    ensures
        abs_i(x * y) == abs_i(x) * abs_i(y),
{
}

/// Sign of a product, from the signs of its factors.
pub proof fn lemma_mul_sign(x: int, y: int)
    by (nonlinear_arith)
    ensures
        (x * y < 0) <==> (((x < 0) != (y < 0)) && x != 0 && y != 0),
        (x * y == 0) <==> (x == 0 || y == 0),
{
}

/// If `0 <= a <= k * c` with `c > 0`, then `a / c <= k`.
pub proof fn lemma_div_le_factor(a: int, k: int, c: int)
    requires
        c > 0,
        0 <= a,
        a <= k * c,
    ensures
        0 <= a / c <= k,
{
    lemma_div_pos_is_pos(a, c);
    lemma_div_is_ordered(a, k * c, c);
    vstd::arithmetic::div_mod::lemma_div_multiples_vanish(k, c);
    vstd::arithmetic::mul::lemma_mul_is_commutative(k, c);
}

/// If `0 <= k * c <= a` with `c > 0`, then `a / c >= k`.
pub proof fn lemma_div_ge_factor(a: int, k: int, c: int)
    requires
        c > 0,
        0 <= k * c <= a,
    ensures
        a / c >= k,
{
    lemma_div_is_ordered(k * c, a, c);
    vstd::arithmetic::div_mod::lemma_div_multiples_vanish(k, c);
    vstd::arithmetic::mul::lemma_mul_is_commutative(k, c);
}

/// Magnitude bound for a truncated product-quotient, from factor bounds.
pub proof fn lemma_divt_prod_le(a: int, b: int, c: int, ka: int, kb: int)
    requires
        c > 0,
        abs_i(a) <= ka,
        abs_i(b) <= kb,
    ensures
        abs_i(divt(a * b, c)) == abs_i(a * b) / abs_i(c),
        abs_i(divt(a * b, c)) <= (ka * kb) / c,
        0 <= (ka * kb) / c <= ka * kb,
{
    lemma_abs_mul(a, b);
    assert(abs_i(a) * abs_i(b) <= ka * kb) by (nonlinear_arith)
        requires
            0 <= abs_i(a) <= ka,
            0 <= abs_i(b) <= kb;
    lemma_divt_mag(a * b, c);
    lemma_div_is_ordered(abs_i(a * b), ka * kb, c);
    lemma_div_pos_is_pos(ka * kb, c);
    lemma_div_is_ordered_by_denominator(ka * kb, 1, c);
}

/// Magnitude bound for a truncated product-quotient when only a lower
/// bound on the divisor's magnitude is known (the divisor may be
/// negative).
pub proof fn lemma_divt_prod_le_den(a: int, b: int, c: int, ka: int, kb: int, cmin: int)
    requires
        c != 0,
        0 < cmin <= abs_i(c),
        abs_i(a) <= ka,
        abs_i(b) <= kb,
    ensures
        abs_i(divt(a * b, c)) == abs_i(a * b) / abs_i(c),
        abs_i(divt(a * b, c)) <= (ka * kb) / cmin,
        abs_i(a * b) / abs_i(c) <= (ka * kb) / cmin,
{
    lemma_abs_mul(a, b);
    assert(abs_i(a) * abs_i(b) <= ka * kb) by (nonlinear_arith)
        requires
            0 <= abs_i(a) <= ka,
            0 <= abs_i(b) <= kb;
    lemma_divt_mag(a * b, c);
    lemma_div_is_ordered_by_denominator(abs_i(a * b), cmin, abs_i(c));
    lemma_div_is_ordered(abs_i(a * b), ka * kb, cmin);
}

/// Multiplying by a fixed-point factor of magnitude at most `SCALE` and
/// rescaling cannot grow the other factor's magnitude.
pub proof fn lemma_divt_scale_le(a: int, b: int)
    requires
        abs_i(b) <= SCALE,
    ensures
        abs_i(divt(a * b, SCALE as int)) == abs_i(a * b) / abs_i(SCALE as int),
        abs_i(a * b) / abs_i(SCALE as int) <= abs_i(a),
{
    lemma_divt_prod_le(a, b, SCALE as int, abs_i(a), SCALE as int);
    vstd::arithmetic::div_mod::lemma_div_multiples_vanish(abs_i(a), SCALE as int);
    vstd::arithmetic::mul::lemma_mul_is_commutative(abs_i(a), SCALE as int);
}

/// `|a|` of an `i64` that is not the minimum value.
fn abs64(a: i64) -> (r: u64)
    requires
        a > i64::MIN,
    ensures
        r == abs_i(a as int),
{
    if a < 0 {
        (-a) as u64
    } else {
        a as u64
    }
}

/// Truncated product-quotient `a * b / c`, the one rounding primitive of
/// the crate; the intermediate product is exact (128-bit).
pub fn mul_div(a: i64, b: i64, c: i64) -> (r: i64)
    requires
        c != 0,
        a > i64::MIN,
        b > i64::MIN,
        c > i64::MIN,
        abs_i(a as int * b as int) / abs_i(c as int) <= i64::MAX,
    ensures
        r as int == divt(a as int * b as int, c as int),
        abs_i(r as int) == abs_i(a as int * b as int) / abs_i(c as int),
{
    proof {
        lemma_abs_mul(a as int, b as int);
        lemma_divt_mag(a as int * b as int, c as int);
    }
    let au = abs64(a) as u128;
    let bu = abs64(b) as u128;
    let cu = abs64(c) as u128;
    assert(au * bu <= u128::MAX) by (nonlinear_arith)
        requires
            au < 0x8000_0000_0000_0000,
            bu < 0x8000_0000_0000_0000;
    let q = (au * bu) / cu;
    let neg = ((a < 0) ^ (b < 0)) ^ (c < 0);
    proof {
        lemma_mul_sign(a as int, b as int);
    }
    if neg && q > 0 {
        -(q as i64)
    } else {
        q as i64
    }
}

/// `v` forced into `[lo, hi]`.
pub fn clamp64(v: i64, lo: i64, hi: i64) -> (r: i64)
    requires
        lo <= hi,
    ensures
        r as int == clamp_i(v as int, lo as int, hi as int),
{
    if v < lo {
        lo
    } else if v > hi {
        hi
    } else {
        v
    }
}

/// Euclidean remainder of `a` by `m` (always in `[0, m)`), used to keep
/// accumulated angles inside one turn.
pub fn emod64(a: i64, m: i64) -> (r: i64)
    requires
        m > 0,
        a > i64::MIN,
    ensures
        r as int == (a as int) % (m as int),
        0 <= r < m,
{
    if a >= 0 {
        ((a as u64) % (m as u64)) as i64
    } else {
        let n = (-a) as u64;
        let k = ((n - 1) % (m as u64)) as i64;
        proof {
            let ni = -(a as int);
            let j = (ni - 1) % (m as int);
            let q = (ni - 1) / (m as int);
            vstd::arithmetic::div_mod::lemma_fundamental_div_mod(ni - 1, m as int);
            assert(a as int == (-q - 1) * (m as int) + ((m as int) - 1 - j)) by (nonlinear_arith)
                requires
                    ni - 1 == q * (m as int) + j,
                    a as int == -ni,
            ;
            lemma_fundamental_div_mod_converse(a as int, m as int, -q - 1, (m as int) - 1 - j);
        }
        m - 1 - k
    }
}

/// Floor of the square root, as a recursive specification; the executable
/// `isqrt` is proved equal to it.
pub open spec fn sqrt_floor(n: int) -> int
    decreases n,
{
    if n <= 0 {
        0
    } else {
        let r = sqrt_floor(n - 1);
        if (r + 1) * (r + 1) <= n {
            r + 1
        } else {
            r
        }
    }
}

/// Ceiling of the square root.
pub open spec fn sqrt_ceil(n: int) -> int {
    if sqrt_floor(n) * sqrt_floor(n) == n {
        sqrt_floor(n)
    } else {
        sqrt_floor(n) + 1
    }
}

/// `sqrt_floor(n)` is the unique `r >= 0` with `r^2 <= n < (r+1)^2`.
pub proof fn lemma_sqrt_floor_bounds(n: int)
    requires
        n >= 0,
    ensures
        sqrt_floor(n) >= 0,
        sqrt_floor(n) * sqrt_floor(n) <= n,
        n < (sqrt_floor(n) + 1) * (sqrt_floor(n) + 1),
    decreases n,
{
    if n > 0 {
        lemma_sqrt_floor_bounds(n - 1);
        let r = sqrt_floor(n - 1);
        if (r + 1) * (r + 1) <= n {
            assert(n < (r + 2) * (r + 2)) by (nonlinear_arith)
                requires
                    r >= 0,
                    n - 1 < (r + 1) * (r + 1),
                    (r + 1) * (r + 1) <= n,
            ;
        }
    }
}

/// Any `r` within the square-root bracket is the floor square root.
pub proof fn lemma_sqrt_floor_unique(n: int, r: int)
    requires
        n >= 0,
        r >= 0,
        r * r <= n,
        n < (r + 1) * (r + 1),
    ensures
        r == sqrt_floor(n),
{
    lemma_sqrt_floor_bounds(n);
    let s = sqrt_floor(n);
    assert(r == s) by (nonlinear_arith)
        requires
            r >= 0,
            s >= 0,
            r * r <= n,
            n < (r + 1) * (r + 1),
            s * s <= n,
            n < (s + 1) * (s + 1),
    ;
}

/// Floor square root by bisection.
pub fn isqrt(n: u128) -> (r: u128)
    requires
        n < 0x4000_0000_0000_0000_0000_0000_0000_0000u128,
    ensures
        r as int == sqrt_floor(n as int),
        r * r <= n,
        n < (r + 1) * (r + 1),
{
    let mut lo: u128 = 0;
    let mut hi: u128 = 0x8000_0000_0000_0000u128;
    assert(n < hi * hi) by (nonlinear_arith)
        requires
            n < 0x4000_0000_0000_0000_0000_0000_0000_0000u128,
            hi == 0x8000_0000_0000_0000u128,
    ;
    while lo + 1 < hi
        invariant
            lo < hi <= 0x8000_0000_0000_0000u128,
            lo * lo <= n,
            n < hi * hi,
        decreases hi - lo,
    {
        let mid = lo + (hi - lo) / 2;
        assert(lo < mid < hi);
        assert(mid * mid <= u128::MAX) by (nonlinear_arith)
            requires
                mid < 0x8000_0000_0000_0000u128 + 1,
        ;
        if mid * mid <= n {
            lo = mid;
        } else {
            hi = mid;
        }
    }
    proof {
        lemma_sqrt_floor_unique(n as int, lo as int);
    }
    lo
}

/// Ceiling square root, derived from `isqrt`.
pub fn isqrt_up(n: u128) -> (r: u128)
    requires
        n < 0x4000_0000_0000_0000_0000_0000_0000_0000u128,
    ensures
        r as int == sqrt_ceil(n as int),
        n <= r * r,
        r <= 0x8000_0000_0000_0000u128,
        r > 0 ==> (r - 1) * (r - 1) < n,
{
    let f = isqrt(n);
    assert(f < 0x8000_0000_0000_0000u128) by (nonlinear_arith)
        requires
            f * f <= n,
            n < 0x4000_0000_0000_0000_0000_0000_0000_0000u128;
    if f * f == n {
        proof {
            if f > 0 {
                assert((f - 1) * (f - 1) < f * f) by (nonlinear_arith)
                    requires
                        f > 0;
            }
        }
        f
    } else {
        f + 1
    }
}

} // verus!
