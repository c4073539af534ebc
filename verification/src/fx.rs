//! Fixed-point scalars and the arithmetic helpers the rasterizer uses.
//!
//! A fixed-point value stores `FX` units per one; `FX` itself therefore
//! encodes the real number one. Stored values are `i64`; intermediate
//! products are widened to `i128` so that every multiplication in the
//! pipeline is proved free of overflow.

use vstd::prelude::*;

verus! {

/// Fixed-point units per one: values are interpreted as multiples of 1/FX.
pub const FX: i64 = 65536;

/// A fixed-point 2-vector (screen positions, texture coordinates).
#[derive(Clone, Copy, PartialEq, Eq, Structural, Debug)]
pub struct Fx2 {
    pub x: i64,
    pub y: i64,
}

/// A fixed-point 3-vector (positions, normals, RGB colors).
#[derive(Clone, Copy, PartialEq, Eq, Structural, Debug)]
pub struct Fx3 {
    pub x: i64,
    pub y: i64,
    pub z: i64,
}

/// A fixed-point 4-vector (RGBA colors).
#[derive(Clone, Copy, PartialEq, Eq, Structural, Debug)]
pub struct Fx4 {
    pub x: i64,
    pub y: i64,
    pub z: i64,
    pub w: i64,
}

/// A 4 by 4 fixed-point matrix, row-major: entry (row, col) is `e[4 * row + col]`.
#[derive(Clone, Copy, Debug)]
pub struct Mat4Fx {
    pub e: [i64; 16],
}

/// Truncated division (round toward zero), the rounding Rust's `/` uses.
/// Defined for positive divisors only, which is how the pipeline divides.
pub open spec fn tdiv(a: int, b: int) -> int
    recommends
        b > 0,
{
    if a >= 0 {
        a / b
    } else {
        -((-a) / b)
    }
}

/// Clamp `a` into `[lo, hi]`.
pub open spec fn spec_clamp(a: int, lo: int, hi: int) -> int
    recommends
        lo <= hi,
{
    if a < lo {
        lo
    } else if a > hi {
        hi
    } else {
        a
    }
}

/// Quotient of `a` by a positive divisor `b`, rounded toward zero.
pub fn div_fx(a: i128, b: i128) -> (r: i128)
    requires
        b > 0,
        a > i128::MIN,
    ensures
        r == tdiv(a as int, b as int),
{
    if a >= 0 {
        let q: u128 = (a as u128) / (b as u128);
        assert(q == (a as int) / (b as int));
        q as i128
    } else {
        let neg: u128 = ((-a) as u128);
        let q: u128 = neg / (b as u128);
        assert(q == (-(a as int)) / (b as int));
        assert(q <= neg) by {
            vstd::arithmetic::div_mod::lemma_div_is_ordered_by_denominator(
                neg as int,
                1,
                b as int,
            );
        }
        -(q as i128)
    }
}

/// Truncated division for a divisor of either sign.
pub open spec fn sdiv(a: int, b: int) -> int
    recommends
        b != 0,
{
    if b > 0 {
        tdiv(a, b)
    } else {
        tdiv(-a, -b)
    }
}

/// Quotient of `a` by a nonzero divisor `b`, rounded toward zero.
pub fn div_signed(a: i128, b: i128) -> (r: i128)
    requires
        b != 0,
        a > i128::MIN,
        b > i128::MIN,
    ensures
        r == sdiv(a as int, b as int),
        -abs(a as int) <= r <= abs(a as int),
{
    let r = if b > 0 {
        div_fx(a, b)
    } else {
        div_fx(-a, -b)
    };
    proof {
        if b > 0 {
            lemma_tdiv_shrinks(a as int, b as int);
        } else {
            lemma_tdiv_shrinks(-(a as int), -(b as int));
        }
    }
    r
}

/// Clamp `a` into `[lo, hi]`.
pub fn clamp_i128(a: i128, lo: i128, hi: i128) -> (r: i128)
    requires
        lo <= hi,
    ensures
        r == spec_clamp(a as int, lo as int, hi as int),
{
    if a < lo {
        lo
    } else if a > hi {
        hi
    } else {
        a
    }
}

/// Truncated division by a positive divisor is monotone in the dividend.
pub proof fn lemma_tdiv_ordered(a1: int, a2: int, b: int)
    requires
        b > 0,
        a1 <= a2,
    ensures
        tdiv(a1, b) <= tdiv(a2, b),
{
    if a1 >= 0 {
        vstd::arithmetic::div_mod::lemma_div_is_ordered(a1, a2, b);
    } else if a2 < 0 {
        vstd::arithmetic::div_mod::lemma_div_is_ordered(-a2, -a1, b);
    } else {
        vstd::arithmetic::div_mod::lemma_div_pos_is_pos(a2, b);
        vstd::arithmetic::div_mod::lemma_div_pos_is_pos(-a1, b);
    }
}

/// Exact multiples divide out under truncated division.
pub proof fn lemma_tdiv_multiple(x: int, b: int)
    requires
        b > 0,
    ensures
        tdiv(x * b, b) == x,
{
    if x >= 0 {
        assert(x * b == b * x) by (nonlinear_arith);
        assert(x * b >= 0) by (nonlinear_arith)
            requires
                x >= 0,
                b > 0,
        ;
        vstd::arithmetic::div_mod::lemma_div_multiples_vanish(x, b);
    } else {
        assert(-(x * b) == b * (-x)) by (nonlinear_arith);
        assert(x * b < 0) by (nonlinear_arith)
            requires
                x < 0,
                b > 0,
        ;
        vstd::arithmetic::div_mod::lemma_div_multiples_vanish(-x, b);
    }
}

/// What truncated division leaves behind: a remainder below `b` in
/// magnitude, with the sign of the dividend.
pub proof fn lemma_tdiv_remainder(a: int, b: int)
    requires
        b > 0,
    ensures
        a >= 0 ==> 0 <= a - tdiv(a, b) * b < b,
        a < 0 ==> -b < a - tdiv(a, b) * b <= 0,
{
    if a >= 0 {
        vstd::arithmetic::div_mod::lemma_fundamental_div_mod(a, b);
        assert(b * (a / b) == (a / b) * b) by (nonlinear_arith);
    } else {
        vstd::arithmetic::div_mod::lemma_fundamental_div_mod(-a, b);
        assert(b * ((-a) / b) == ((-a) / b) * b) by (nonlinear_arith);
        assert(tdiv(a, b) * b == -(((-a) / b) * b)) by (nonlinear_arith)
            requires
                tdiv(a, b) == -((-a) / b),
        ;
    }
}

/// A product scaled back down by `s` stays within the unscaled factor:
/// if `|t| <= s` then `|tdiv(d * t, s)| <= |d|`.
pub proof fn lemma_tdiv_product_bound(d: int, t: int, s: int)
    requires
        s > 0,
        -s <= t <= s,
    ensures
        -abs(d) <= tdiv(d * t, s) <= abs(d),
{
    assert(-abs(d) * s <= d * t <= abs(d) * s) by (nonlinear_arith)
        requires
            s > 0,
            -s <= t <= s,
    ;
    lemma_tdiv_ordered(-abs(d) * s, d * t, s);
    lemma_tdiv_ordered(d * t, abs(d) * s, s);
    lemma_tdiv_multiple(-abs(d), s);
    lemma_tdiv_multiple(abs(d), s);
}

/// Dividing by at least one never grows the magnitude.
pub proof fn lemma_tdiv_shrinks(a: int, b: int)
    requires
        b > 0,
    ensures
        -abs(a) <= tdiv(a, b) <= abs(a),
{
    if a >= 0 {
        vstd::arithmetic::div_mod::lemma_div_is_ordered_by_denominator(a, 1, b);
        vstd::arithmetic::div_mod::lemma_div_pos_is_pos(a, b);
    } else {
        vstd::arithmetic::div_mod::lemma_div_is_ordered_by_denominator(-a, 1, b);
        vstd::arithmetic::div_mod::lemma_div_pos_is_pos(-a, b);
    }
}

/// The absolute value.
pub open spec fn abs(a: int) -> int {
    if a >= 0 {
        a
    } else {
        -a
    }
}

/// The integer square root: the unique `r` with `r * r <= n < (r + 1) * (r + 1)`.
pub open spec fn isqrt_spec(n: nat) -> nat
    decreases n,
{
    if n == 0 {
        0
    } else {
        let r = isqrt_spec((n - 1) as nat);
        if (r + 1) * (r + 1) <= n {
            r + 1
        } else {
            r
        }
    }
}

/// `isqrt_spec(n)` brackets `n` between consecutive squares.
pub proof fn lemma_isqrt_spec_bracket(n: nat)
    ensures
        isqrt_spec(n) * isqrt_spec(n) <= n,
        n < (isqrt_spec(n) + 1) * (isqrt_spec(n) + 1),
    decreases n,
{
    if n == 0 {
        assert(n < (isqrt_spec(n) + 1) * (isqrt_spec(n) + 1)) by (nonlinear_arith)
            requires
                n == 0,
                isqrt_spec(n) == 0,
        ;
    } else {
        lemma_isqrt_spec_bracket((n - 1) as nat);
        let r = isqrt_spec((n - 1) as nat);
        if (r + 1) * (r + 1) <= n {
            assert(isqrt_spec(n) == r + 1);
            assert(n == (r + 1) * (r + 1));
            assert(n < (isqrt_spec(n) + 1) * (isqrt_spec(n) + 1)) by (nonlinear_arith)
                requires
                    n == (r + 1) * (r + 1),
                    isqrt_spec(n) == r + 1,
            ;
        } else {
            assert(isqrt_spec(n) == r);
            assert(r * r <= n - 1);
            assert(n < (isqrt_spec(n) + 1) * (isqrt_spec(n) + 1)) by (nonlinear_arith)
                requires
                    n < (r + 1) * (r + 1),
                    isqrt_spec(n) == r,
            ;
        }
    }
}

/// Only one natural number is bracketed that way, so the bracket pins `isqrt_spec` down.
pub proof fn lemma_isqrt_unique(n: nat, r: nat)
    requires
        r * r <= n,
        n < (r + 1) * (r + 1),
    ensures
        r == isqrt_spec(n),
{
    lemma_isqrt_spec_bracket(n);
    let s = isqrt_spec(n);
    if r < s {
        assert(false) by (nonlinear_arith)
            requires
                r < s,
                s * s <= n,
                n < (r + 1) * (r + 1),
        ;
    }
    if s < r {
        assert(false) by (nonlinear_arith)
            requires
                s < r,
                r * r <= n,
                n < (s + 1) * (s + 1),
        ;
    }
}

/// Integer square root by binary search.
pub fn isqrt(n: u128) -> (r: u128)
    ensures
        r == isqrt_spec(n as nat),
        r * r <= n,
        n < (r + 1) * (r + 1),
        r <= u64::MAX,
{
    let mut lo: u128 = 0;
    let mut hi: u128 = u64::MAX as u128;
    assert(n < (hi + 1) * (hi + 1)) by (nonlinear_arith)
        requires
            hi == u64::MAX as u128,
            n <= u128::MAX,
    ;
    while lo < hi
        invariant
            lo <= hi,
            hi <= u64::MAX,
            lo * lo <= n,
            n < (hi + 1) * (hi + 1),
        decreases hi - lo,
    {
        let mid: u128 = lo + (hi - lo + 1) / 2;
        assert(mid * mid <= u64::MAX as u128 * u64::MAX as u128) by (nonlinear_arith)
            requires
                mid <= u64::MAX as u128,
        ;
        if mid * mid <= n {
            lo = mid;
        } else {
            hi = mid - 1;
        }
    }
    proof {
        lemma_isqrt_unique(n as nat, lo as nat);
    }
    lo
}

} // verus!
