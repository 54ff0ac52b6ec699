//! Exact integer arithmetic: bounds on products, 256-bit products and
//! integer square roots.
use vstd::prelude::*;
use vstd::arithmetic::div_mod::lemma_fundamental_div_mod;

verus! {

pub proof fn lemma_mul_abs_le(a: int, b: int, la: int, lb: int)
    requires
        -la <= a <= la,
        -lb <= b <= lb,
    ensures
        -(la * lb) <= a * b <= la * lb,
{
    assert(-(la * lb) <= a * b <= la * lb) by (nonlinear_arith)
        requires -la <= a <= la, -lb <= b <= lb;
}

pub proof fn lemma_mul_le_mono(a: int, b: int, c: int, d: int)
    requires
        0 <= a <= c,
        0 <= b <= d,
    ensures
        0 <= a * b <= c * d,
{
    assert(0 <= a * b <= c * d) by (nonlinear_arith)
        requires 0 <= a <= c, 0 <= b <= d;
}

pub proof fn lemma_abs_lt_of_square_lt(x: int, k: int)
    requires
        0 <= k,
        x * x < k * k,
    ensures
        -k < x < k,
{
    if x >= k {
        lemma_mul_le_mono(k, k, x, x);
    }
    if x <= -k {
        lemma_mul_le_mono(k, k, -x, -x);
        assert((-x) * (-x) == x * x) by (nonlinear_arith);
    }
}

pub proof fn lemma_split_product(a1: int, a0: int, b1: int, b0: int, m: int)
    ensures
        (m * a1 + a0) * (m * b1 + b0) == (a1 * b1) * m * m + (a0 * b1 + a1 * b0) * m + a0 * b0,
{
    let x: int = m * a1;
    let y: int = m * b1;
    assert((x + a0) * (y + b0) == x * y + x * b0 + a0 * y + a0 * b0) by (nonlinear_arith);
    assert(x * y == (a1 * b1) * m * m) by (nonlinear_arith)
        requires x == m * a1, y == m * b1;
    assert(x * b0 == (a1 * b0) * m) by (nonlinear_arith)
        requires x == m * a1;
    assert(a0 * y == (a0 * b1) * m) by (nonlinear_arith)
        requires y == m * b1;
    assert((a0 * b1) * m + (a1 * b0) * m == (a0 * b1 + a1 * b0) * m) by (nonlinear_arith);
}

pub proof fn lemma_recombine(
    m: int,
    p00: int,
    p01: int,
    p10: int,
    p11: int,
    q00: int,
    r00: int,
    q01: int,
    r01: int,
    q10: int,
    r10: int,
    mid: int,
    qm: int,
    rm: int,
)
    requires
        p00 == m * q00 + r00,
        p01 == m * q01 + r01,
        p10 == m * q10 + r10,
        mid == q00 + r01 + r10,
        mid == m * qm + rm,
    ensures
        (p11 + q01 + q10 + qm) * m * m + (r00 + rm * m) == p11 * m * m + (p01 + p10) * m + p00,
{
    assert((p11 + q01 + q10 + qm) * m * m + (r00 + rm * m) == p11 * m * m + (p01 + p10) * m + p00)
        by (nonlinear_arith)
        requires
            p00 == m * q00 + r00,
            p01 == m * q01 + r01,
            p10 == m * q10 + r10,
            mid == q00 + r01 + r10,
            mid == m * qm + rm,
    ;
}

pub proof fn lemma_square_nonneg(a: int)
    ensures
        a * a >= 0,
{
    assert(a * a >= 0) by (nonlinear_arith);
}

/// 2^128 as a mathematical integer.
pub open spec fn two_pow_128() -> int {
    0x1_0000_0000_0000_0000_0000_0000_0000_0000int
}

/// The value of a 256-bit number given as a high and a low half.
pub open spec fn wide_value(w: (u128, u128)) -> int {
    w.0 as int * two_pow_128() + w.1 as int
}

/// The full product of two 128-bit values, as a high and a low half.
pub fn mul_wide(a: u128, b: u128) -> (r: (u128, u128))
    ensures
        wide_value(r) == a as int * b as int,
{
    let m: u128 = 0x1_0000_0000_0000_0000;
    let a0: u128 = a % m;
    let a1: u128 = a / m;
    let b0: u128 = b % m;
    let b1: u128 = b / m;
    let ghost bm: int = 0x1_0000_0000_0000_0000int;
    proof {
        lemma_fundamental_div_mod(a as int, bm);
        lemma_fundamental_div_mod(b as int, bm);
        lemma_mul_le_mono(a0 as int, b0 as int, bm - 1, bm - 1);
        lemma_mul_le_mono(a0 as int, b1 as int, bm - 1, bm - 1);
        lemma_mul_le_mono(a1 as int, b0 as int, bm - 1, bm - 1);
        lemma_mul_le_mono(a1 as int, b1 as int, bm - 1, bm - 1);
    }
    let p00: u128 = a0 * b0;
    let p01: u128 = a0 * b1;
    let p10: u128 = a1 * b0;
    let p11: u128 = a1 * b1;
    let mid: u128 = p00 / m + p01 % m + p10 % m;
    let lo: u128 = p00 % m + (mid % m) * m;
    let ghost hi_g: int = p11 as int + (p01 as int) / bm + (p10 as int) / bm + (mid as int) / bm;
    proof {
        lemma_fundamental_div_mod(p00 as int, bm);
        lemma_fundamental_div_mod(p01 as int, bm);
        lemma_fundamental_div_mod(p10 as int, bm);
        lemma_fundamental_div_mod(mid as int, bm);
        lemma_split_product(a1 as int, a0 as int, b1 as int, b0 as int, bm);
        lemma_recombine(
            bm,
            p00 as int,
            p01 as int,
            p10 as int,
            p11 as int,
            (p00 as int) / bm,
            (p00 as int) % bm,
            (p01 as int) / bm,
            (p01 as int) % bm,
            (p10 as int) / bm,
            (p10 as int) % bm,
            mid as int,
            (mid as int) / bm,
            (mid as int) % bm,
        );
        lemma_mul_le_mono(a as int, b as int, bm * bm - 1, bm * bm - 1);
        lemma_mul_le_mono(hi_g, bm * bm, hi_g, bm * bm);
        if hi_g >= bm * bm {
            lemma_mul_le_mono(bm * bm, bm * bm, hi_g, bm * bm);
        }
        assert(hi_g < bm * bm);
    }
    let hi: u128 = p11 + p01 / m + p10 / m + mid / m;
    (hi, lo)
}

/// Whether one 256-bit number is at most another.
pub fn le_wide(x: (u128, u128), y: (u128, u128)) -> (r: bool)
    ensures
        r == (wide_value(x) <= wide_value(y)),
{
    x.0 < y.0 || (x.0 == y.0 && x.1 <= y.1)
}

/// `r` is the integer square root of `n`.
pub open spec fn is_root(r: int, n: int) -> bool {
    0 <= r && r * r <= n && n < (r + 1) * (r + 1)
}

/// The integer square root of `n`, rounded down.
pub open spec fn spec_isqrt(n: int) -> int {
    choose|r: int| is_root(r, n)
}

pub proof fn lemma_root_unique(r: int, s: int, n: int)
    requires
        is_root(r, n),
        is_root(s, n),
    ensures
        r == s,
{
    if r < s {
        assert((r + 1) * (r + 1) <= s * s) by (nonlinear_arith)
            requires 0 <= r, r + 1 <= s;
    } else if s < r {
        assert((s + 1) * (s + 1) <= r * r) by (nonlinear_arith)
            requires 0 <= s, s + 1 <= r;
    }
}

/// The integer square root of `n`, rounded down.
pub fn isqrt(n: u128) -> (r: u128)
    ensures
        is_root(r as int, n as int),
        r as int == spec_isqrt(n as int),
        r < 0x1_0000_0000_0000_0000,
{
    let mut lo: u128 = 0;
    let mut hi: u128 = 0x1_0000_0000_0000_0000;
    while hi - lo > 1
        invariant
            lo < hi <= 0x1_0000_0000_0000_0000u128,
            (lo as int) * (lo as int) <= n as int,
            (n as int) < (hi as int) * (hi as int),
        decreases hi - lo,
    {
        let mid: u128 = lo + (hi - lo) / 2;
        assert((mid as int) * (mid as int) < 0x1_0000_0000_0000_0000_0000_0000_0000_0000int) by (nonlinear_arith)
            requires 0 <= mid < 0x1_0000_0000_0000_0000int;
        if mid * mid <= n {
            lo = mid;
        } else {
            hi = mid;
        }
    }
    proof {
        assert(is_root(lo as int, n as int));
        lemma_root_unique(lo as int, spec_isqrt(n as int), n as int);
    }
    lo
}

/// Truncating division: the quotient is rounded toward zero.
pub open spec fn div_toward_zero(v: int, d: int) -> int {
    if v >= 0 {
        v / d
    } else {
        -((-v) / d)
    }
}

} // verus!
