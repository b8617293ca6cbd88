//! Fixed-point arithmetic shared by the analysis and rendering modules.
use vstd::prelude::*;
use vstd::arithmetic::power::{pow, lemma_pow_positive};

verus! {

/// Scale of the fixed-point numbers used throughout the library: a value `v`
/// stands for the real number `v / ONE`.
pub const ONE: u64 = 10_000;

/// `r` is the integer square root of `n`: the largest `r` with `r * r <= n`.
pub open spec fn is_isqrt(n: int, r: int) -> bool {
    0 <= r && r * r <= n && n < (r + 1) * (r + 1)
}

/// Exponential moving average step `old + (raw - old) * k`, with `k` given in
/// units of `1 / ONE` and the result rounded down.
pub open spec fn ema(old: int, raw: int, k: int) -> int {
    (old * (ONE - k) + raw * k) / ONE as int
}

pub open spec fn abs(x: int) -> int {
    if x < 0 { -x } else { x }
}

pub open spec fn min_int(a: int, b: int) -> int {
    if a <= b { a } else { b }
}

pub open spec fn max_int(a: int, b: int) -> int {
    if a >= b { a } else { b }
}

/// `v * m / d`, rounded toward zero.
pub open spec fn scale_trunc(v: int, m: int, d: int) -> int {
    if v >= 0 { v * m / d } else { -((-v) * m / d) }
}

/// `v * m / d`, rounded toward zero.
pub fn mul_div_trunc(v: i64, m: u64, d: u64) -> (r: i64)
    requires
        d > 0,
        -0x7fff_ffff_ffff_ffff <= v,
        scale_trunc(v as int, m as int, d as int) <= 0x7fff_ffff_ffff_ffff,
        scale_trunc(v as int, m as int, d as int) >= -0x7fff_ffff_ffff_ffff,
    ensures
        r == scale_trunc(v as int, m as int, d as int),
{
    let a: u64 = if v < 0 { (-v) as u64 } else { v as u64 };
    assert((a as int) * (m as int) <= 0xffff_ffff_ffff_ffff * 0xffff_ffff_ffff_ffff)
        by (nonlinear_arith)
        requires a <= 0xffff_ffff_ffff_ffffu64, m <= 0xffff_ffff_ffff_ffffu64;
    let q = (a as u128) * (m as u128) / (d as u128);
    if v < 0 { -(q as i64) } else { q as i64 }
}

/// `a * b / d`, rounded toward zero.
pub open spec fn muldiv(a: int, b: int, d: int) -> int {
    if a * b >= 0 { a * b / d } else { -((-(a * b)) / d) }
}

/// `a * b / d`, rounded toward zero, for signed factors.
pub fn mul_div(a: i64, b: i64, d: u64) -> (r: i64)
    requires
        d > 0,
        -0x7fff_ffff_ffff_ffff <= muldiv(a as int, b as int, d as int) <= 0x7fff_ffff_ffff_ffff,
    ensures
        r == muldiv(a as int, b as int, d as int),
{
    assert(-0x4000_0000_0000_0000_0000_0000_0000_0000 <= (a as int) * (b as int)
        <= 0x4000_0000_0000_0000_0000_0000_0000_0000) by (nonlinear_arith)
        requires
            -0x8000_0000_0000_0000 <= a <= 0x7fff_ffff_ffff_ffff,
            -0x8000_0000_0000_0000 <= b <= 0x7fff_ffff_ffff_ffff,
    ;
    let p: i128 = (a as i128) * (b as i128);
    let m: u128 = if p < 0 { (-p) as u128 } else { p as u128 };
    let q = m / (d as u128);
    if p < 0 { -(q as i64) } else { q as i64 }
}

/// `|a * b / d| <= ma * mb / d` when `|a| <= ma` and `|b| <= mb`.
pub proof fn lemma_muldiv_bound(a: int, b: int, d: int, ma: int, mb: int)
    requires
        d > 0,
        -ma <= a <= ma,
        -mb <= b <= mb,
    ensures
        -(ma * mb / d) <= muldiv(a, b, d) <= ma * mb / d,
{
    let p = a * b;
    assert(-(ma * mb) <= p <= ma * mb) by (nonlinear_arith)
        requires -ma <= a <= ma, -mb <= b <= mb, p == a * b;
    if p >= 0 {
        assert(p / d <= ma * mb / d) by (nonlinear_arith)
            requires 0 <= p <= ma * mb, d > 0;
        assert(p / d >= 0) by (nonlinear_arith)
            requires 0 <= p, d > 0;
    } else {
        assert((-p) / d <= ma * mb / d) by (nonlinear_arith)
            requires 0 <= -p <= ma * mb, d > 0;
        assert((-p) / d >= 0) by (nonlinear_arith)
            requires 0 <= -p, d > 0;
    }
}

/// Integer square root, rounded down.
pub fn isqrt(n: u64) -> (r: u64)
    ensures
        is_isqrt(n as int, r as int),
{
    let mut lo: u64 = 0;
    let mut hi: u64 = 0x1_0000_0000;
    assert(n < hi * hi) by (nonlinear_arith)
        requires n <= 0xffff_ffff_ffff_ffffu64, hi == 0x1_0000_0000u64;
    while hi - lo > 1
        invariant
            lo < hi <= 0x1_0000_0000,
            lo * lo <= n,
            n < hi * hi,
        decreases hi - lo,
    {
        let mid = lo + (hi - lo) / 2;
        assert(mid * mid <= 0xffff_ffff_ffff_ffffu64) by (nonlinear_arith)
            requires mid < 0x1_0000_0000u64;
        if mid * mid <= n {
            lo = mid;
        } else {
            hi = mid;
        }
    }
    assert(hi == lo + 1);
    lo
}

/// One step of exponential smoothing: `old + (raw - old) * k` with `k` in
/// units of `1 / ONE`, rounded down.
pub fn smooth(old: u64, raw: u64, k: u64) -> (r: u64)
    requires
        k <= ONE,
    ensures
        r == ema(old as int, raw as int, k as int),
        min_int(old as int, raw as int) <= r <= max_int(old as int, raw as int),
{
    proof { lemma_ema_between(old as int, raw as int, k as int); }
    let w: u128 = (old as u128) * ((ONE - k) as u128) + (raw as u128) * (k as u128);
    (w / (ONE as u128)) as u64
}

/// A smoothing step lands between the old value and the target.
pub proof fn lemma_ema_between(old: int, raw: int, k: int)
    requires
        0 <= k <= ONE,
    ensures
        min_int(old, raw) <= ema(old, raw, k) <= max_int(old, raw),
{
    let lo = min_int(old, raw);
    let hi = max_int(old, raw);
    let w = old * (ONE - k) + raw * k;
    assert(lo * ONE <= w <= hi * ONE) by (nonlinear_arith)
        requires
            0 <= k <= ONE,
            lo <= old <= hi,
            lo <= raw <= hi,
            w == old * (ONE - k) + raw * k,
    ;
    assert(lo <= w / (ONE as int) <= hi) by (nonlinear_arith)
        requires lo * ONE <= w <= hi * ONE, ONE > 0;
}

pub open spec fn dist(a: int, b: int) -> int {
    if a >= b { a - b } else { b - a }
}

/// The value after `n` smoothing steps toward a constant target `raw`.
pub open spec fn ema_iter(s0: int, raw: int, k: int, n: nat) -> int
    decreases n,
{
    if n == 0 { s0 } else { ema(ema_iter(s0, raw, k, (n - 1) as nat), raw, k) }
}

/// One smoothing step shrinks the distance to the target by the factor
/// `1 - k`, up to less than one unit of rounding.
pub proof fn lemma_ema_step_contracts(s: int, raw: int, k: int)
    requires
        0 <= k <= ONE,
    ensures
        ONE * dist(raw, ema(s, raw, k)) <= (ONE - k) * dist(raw, s) + ONE - 1,
        dist(raw, ema(s, raw, k)) <= dist(raw, s),
{
    lemma_ema_between(s, raw, k);
    let w = s * (ONE - k) + raw * k;
    let q = ema(s, raw, k);
    assert(q == w / (ONE as int));
    assert(ONE * q <= w < ONE * q + ONE) by (nonlinear_arith)
        requires q == w / (ONE as int);
    assert(raw * ONE - w == (raw - s) * (ONE - k)) by (nonlinear_arith)
        requires w == s * (ONE - k) + raw * k;
    if s <= raw {
        assert(q <= raw);
        assert(dist(raw, q) == raw - q && dist(raw, s) == raw - s);
        assert(ONE * (raw - q) <= (raw - s) * (ONE - k) + ONE - 1) by (nonlinear_arith)
            requires ONE * q > w - ONE, raw * ONE - w == (raw - s) * (ONE - k);
        assert((ONE - k) * dist(raw, s) == (raw - s) * (ONE - k)) by (nonlinear_arith)
            requires dist(raw, s) == raw - s;
    } else {
        assert(q >= raw);
        assert(dist(raw, q) == q - raw && dist(raw, s) == s - raw);
        assert(ONE * (q - raw) <= (s - raw) * (ONE - k)) by (nonlinear_arith)
            requires ONE * q <= w, raw * ONE - w == (raw - s) * (ONE - k);
        assert((s - raw) * (ONE - k) >= 0) by (nonlinear_arith)
            requires s > raw, k <= ONE;
        assert((ONE - k) * dist(raw, s) == (s - raw) * (ONE - k)) by (nonlinear_arith)
            requires dist(raw, s) == s - raw;
    }
}

/// Smoothing toward a constant target approaches it monotonically without
/// overshooting, and after `n` frames the distance left is at most the
/// starting distance times `(1 - k)^n`, plus one unit of rounding per frame:
/// `ONE^n * |raw - s_n| <= (ONE - k)^n * |raw - s_0| + n * ONE^n`.
pub proof fn lemma_smoothing_converges(s0: int, raw: int, k: int, n: nat)
    requires
        0 <= k <= ONE,
    ensures
        min_int(s0, raw) <= ema_iter(s0, raw, k, n) <= max_int(s0, raw),
        dist(raw, ema_iter(s0, raw, k, n + 1)) <= dist(raw, ema_iter(s0, raw, k, n)),
        pow(ONE as int, n) * dist(raw, ema_iter(s0, raw, k, n)) <= pow(ONE - k, n) * dist(raw, s0)
            + n * pow(ONE as int, n),
    decreases n,
{
    reveal(pow);
    let sn = ema_iter(s0, raw, k, n);
    lemma_ema_step_contracts(sn, raw, k);
    assert(ema_iter(s0, raw, k, n + 1) == ema(sn, raw, k));
    if n > 0 {
        let m = (n - 1) as nat;
        lemma_smoothing_converges(s0, raw, k, m);
        let sm = ema_iter(s0, raw, k, m);
        lemma_ema_between(sm, raw, k);
        lemma_ema_step_contracts(sm, raw, k);
        lemma_pow_positive(ONE as int, m);
        let a = pow(ONE as int, m);
        let b = pow(ONE - k, m);
        let e0 = dist(raw, s0);
        let em = dist(raw, sm);
        let en = dist(raw, sn);
        assert(pow(ONE as int, n) == ONE * a);
        assert(pow(ONE - k, n) == (ONE - k) * b);
        assert(a * (ONE * en) <= a * ((ONE - k) * em + ONE - 1)) by (nonlinear_arith)
            requires a > 0, ONE * en <= (ONE - k) * em + ONE - 1;
        assert(a * ((ONE - k) * em + ONE - 1) == (ONE - k) * (a * em) + a * (ONE - 1))
            by (nonlinear_arith);
        assert((ONE - k) * (a * em) <= (ONE - k) * (b * e0 + m * a)) by (nonlinear_arith)
            requires k <= ONE, a * em <= b * e0 + m * a;
        assert((ONE - k) * (m * a) <= ONE * (m * a)) by (nonlinear_arith)
            requires k >= 0, m >= 0, a > 0;
        assert((ONE - k) * (b * e0 + m * a) == (ONE - k) * b * e0 + (ONE - k) * (m * a))
            by (nonlinear_arith);
        assert(ONE * a * en == a * (ONE * en)) by (nonlinear_arith);
        assert(n * (ONE * a) == ONE * (m * a) + ONE * a) by (nonlinear_arith)
            requires n == m + 1;
    }
}

} // verus!
