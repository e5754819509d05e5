//! Whole-number arithmetic that reproduces how the read-outs of fractional
//! durations come out: the seconds converted to a single-precision float,
//! divided in single precision, and printed to a fixed number of decimals.
//!
//! Single precision keeps 24 significant bits and rounds to nearest, ties to
//! even; printing with a fixed precision rounds the exact binary value, ties
//! to even as well. Both roundings are written out here over whole numbers,
//! so the text a duration reads as is a function Verus can state and check.

use vstd::prelude::*;

verus! {

/// Two to the power `n`.
pub open spec fn p2(n: nat) -> nat
    decreases n,
{
    if n == 0 { 1 } else { 2 * p2((n - 1) as nat) }
}

/// `a / b` rounded to the nearest whole number, ties to the even one.
pub open spec fn rhe(a: nat, b: nat) -> nat {
    let q = a / b;
    let r = a % b;
    if 2 * r > b {
        q + 1
    } else if 2 * r < b {
        q
    } else if q % 2 == 0 {
        q
    } else {
        q + 1
    }
}

/// How many low bits of `x` fall below single precision: the least `k` from
/// `k` up with `x < 2^(24 + k)` (at most 9, which covers every 32-bit value).
pub open spec fn f32_drop(x: nat, k: nat) -> nat
    decreases 9 - k,
{
    if k >= 9 || x < p2(24 + k) { k } else { f32_drop(x, k + 1) }
}

/// The whole number `x` as a single-precision float: rounded to a multiple
/// of `2^k`, ties to even, where `k` is how many bits do not fit.
pub open spec fn f32_of(x: nat) -> nat {
    let k = f32_drop(x, 0);
    rhe(x, p2(k)) * p2(k)
}

/// The binary scale of a quotient `x / d` in single precision: the least `j`
/// from `j` up (at most 23) with `x * 2^j >= 2^23 * d`, so that the
/// quotient's 24 significant bits are the whole part of `x * 2^j / d`.
pub open spec fn quot_scale(x: nat, d: nat, j: nat) -> nat
    decreases 23 - j,
{
    if j >= 23 || x * p2(j) >= p2(23) * d { j } else { quot_scale(x, d, j + 1) }
}

/// `x as f32 / d as f32`, printed to the precision whose unit is `1/scale`,
/// as a whole count of that unit: the float quotient is `m / 2^j` with
/// `m = rhe(x * 2^j, d)`, and printing rounds `scale * m / 2^j`.
pub open spec fn f32_fixed(x: nat, d: nat, scale: nat) -> nat {
    let xf = f32_of(x);
    let j = quot_scale(xf, d, 0);
    let m = rhe(xf * p2(j), d);
    rhe(scale * m, p2(j))
}

pub proof fn lemma_p2_values()
    ensures
        p2(23) == 8388608,
        p2(24) == 16777216,
        p2(32) == 4294967296,
        p2(33) == 8589934592,
        p2(8) == 256,
        p2(40) == 1099511627776,
{
    reveal_with_fuel(p2, 41);
}

pub proof fn lemma_p2_step(n: nat)
    ensures
        p2(n + 1) == 2 * p2(n),
        p2(n) >= 1,
    decreases n,
{
    if n > 0 {
        lemma_p2_step((n - 1) as nat);
    }
}

pub proof fn lemma_p2_mono(a: nat, b: nat)
    requires
        a <= b,
    ensures
        p2(a) <= p2(b),
    decreases b - a,
{
    if a < b {
        lemma_p2_mono(a, (b - 1) as nat);
        lemma_p2_step((b - 1) as nat);
    }
}

/// `2^n` for a small `n`.
pub fn pow2(n: u64) -> (r: u64)
    requires
        n <= 40,
    ensures
        r as nat == p2(n as nat),
{
    let mut r: u64 = 1;
    let mut i: u64 = 0;
    while i < n
        invariant
            i <= n <= 40,
            r as nat == p2(i as nat),
        decreases n - i,
    {
        proof {
            lemma_p2_step(i as nat);
            lemma_p2_mono(i as nat + 1, 40);
            lemma_p2_values();
        }
        r = r * 2;
        i = i + 1;
    }
    r
}

/// `a / b` rounded to nearest, ties to even.
pub fn round_half_even(a: u64, b: u64) -> (r: u64)
    requires
        b > 0,
    ensures
        r as nat == rhe(a as nat, b as nat),
{
    let q = a / b;
    let rem = a % b;
    if b == 1 {
        assert(rem == 0);
        return q;
    }
    assert(q < u64::MAX) by (nonlinear_arith)
        requires
            q == a / b,
            b >= 2,
    ;
    if rem > b - rem {
        q + 1
    } else if rem < b - rem {
        q
    } else if q % 2 == 0 {
        q
    } else {
        q + 1
    }
}

/// `x as f32`, as the whole number it rounds to.
pub fn f32_of_exec(x: u64) -> (r: u64)
    requires
        x <= u32::MAX,
    ensures
        r as nat == f32_of(x as nat),
        r <= 8589934592u64,
{
    proof {
        lemma_p2_values();
    }
    let mut k: u64 = 0;
    let mut lim: u64 = 16777216;
    let mut pk: u64 = 1;
    while k < 9 && x >= lim
        invariant
            k <= 8,
            lim as nat == p2(24 + k as nat),
            pk as nat == p2(k as nat),
            lim == pk * 16777216,
            1 <= pk <= 256,
            x <= u32::MAX,
            f32_drop(x as nat, k as nat) == f32_drop(x as nat, 0),
        decreases 9 - k,
    {
        proof {
            lemma_p2_step(24 + k as nat);
            lemma_p2_step(k as nat);
            lemma_p2_values();
            if k >= 8 {
                lemma_p2_mono(8, k as nat);
            }
            lemma_p2_mono(k as nat + 1, 8);
        }
        lim = lim * 2;
        pk = pk * 2;
        k = k + 1;
    }
    assert(f32_drop(x as nat, k as nat) == k);
    let q = round_half_even(x, pk);
    assert(q * pk <= x + pk) by (nonlinear_arith)
        requires
            q as nat == rhe(x as nat, pk as nat),
            pk >= 1,
    {
        assert(x as nat / pk as nat * pk as nat <= x as nat);
    }
    q * pk
}

/// The binary scale of `x as f32 / d as f32` (see [`quot_scale`]).
pub fn quot_scale_exec(x: u64, d: u64) -> (r: (u64, u64))
    requires
        1 <= d <= 3600,
        d <= x <= 8589934592u64,
    ensures
        r.0 as nat == quot_scale(x as nat, d as nat, 0),
        r.0 <= 23,
        r.1 as nat == x * p2(r.0 as nat),
        r.1 <= 60397977600u64,
{
    proof {
        lemma_p2_values();
    }
    let lim: u64 = 8388608 * d;
    assert(p2(0) == 1);
    let mut j: u64 = 0;
    let mut y: u64 = x;
    while j < 23 && y < lim
        invariant
            j <= 23,
            lim as nat == p2(23) * d,
            lim <= 30198988800u64,
            y as nat == x * p2(j as nat),
            y <= 60397977600u64,
            j > 0 ==> y < 2 * lim,
            x <= 8589934592u64,
            1 <= d <= 3600,
            quot_scale(x as nat, d as nat, j as nat) == quot_scale(x as nat, d as nat, 0),
        decreases 23 - j,
    {
        proof {
            lemma_p2_step(j as nat);
        }
        assert(x * p2(j as nat + 1) == 2 * (x * p2(j as nat))) by (nonlinear_arith)
            requires
                p2(j as nat + 1) == 2 * p2(j as nat),
        ;
        y = y * 2;
        j = j + 1;
    }
    (j, y)
}

/// `x as f32 / d as f32` printed with `1/scale` as its last digit, as a whole
/// count of that unit (see [`f32_fixed`]).
pub fn f32_fixed_exec(x: u64, d: u64, scale: u64) -> (r: u64)
    requires
        1 <= d <= 3600,
        d <= x <= u32::MAX,
        1 <= scale <= 10,
    ensures
        r as nat == f32_fixed(x as nat, d as nat, scale as nat),
{
    let xf = f32_of_exec(x);
    assert(xf >= d) by {
        lemma_f32_of_at_least(x as nat, d as nat);
    }
    let (j, y) = quot_scale_exec(xf, d);
    let m = round_half_even(y, d);
    assert(m <= 60397977600u64) by (nonlinear_arith)
        requires
            m as nat == rhe(y as nat, d as nat),
            y <= 60397977600u64,
            d >= 1,
    {
        assert(y as nat / d as nat <= y as nat);
    }
    let pj = pow2(j);
    proof {
        lemma_p2_step(j as nat);
    }
    assert(scale * m <= 603979776000u64) by (nonlinear_arith)
        requires
            m <= 60397977600u64,
            scale <= 10,
    ;
    round_half_even(scale * m, pj)
}

/// Rounding to single precision never takes a value below a bound that is
/// itself exactly representable; the bounds used here are under `2^24`.
pub proof fn lemma_f32_of_at_least(x: nat, d: nat)
    requires
        d <= x,
        d <= 3600,
    ensures
        f32_of(x) >= d,
{
    lemma_p2_values();
    let k = f32_drop(x, 0);
    lemma_f32_drop_facts(x, 0);
    let pk = p2(k);
    lemma_p2_step(k);
    if k == 0 {
        assert(pk == 1);
        assert(rhe(x, 1) == x) by (nonlinear_arith);
    } else {
        // `x` needs more than 24 bits, so it is at least 2^23 * 2^k.
        lemma_p2_mono(24 + (k - 1) as nat, 24 + k);
        assert(x >= p2(23 + k));
        lemma_p2_split(23, k);
        assert(p2(23 + k) == p2(23) * pk);
        assert(x / pk >= p2(23)) by (nonlinear_arith)
            requires
                x >= p2(23) * pk,
                pk >= 1,
        ;
        assert(rhe(x, pk) * pk >= p2(23) * pk) by (nonlinear_arith)
            requires
                rhe(x, pk) >= x / pk,
                x / pk >= p2(23),
                pk >= 1,
        ;
        assert(p2(23) * pk >= p2(23)) by (nonlinear_arith)
            requires
                pk >= 1,
        ;
    }
}

pub proof fn lemma_f32_drop_facts(x: nat, k: nat)
    requires
        k <= 9,
    ensures
        f32_drop(x, k) >= k,
        f32_drop(x, k) <= 9,
        f32_drop(x, k) < 9 ==> x < p2(24 + f32_drop(x, k)),
        f32_drop(x, k) > k ==> x >= p2(24 + (f32_drop(x, k) - 1) as nat),
    decreases 9 - k,
{
    if k < 9 && x >= p2(24 + k) {
        lemma_f32_drop_facts(x, k + 1);
    }
}

pub proof fn lemma_p2_split(a: nat, b: nat)
    ensures
        p2(a + b) == p2(a) * p2(b),
    decreases b,
{
    if b == 0 {
        assert(p2(0) == 1);
        assert(p2(a) * 1 == p2(a));
    } else {
        let b1 = (b - 1) as nat;
        lemma_p2_split(a, b1);
        lemma_p2_step(a + b1);
        lemma_p2_step(b1);
        assert(a + b1 + 1 == a + b);
        assert(b1 + 1 == b);
        assert(p2(a) * p2(b) == 2 * (p2(a) * p2((b - 1) as nat))) by (nonlinear_arith)
            requires
                p2(b) == 2 * p2((b - 1) as nat),
        ;
    }
}

pub proof fn lemma_quot_scale_facts(x: nat, d: nat, j: nat)
    requires
        j <= 23,
    ensures
        j <= quot_scale(x, d, j) <= 23,
        quot_scale(x, d, j) < 23 ==> x * p2(quot_scale(x, d, j)) >= p2(23) * d,
    decreases 23 - j,
{
    if j < 23 && x * p2(j) < p2(23) * d {
        lemma_quot_scale_facts(x, d, j + 1);
    }
}

/// `rhe(a, b)` is `a / b`, or one more when the remainder calls for it.
proof fn lemma_rhe_floor(a: nat, b: nat)
    requires
        b > 0,
    ensures
        a / b <= rhe(a, b) <= a / b + 1,
        2 * (a % b) < b ==> rhe(a, b) == a / b,
        2 * (a % b) > b ==> rhe(a, b) == a / b + 1,
{
}

/// Below single precision's 24 bits a whole number is its own float.
pub proof fn lemma_f32_of_small(x: nat)
    requires
        x < 16777216,
    ensures
        f32_of(x) == x,
{
    lemma_p2_values();
    assert(f32_drop(x, 0) == 0);
    assert(p2(0) == 1);
    assert(rhe(x, 1) == x) by (nonlinear_arith);
}

/// The minutes read-out is the nearest whole minute, a half going to the
/// even one: printing the single-precision quotient with no decimals gives
/// exactly the rounded quotient of the whole numbers.
pub proof fn lemma_minutes_are_the_nearest_minute(s: nat)
    requires
        60 <= s < 3600,
    ensures
        f32_fixed(s, 60, 1) == rhe(s, 60),
{
    lemma_p2_values();
    lemma_f32_of_small(s);
    let j = quot_scale(s, 60, 0);
    lemma_quot_scale_facts(s, 60, 0);
    let pp = p2(j);
    lemma_p2_step(j);
    assert(pp >= 64) by {
        if j == 23 {
        } else {
            assert(s * pp >= 8388608 * 60);
            assert(pp >= 64) by (nonlinear_arith)
                requires
                    s * pp >= 8388608 * 60,
                    s < 3600,
            ;
        }
    }
    assert(j >= 1) by {
        if j == 0 {
            assert(p2(0) == 1);
        }
    }
    lemma_p2_step((j - 1) as nat);
    let half = p2((j - 1) as nat);
    assert(pp == 2 * half);
    let q = s / 60;
    let r = s % 60;
    let a = s * pp;
    assert(a == 60 * (q * pp) + r * pp) by (nonlinear_arith)
        requires
            a == s * pp,
            s == 60 * q + r,
    ;
    let m = rhe(a, 60);
    lemma_rhe_floor(a, 60);
    lemma_rhe_floor(m, pp);
    lemma_rhe_floor(s, 60);
    assert(s == 60 * q + r && r < 60);
    if r < 30 {
        assert(a / 60 >= q * pp && a / 60 <= q * pp + half - 2) by (nonlinear_arith)
            requires
                a == 60 * (q * pp) + r * pp,
                r <= 29,
                pp == 2 * half,
                pp >= 64,
        ;
        assert(q * pp <= m <= q * pp + half - 1);
        let t = m - q * pp;
        vstd::arithmetic::div_mod::lemma_fundamental_div_mod_converse(m as int, pp as int, q as int, t);
        assert(q * pp == pp * q) by (nonlinear_arith);
    } else if r > 30 {
        assert(a / 60 >= q * pp + half + 1 && a / 60 <= q * pp + pp - 2) by (nonlinear_arith)
            requires
                a == 60 * (q * pp) + r * pp,
                31 <= r <= 59,
                pp == 2 * half,
                pp >= 64,
        ;
        assert(q * pp + half + 1 <= m <= q * pp + pp - 1);
        let t = m - q * pp;
        vstd::arithmetic::div_mod::lemma_fundamental_div_mod_converse(m as int, pp as int, q as int, t);
        assert(q * pp == pp * q) by (nonlinear_arith);
    } else {
        assert(a == 60 * (q * pp + half)) by (nonlinear_arith)
            requires
                a == 60 * (q * pp) + r * pp,
                r == 30,
                pp == 2 * half,
        ;
        assert(a / 60 == q * pp + half && a % 60 == 0) by (nonlinear_arith)
            requires
                a == 60 * (q * pp + half),
        ;
        assert(m == q * pp + half);
        vstd::arithmetic::div_mod::lemma_fundamental_div_mod_converse(m as int, pp as int, q as int, half as int);
        assert(q * pp == pp * q) by (nonlinear_arith);
    }
}

} // verus!
