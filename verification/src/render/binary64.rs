//! Exact integer model of IEEE 754 binary64 rounding, for the positive
//! normal values that preview sizing computes with.
//!
//! A positive value `num / den` below `2^53` is represented in binary64 by the
//! nearest number `m / 2^k` whose mantissa `m` has 53 significant bits: `k`
//! is the scale that puts `num / den * 2^k` in `[2^52, 2^53)`, and `m` is
//! `num / den * 2^k` rounded to the nearest integer, ties to even (the
//! rounding of correctly rounded division and multiplication). A mantissa
//! that rounds up to `2^53` stands for the same value as `2^52 / 2^(k-1)`.

use vstd::prelude::*;
use vstd::arithmetic::power2::{
    pow2, lemma2_to64, lemma2_to64_rest, lemma_pow2_adds, lemma_pow2_pos, lemma_pow2_unfold,
};

verus! {

/// `n / d` rounded to the nearest integer, ties to the even neighbour.
pub open spec fn round_half_even(n: nat, d: nat) -> nat
    recommends
        d > 0,
{
    let q = n / d;
    let r = n % d;
    if 2 * r < d {
        q
    } else if 2 * r > d {
        q + 1
    } else if q % 2 == 0 {
        q
    } else {
        q + 1
    }
}

/// `n / d` rounded to the nearest integer, ties away from zero.
pub open spec fn round_half_up(n: nat, d: nat) -> nat
    recommends
        d > 0,
{
    (2 * n + d) / (2 * d)
}

/// Scaling `num / den` by `2^k` lands in `[2^52, 2^53)`: the binade of a
/// 53-bit mantissa.
pub open spec fn in_binade(num: nat, den: nat, k: nat) -> bool {
    &&& pow2(52) * den <= num * pow2(k)
    &&& num * pow2(k) < pow2(53) * den
}

/// The scale `k` of the binary64 value nearest to `num / den`.
pub open spec fn binade_scale(num: nat, den: nat) -> nat {
    choose|k: nat| in_binade(num, den, k)
}

/// The mantissa `m` of the binary64 value `m / 2^binade_scale(num, den)`
/// nearest to `num / den`, ties to even.
pub open spec fn nearest_mantissa(num: nat, den: nat) -> nat {
    round_half_even(num * pow2(binade_scale(num, den)), den)
}

/// Rounding to the nearest integer is off by at most one half.
pub proof fn lemma_round_half_even_bounds(n: nat, d: nat)
    requires
        d > 0,
    ensures
        2 * n <= 2 * d * round_half_even(n, d) + d,
        2 * d * round_half_even(n, d) <= 2 * n + d,
{
    let q = n / d;
    let r = n % d;
    let dq = d * q;
    assert(n == dq + r && 0 <= r < d) by {
        vstd::arithmetic::div_mod::lemma_fundamental_div_mod(n as int, d as int);
    }
    assert(2 * d * q == 2 * dq && 2 * d * (q + 1) == 2 * dq + 2 * d) by (nonlinear_arith)
        requires
            dq == d * q,
    ;
}

proof fn lemma_pow2_le(a: nat, b: nat)
    requires
        a <= b,
    ensures
        pow2(a) <= pow2(b),
{
    lemma_pow2_adds(a, (b - a) as nat);
    lemma_pow2_pos((b - a) as nat);
    assert(pow2(a) * pow2((b - a) as nat) >= pow2(a)) by (nonlinear_arith)
        requires
            pow2((b - a) as nat) >= 1,
    ;
}

/// `2^127`, the largest power of two below `u128::MAX`.
pub proof fn lemma_pow2_127()
    ensures
        pow2(127) == 0x8000_0000_0000_0000_0000_0000_0000_0000,
        pow2(126) == 0x4000_0000_0000_0000_0000_0000_0000_0000,
        pow2(74) == 0x400_0000_0000_0000_0000,
{
    lemma2_to64();
    lemma2_to64_rest();
    lemma_pow2_adds(63, 64);
    lemma_pow2_adds(62, 64);
    lemma_pow2_adds(10, 64);
}

/// A value has exactly one binade: at most one scale puts it in `[2^52, 2^53)`.
pub proof fn lemma_binade_unique(num: nat, den: nat, k1: nat, k2: nat)
    requires
        in_binade(num, den, k1),
        in_binade(num, den, k2),
    ensures
        k1 == k2,
{
    if k1 != k2 {
        let (a, b) = if k1 < k2 { (k1, k2) } else { (k2, k1) };
        lemma_pow2_adds((a + 1) as nat, (b - a - 1) as nat);
        lemma_pow2_pos((b - a - 1) as nat);
        lemma_pow2_unfold((a + 1) as nat);
        lemma_pow2_unfold(53);
        assert(pow2(b) >= 2 * pow2(a)) by (nonlinear_arith)
            requires
                pow2(b) == pow2((a + 1) as nat) * pow2((b - a - 1) as nat),
                pow2((b - a - 1) as nat) >= 1,
                pow2((a + 1) as nat) == 2 * pow2(a),
        ;
        assert(num * pow2(b) >= 2 * (num * pow2(a))) by (nonlinear_arith)
            requires
                pow2(b) >= 2 * pow2(a),
        ;
        assert(pow2(53) * den == 2 * (pow2(52) * den)) by (nonlinear_arith)
            requires
                pow2(53) == 2 * pow2(52),
        ;
        assert(in_binade(num, den, a) && in_binade(num, den, b));
        assert(false);
    }
}

proof fn lemma_binade_exists(num: nat, den: nat) -> (k: nat)
    requires
        num > 0,
        den > 0,
        num < pow2(53) * den,
    ensures
        in_binade(num, den, k),
    decreases pow2(53) * den - num,
{
    lemma_pow2_unfold(53);
    lemma_pow2_pos(52);
    if num >= pow2(52) * den {
        lemma2_to64();
        0
    } else {
        assert(pow2(53) * den == 2 * (pow2(52) * den)) by (nonlinear_arith)
            requires
                pow2(53) == 2 * pow2(52),
        ;
        let k = lemma_binade_exists(2 * num, den);
        lemma_pow2_unfold(k + 1);
        assert(num * pow2(k + 1) == (2 * num) * pow2(k)) by (nonlinear_arith)
            requires
                pow2(k + 1) == 2 * pow2(k),
        ;
        k + 1
    }
}

/// Every positive value below `2^53` has a binade, and `binade_scale` is it.
pub proof fn lemma_binade_scale(num: nat, den: nat)
    requires
        num > 0,
        den > 0,
        num < pow2(53) * den,
    ensures
        in_binade(num, den, binade_scale(num, den)),
{
    let k = lemma_binade_exists(num, den);
    assert(in_binade(num, den, k));
}

/// A mantissa rounded from the binade `[2^52, 2^53)` stays in `[2^52, 2^53]`.
pub proof fn lemma_mantissa_range(num: nat, den: nat, k: nat)
    requires
        den > 0,
        in_binade(num, den, k),
    ensures
        pow2(52) <= round_half_even(num * pow2(k), den) <= pow2(53),
{
    let n = num * pow2(k);
    let m = round_half_even(n, den);
    lemma_round_half_even_bounds(n, den);
    assert(pow2(52) <= m) by (nonlinear_arith)
        requires
            pow2(52) * den <= n,
            2 * n <= 2 * den * m + den,
            den > 0,
    ;
    assert(m <= pow2(53)) by (nonlinear_arith)
        requires
            n < pow2(53) * den,
            2 * den * m <= 2 * n + den,
            den > 0,
    ;
}

/// `2^k` as a `u128`.
pub fn pow2_u128(k: u32) -> (p: u128)
    requires
        k < 128,
    ensures
        p == pow2(k as nat),
{
    proof {
        lemma2_to64();
        lemma_pow2_127();
    }
    let mut p: u128 = 1;
    let mut i: u32 = 0;
    while i < k
        invariant
            i <= k < 128,
            p == pow2(i as nat),
            pow2(127) == 0x8000_0000_0000_0000_0000_0000_0000_0000,
        decreases k - i,
    {
        proof {
            lemma_pow2_unfold((i + 1) as nat);
            lemma_pow2_le((i + 1) as nat, 127);
        }
        p = p * 2;
        i = i + 1;
    }
    p
}

/// The binary64 value nearest to `num / den`, as its mantissa and scale:
/// the value is `mantissa / 2^scale`.
pub fn nearest_binary64(num: u128, den: u128) -> (r: (u128, u32))
    requires
        num > 0,
        den > 0,
        den <= pow2(74),
        num < pow2(53) * den,
    ensures
        r.1 == binade_scale(num as nat, den as nat),
        r.0 == nearest_mantissa(num as nat, den as nat),
        in_binade(num as nat, den as nat, r.1 as nat),
        pow2(52) <= r.0 <= pow2(53),
        r.1 < 127,
{
    proof {
        lemma2_to64();
        lemma2_to64_rest();
        lemma_pow2_127();
    }
    let lo: u128 = den * 0x10_0000_0000_0000;
    let mut scaled: u128 = num;
    let mut k: u32 = 0;
    while scaled < lo
        invariant
            0 < den <= pow2(74),
            pow2(52) == 0x10_0000_0000_0000,
            pow2(53) == 0x20_0000_0000_0000,
            pow2(74) == 0x400_0000_0000_0000_0000,
            pow2(126) == 0x4000_0000_0000_0000_0000_0000_0000_0000,
            lo == pow2(52) * den,
            scaled == num * pow2(k as nat),
            scaled < pow2(53) * den,
            k < 127,
            pow2(k as nat) <= scaled,
        decreases 2 * lo - scaled,
    {
        proof {
            lemma_pow2_unfold((k + 1) as nat);
            lemma_pow2_pos(k as nat);
            assert(lo <= pow2(126)) by (nonlinear_arith)
                requires
                    lo == pow2(52) * den,
                    den <= pow2(74),
                    pow2(52) == 0x10_0000_0000_0000,
                    pow2(74) == 0x400_0000_0000_0000_0000,
                    pow2(126) == 0x4000_0000_0000_0000_0000_0000_0000_0000,
            ;
            if k + 1 >= 127 {
                lemma_pow2_le(126, k as nat);
                assert(false);
            }
            assert(num * pow2((k + 1) as nat) == 2 * (num * pow2(k as nat))) by (nonlinear_arith)
                requires
                    pow2((k + 1) as nat) == 2 * pow2(k as nat),
            ;
        }
        scaled = scaled * 2;
        k = k + 1;
    }
    let q = scaled / den;
    let rem = scaled % den;
    let m = if 2 * rem < den {
        q
    } else if 2 * rem > den {
        q + 1
    } else if q % 2 == 0 {
        q
    } else {
        q + 1
    };
    proof {
        assert(in_binade(num as nat, den as nat, k as nat));
        lemma_binade_scale(num as nat, den as nat);
        lemma_binade_unique(num as nat, den as nat, k as nat, binade_scale(num as nat, den as nat));
        lemma_mantissa_range(num as nat, den as nat, k as nat);
    }
    (m, k)
}

} // verus!
