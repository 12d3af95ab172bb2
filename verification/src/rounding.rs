//! How binary64 arithmetic rounds.
//!
//! A binary64 number has a significand of 53 bits. Where the exact result
//! of an operation needs more, it is replaced by the nearest number that
//! does not, and of two that are equally near by the one whose significand
//! is even. This module states that rule for whole numbers of units of
//! 2^-1074, which is what a product of a binary64 number with a whole
//! number is, and computes it.

use vstd::prelude::*;
use vstd::arithmetic::div_mod::*;
use vstd::arithmetic::power2::*;

verus! {

/// The first whole number that needs more than 53 bits, 2^53.
pub const SIGNIFICAND_LIMIT: u64 = 0x0020_0000_0000_0000;

/// The number of low bits of `n` that do not fit in a significand: none
/// below 2^53, and one more each time `n` doubles from there.
pub open spec fn excess_bits(n: nat) -> nat
    decreases n,
{
    if n < SIGNIFICAND_LIMIT {
        0
    } else {
        1 + excess_bits(n / 2)
    }
}

/// The multiple of `unit` nearest to `n`; of two that are equally near, the
/// even multiple.
pub open spec fn round_to_multiple(n: nat, unit: nat) -> nat {
    let quotient = n / unit;
    let rest = n % unit;
    if 2 * rest > unit || (2 * rest == unit && quotient % 2 == 1) {
        (quotient + 1) * unit
    } else {
        quotient * unit
    }
}

/// The exact result `n`, a whole number of units, as binary64 arithmetic
/// rounds it: to the nearest number with a significand of 53 bits, a tie
/// to the even significand. Results past the largest finite number are not
/// modelled.
pub open spec fn rounded(n: nat) -> nat {
    round_to_multiple(n, pow2(excess_bits(n)))
}

/// A number with excess bits is at least 2^52 times the unit it is rounded
/// to; a number without is below 2^53.
pub proof fn lemma_excess_bits_bounds(n: nat)
    ensures
        excess_bits(n) == 0 ==> n < SIGNIFICAND_LIMIT,
        excess_bits(n) > 0 ==> pow2(52) * pow2(excess_bits(n)) <= n,
    decreases n,
{
    lemma2_to64_rest();
    lemma2_to64();
    if n >= SIGNIFICAND_LIMIT {
        let half = n / 2;
        lemma_excess_bits_bounds(half);
        let d = excess_bits(half);
        lemma_pow2_unfold(d + 1);
        if d > 0 {
            assert(pow2(52) * (2 * pow2(d)) <= n) by (nonlinear_arith)
                requires
                    pow2(52) * pow2(d) <= half,
                    2 * half <= n,
            ;
        }
    }
}

/// Rounding commutes with doubling.
pub proof fn lemma_rounded_doubles(n: nat)
    ensures
        rounded(2 * n) == 2 * rounded(n),
{
    lemma2_to64();
    if 2 * n >= SIGNIFICAND_LIMIT {
        let d = excess_bits(n);
        let unit = pow2(d);
        assert((2 * n) / 2 == n);
        assert(excess_bits(2 * n) == d + 1);
        lemma_pow2_unfold(d + 1);
        lemma_pow2_pos(d);
        assert(pow2(d + 1) == 2 * unit);
        lemma_div_multiples_vanish_quotient(2, n as int, unit as int);
        lemma_truncate_middle(n as int, 2, unit as int);
        let quotient = n / unit;
        let rest = n % unit;
        assert((2 * n) / (2 * unit) == quotient);
        assert((2 * n) % (2 * unit) == 2 * rest);
        assert((quotient + 1) * (2 * unit) == 2 * ((quotient + 1) * unit)) by (nonlinear_arith);
        assert(quotient * (2 * unit) == 2 * (quotient * unit)) by (nonlinear_arith);
        assert(rounded(2 * n) == round_to_multiple(2 * n, 2 * unit));
        assert(rounded(n) == round_to_multiple(n, unit));
    } else {
        assert(excess_bits(2 * n) == 0);
        assert(excess_bits(n) == 0);
        assert(rounded(2 * n) == round_to_multiple(2 * n, 1));
        assert(rounded(n) == round_to_multiple(n, 1));
    }
}

/// Rounding commutes with scaling by a power of two.
pub proof fn lemma_rounded_scales(n: nat, k: nat)
    ensures
        rounded(n * pow2(k)) == rounded(n) * pow2(k),
    decreases k,
{
    lemma2_to64();
    if k > 0 {
        let lower = pow2((k - 1) as nat);
        lemma_pow2_unfold(k);
        assert(pow2(k) == 2 * lower);
        lemma_rounded_scales(n, (k - 1) as nat);
        lemma_rounded_doubles(n * lower);
        assert(n * (2 * lower) == 2 * (n * lower)) by (nonlinear_arith);
        assert(2 * (rounded(n) * lower) == rounded(n) * (2 * lower)) by (nonlinear_arith);
    } else {
        assert(n * pow2(0) == n);
        assert(rounded(n) * pow2(0) == rounded(n));
    }
}

/// Rounding moves a number by less than one part in 2^53 upwards.
pub proof fn lemma_rounded_upper(n: nat)
    ensures
        rounded(n) <= n + n / (SIGNIFICAND_LIMIT as nat),
{
    lemma2_to64();
    lemma2_to64_rest();
    let d = excess_bits(n);
    let unit = pow2(d) as int;
    lemma_pow2_pos(d);
    lemma_excess_bits_bounds(n);
    lemma_fundamental_div_mod(n as int, unit);
    let quotient = n as int / unit;
    let rest = n as int % unit;
    assert(unit * quotient == quotient * unit) by (nonlinear_arith);
    assert((quotient + 1) * unit == quotient * unit + unit) by (nonlinear_arith);
    if d > 0 {
        lemma_pow2_unfold(d);
        let half = pow2((d - 1) as nat) as int;
        assert(half * SIGNIFICAND_LIMIT <= n) by (nonlinear_arith)
            requires
                pow2(52) * (2 * half) <= n,
                pow2(52) == 0x10_0000_0000_0000,
                SIGNIFICAND_LIMIT == 0x20_0000_0000_0000,
        ;
        lemma_div_is_ordered(half * SIGNIFICAND_LIMIT, n as int, SIGNIFICAND_LIMIT as int);
        lemma_div_multiples_vanish(half, SIGNIFICAND_LIMIT as int);
        assert(half <= n as int / (SIGNIFICAND_LIMIT as int));
    }
}

/// Rounds a whole number to the nearest that fits in a significand of
/// 53 bits, a tie to the even significand.
pub fn round_to_significand(n: u64) -> (r: u64)
    requires
        n < 0x4000_0000_0000_0000,
    ensures
        r == rounded(n as nat),
{
    let mut kept: u64 = n;
    let mut unit: u64 = 1;
    let ghost mut d: nat = 0;
    proof {
        lemma2_to64();
    }
    while kept >= SIGNIFICAND_LIMIT
        invariant
            unit == pow2(d),
            unit >= 1,
            kept == n / unit,
            excess_bits(n as nat) == d + excess_bits(kept as nat),
            n < 0x4000_0000_0000_0000,
            unit == 1 || unit * 0x10_0000_0000_0000 <= n,
        decreases kept,
    {
        proof {
            lemma_fundamental_div_mod(n as int, unit as int);
            assert(unit < 512) by (nonlinear_arith)
                requires
                    kept >= 0x20_0000_0000_0000,
                    n < 0x4000_0000_0000_0000,
                    n >= unit * kept,
            ;
            lemma_pow2_unfold(d + 1);
            lemma_div_denominator(n as int, unit as int, 2);
            assert((2 * unit) * 0x10_0000_0000_0000 <= n) by (nonlinear_arith)
                requires
                    kept >= 0x20_0000_0000_0000,
                    n >= unit * kept,
                    unit >= 1,
            ;
        }
        kept = kept / 2;
        unit = unit * 2;
        proof {
            d = d + 1;
        }
    }
    proof {
        lemma_fundamental_div_mod(n as int, unit as int);
        assert(unit * kept <= n);
        assert(unit <= 1024);
    }
    let rest: u64 = n % unit;
    let up = 2 * rest > unit || (2 * rest == unit && kept % 2 == 1);
    if up {
        assert((kept + 1) * unit <= 0x20_0000_0000_0000 * 1024) by (nonlinear_arith)
            requires
                kept + 1 <= 0x20_0000_0000_0000,
                unit <= 1024,
        ;
        (kept + 1) * unit
    } else {
        assert(kept * unit <= n) by (nonlinear_arith)
            requires
                unit * kept <= n,
        ;
        kept * unit
    }
}

} // verus!
