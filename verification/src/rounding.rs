//! Double-precision rounding, modelled over the integers.
//!
//! A double holds 53 significant bits. Dividing or multiplying two doubles
//! gives the double that lies nearest to the exact result, and of two that
//! lie equally near the one whose last bit is zero. This module states that
//! rule for positive quotients of integers and computes it with integer
//! arithmetic alone, for the results that fit its bounds: no exponent here
//! comes near the limits of the format.

use vstd::prelude::*;
use vstd::arithmetic::div_mod::{
    lemma_basic_div, lemma_div_denominator, lemma_div_multiples_vanish, lemma_fundamental_div_mod,
    lemma_fundamental_div_mod_converse, lemma_mod_multiples_basic,
};
use vstd::arithmetic::power2::{
    lemma2_to64, lemma2_to64_rest, lemma_pow2_adds, lemma_pow2_pos, lemma_pow2_strictly_increases,
    lemma_pow2_unfold, pow2,
};

verus! {

/// A positive double: the number `mantissa * 2^exponent`.
pub struct Double {
    pub mantissa: int,
    pub exponent: int,
}

/// The integer nearest to `num / den`; of two equally near, the even one.
pub open spec fn round_half_even(num: int, den: int) -> int {
    let quotient = num / den;
    let twice = 2 * (num % den);
    if twice < den || (twice == den && quotient % 2 == 0) {
        quotient
    } else {
        quotient + 1
    }
}

/// How often `num` must be doubled to reach `den`.
pub open spec fn lifts(num: int, den: int) -> nat
    decreases
        (if 0 < num < den {
            den - num
        } else {
            0
        }),
{
    if num <= 0 || num >= den {
        0
    } else {
        1 + lifts(2 * num, den)
    }
}

/// How often `den` can be doubled without passing `num`.
pub open spec fn doublings(num: int, den: int) -> nat
    decreases num - den,
{
    if den <= 0 || num < 2 * den {
        0
    } else {
        1 + doublings(num, 2 * den)
    }
}

/// The double nearest to `num / den`, for positive `num` and `den`. The
/// quotient is first brought between one and two by doubling either side;
/// its first 53 bits, rounded, are the mantissa.
pub open spec fn nearest_double(num: int, den: int) -> Double {
    let down = lifts(num, den);
    let raised = num * pow2(down);
    let up = doublings(raised, den);
    Double { mantissa: round_half_even(raised * pow2(52), den * pow2(up)), exponent: up - down - 52 }
}

/// The double nearest to the integer `count` divided by the double `by`.
pub open spec fn int_over_double(count: int, by: Double) -> Double {
    if by.exponent < 0 {
        nearest_double(count * pow2((-by.exponent) as nat), by.mantissa)
    } else {
        nearest_double(count, by.mantissa * pow2(by.exponent as nat))
    }
}

/// The double nearest to the integer `count` times the double `by`.
pub open spec fn int_times_double(count: int, by: Double) -> Double {
    if by.exponent < 0 {
        nearest_double(count * by.mantissa, pow2((-by.exponent) as nat) as int)
    } else {
        nearest_double(count * by.mantissa * pow2(by.exponent as nat), 1)
    }
}

/// A double without its fraction.
pub open spec fn truncated(x: Double) -> int {
    if x.exponent >= 0 {
        x.mantissa * pow2(x.exponent as nat)
    } else {
        x.mantissa / (pow2((-x.exponent) as nat) as int)
    }
}

/// A count as 32 bits hold it: what is too large becomes the largest.
pub open spec fn saturated(count: int) -> int {
    if count > u32::MAX {
        u32::MAX as int
    } else {
        count
    }
}

/// Powers of two grow with their exponents.
pub proof fn lemma_pow2_le(small: nat, large: nat)
    requires
        small <= large,
    ensures
        pow2(small) <= pow2(large),
{
    if small < large {
        lemma_pow2_strictly_increases(small, large);
    }
}

/// A power of two below another has the smaller exponent.
pub proof fn lemma_pow2_below(small: nat, large: nat)
    requires
        pow2(small) < pow2(large),
    ensures
        small < large,
{
    if small >= large {
        lemma_pow2_le(large, small);
    }
}

/// A quotient of at most `bound`, a whole number below 2^11, rounds to a
/// double of at most `bound`, so its whole part is at most `bound` too.
/// `raised` and `lowered` are the two sides of the quotient as
/// `nearest_double` doubles them.
pub proof fn lemma_whole_part_bounded(num: int, den: int, up: nat, down: nat, bound: int)
    requires
        0 < num,
        0 < den,
        0 < bound < 2048,
        num <= bound * den,
        den * pow2(up) <= num * pow2(down),
    ensures
        up < down + 11,
        saturated(
            truncated(
                Double {
                    mantissa: round_half_even(num * pow2(down) * pow2(52), den * pow2(up)),
                    exponent: up - down - 52,
                },
            ),
        ) <= bound,
{
    lemma2_to64();
    lemma_pow2_pos(up);
    lemma_pow2_pos(down);
    lemma_pow2_pos(52);
    let raised = num * pow2(down);
    let lowered = den * pow2(up);
    assert(lowered > 0) by (nonlinear_arith)
        requires
            lowered == den * pow2(up),
            den > 0,
            pow2(up) > 0,
    ;
    // The exponent is below zero.
    assert(den * pow2(up) <= den * (bound * pow2(down))) by (nonlinear_arith)
        requires
            den * pow2(up) <= num * pow2(down),
            num <= bound * den,
            pow2(down) > 0,
    ;
    assert(pow2(up) <= bound * pow2(down)) by (nonlinear_arith)
        requires
            den * pow2(up) <= den * (bound * pow2(down)),
            den > 0,
    ;
    lemma_pow2_adds(11, down);
    assert(bound * pow2(down) < pow2(11) * pow2(down)) by (nonlinear_arith)
        requires
            bound < pow2(11),
            pow2(down) > 0,
    ;
    lemma_pow2_below(up, 11 + down);
    // The mantissa is at most the bound at the mantissa's scale.
    let shift = (52 + down - up) as nat;
    let unit = pow2(shift) as int;
    lemma_pow2_pos(shift);
    lemma_pow2_adds(shift, up);
    lemma_pow2_adds(52, down);
    let whole = raised * pow2(52);
    let limit = bound * unit;
    assert(whole <= limit * lowered) by (nonlinear_arith)
        requires
            whole == num * pow2(down) * pow2(52),
            limit == bound * unit,
            lowered == den * pow2(up),
            unit * pow2(up) == pow2(52) * pow2(down),
            num <= bound * den,
            pow2(down) > 0,
            pow2(52) > 0,
    ;
    let quotient = whole / lowered;
    let rest = whole % lowered;
    lemma_fundamental_div_mod(whole, lowered);
    assert(0 <= rest < lowered);
    assert(quotient <= limit && (quotient == limit ==> rest == 0)) by (nonlinear_arith)
        requires
            whole == lowered * quotient + rest,
            0 <= rest < lowered,
            whole <= limit * lowered,
    ;
    let mantissa = round_half_even(whole, lowered);
    assert(mantissa <= limit);
    assert(mantissa / unit <= bound) by (nonlinear_arith)
        requires
            mantissa <= bound * unit,
            unit > 0,
    ;
}

/// The double nearest to one is one: a quotient of equal sides has the
/// mantissa 2^52.
pub proof fn lemma_one_is_exact(side: int)
    requires
        0 < side,
    ensures
        round_half_even(side * pow2(52), side) == pow2(52),
{
    lemma_div_multiples_vanish(pow2(52) as int, side);
    lemma_mod_multiples_basic(pow2(52) as int, side);
    assert(side * pow2(52) == pow2(52) * side) by (nonlinear_arith);
    lemma2_to64_rest();
}

/// The mantissa and the two counts of doublings of the double nearest to
/// `num / den`; its exponent is `up - down - 52`. Both sides stay below
/// 2^126, so that doubling them fits in 128 bits.
pub fn nearest_double_of(num: u128, den: u128) -> (parts: (u128, u128, u128))
    requires
        0 < num < 0x4000_0000_0000_0000_0000_0000_0000_0000,
        0 < den < 0x4000_0000_0000_0000_0000_0000_0000_0000,
    ensures
        ({
            let (mantissa, up, down) = parts;
            &&& down == lifts(num as int, den as int)
            &&& up == doublings(num * pow2(down as nat), den as int)
            &&& nearest_double(num as int, den as int) == (Double {
                mantissa: mantissa as int,
                exponent: up - down - 52,
            })
            &&& den * pow2(up as nat) <= num * pow2(down as nat) < 2 * (den * pow2(up as nat))
            &&& num >= den ==> down == 0
            &&& num < den ==> up == 0
            &&& pow2(52) <= mantissa <= pow2(53)
            &&& up < 0x8000_0000_0000_0000_0000_0000_0000_0000
            &&& down < 0x8000_0000_0000_0000_0000_0000_0000_0000
        }),
{
    proof {
        lemma2_to64();
        lemma2_to64_rest();
    }
    let mut raised: u128 = num;
    let mut down: u128 = 0;
    while raised < den
        invariant
            0 < num < 0x4000_0000_0000_0000_0000_0000_0000_0000,
            den < 0x4000_0000_0000_0000_0000_0000_0000_0000,
            raised == num * pow2(down as nat),
            lifts(num as int, den as int) == down + lifts(raised as int, den as int),
            down < raised,
            down == 0 ==> raised == num,
            down > 0 ==> raised < 2 * den,
        decreases
            (if raised < den {
                den - raised
            } else {
                0
            }),
    {
        proof {
            lemma_pow2_unfold((down + 1) as nat);
            assert(num * (2 * pow2(down as nat)) == 2 * (num * pow2(down as nat))) by (nonlinear_arith);
        }
        raised = raised * 2;
        down = down + 1;
    }
    let mut lowered: u128 = den;
    let mut up: u128 = 0;
    while lowered * 2 <= raised
        invariant
            0 < den,
            raised < 0x8000_0000_0000_0000_0000_0000_0000_0000,
            lowered == den * pow2(up as nat),
            doublings(raised as int, den as int) == up + doublings(raised as int, lowered as int),
            lowered <= raised,
            up < lowered,
            down > 0 ==> raised < 2 * den,
            down > 0 ==> up == 0,
        decreases raised - lowered,
    {
        proof {
            lemma_pow2_unfold((up + 1) as nat);
            assert(den * (2 * pow2(up as nat)) == 2 * (den * pow2(up as nat))) by (nonlinear_arith);
        }
        lowered = lowered * 2;
        up = up + 1;
    }
    // The quotient now lies between one and two; 52 steps of long division
    // give the bits behind its leading one.
    let mut quotient: u128 = 1;
    let mut rest: u128 = raised - lowered;
    let mut step: u32 = 0;
    proof {
        lemma2_to64();
        assert(quotient * lowered + rest == raised * pow2(0));
    }
    while step < 52
        invariant
            step <= 52,
            0 < lowered <= raised,
            raised < 0x8000_0000_0000_0000_0000_0000_0000_0000,
            quotient * lowered + rest == raised * pow2(step as nat),
            rest < lowered,
            pow2(step as nat) <= quotient < pow2((step + 1) as nat),
        decreases 52 - step,
    {
        proof {
            lemma_pow2_unfold((step + 1) as nat);
            lemma_pow2_unfold((step + 2) as nat);
            lemma_pow2_le((step + 1) as nat, 52);
            lemma2_to64_rest();
            assert(raised * (2 * pow2(step as nat)) == 2 * (raised * pow2(step as nat))) by (nonlinear_arith);
            assert((2 * quotient) * lowered == 2 * (quotient * lowered)) by (nonlinear_arith);
            assert((2 * quotient + 1) * lowered == 2 * (quotient * lowered) + lowered) by (nonlinear_arith);
        }
        let twice: u128 = rest * 2;
        if twice >= lowered {
            quotient = quotient * 2 + 1;
            rest = twice - lowered;
        } else {
            quotient = quotient * 2;
            rest = twice;
        }
        step = step + 1;
    }
    proof {
        lemma_fundamental_div_mod_converse(
            raised * pow2(52),
            lowered as int,
            quotient as int,
            rest as int,
        );
        lemma2_to64_rest();
    }
    let twice: u128 = rest * 2;
    let mantissa: u128 = if twice < lowered || (twice == lowered && quotient % 2 == 0) {
        quotient
    } else {
        quotient + 1
    };
    (mantissa, up, down)
}

/// `count * 2^shift`, where that stays below 2^64.
pub fn shifted_up(count: u128, shift: u128) -> (product: u128)
    requires
        count * pow2(shift as nat) < 0x1_0000_0000_0000_0000,
    ensures
        product == count * pow2(shift as nat),
{
    let mut product: u128 = count;
    let mut done: u128 = 0;
    proof {
        lemma2_to64();
    }
    while done < shift
        invariant
            done <= shift,
            product == count * pow2(done as nat),
            count * pow2(shift as nat) < 0x1_0000_0000_0000_0000,
        decreases shift - done,
    {
        proof {
            lemma_pow2_unfold((done + 1) as nat);
            lemma_pow2_le((done + 1) as nat, shift as nat);
            assert(count * (2 * pow2(done as nat)) == 2 * (count * pow2(done as nat))) by (nonlinear_arith);
            assert(count * pow2((done + 1) as nat) <= count * pow2(shift as nat)) by (nonlinear_arith)
                requires
                    pow2((done + 1) as nat) <= pow2(shift as nat),
            ;
        }
        product = product * 2;
        done = done + 1;
    }
    product
}

/// `2^exponent`, for the exponents that 128 bits hold.
pub fn power_of_two(exponent: u128) -> (power: u128)
    requires
        exponent < 128,
    ensures
        power == pow2(exponent as nat),
{
    proof {
        lemma2_to64();
        lemma2_to64_rest();
        lemma_pow2_adds(64, 63);
        assert(pow2(127) == 0x8000_0000_0000_0000_0000_0000_0000_0000) by {
            assert(0x1_0000_0000_0000_0000int * 0x8000_0000_0000_0000int
                == 0x8000_0000_0000_0000_0000_0000_0000_0000int);
        }
    }
    let mut power: u128 = 1;
    let mut done: u128 = 0;
    while done < exponent
        invariant
            done <= exponent < 128,
            power == pow2(done as nat),
            pow2(127) == 0x8000_0000_0000_0000_0000_0000_0000_0000,
        decreases exponent - done,
    {
        proof {
            lemma_pow2_unfold((done + 1) as nat);
            lemma_pow2_le((done + 1) as nat, 127);
        }
        power = power * 2;
        done = done + 1;
    }
    power
}

/// A double without its fraction, as 32 bits hold it.
pub fn truncate_to_u32(mantissa: u128, up: u128, down: u128) -> (count: u32)
    requires
        pow2(52) <= mantissa <= pow2(53),
        up < 0x8000_0000_0000_0000_0000_0000_0000_0000,
        down < 0x8000_0000_0000_0000_0000_0000_0000_0000,
    ensures
        count == saturated(truncated(Double { mantissa: mantissa as int, exponent: up - down - 52 })),
{
    proof {
        lemma2_to64();
        lemma2_to64_rest();
    }
    if up >= down + 52 {
        proof {
            let exponent = (up - down - 52) as nat;
            lemma_pow2_pos(exponent);
            assert(mantissa * pow2(exponent) >= mantissa) by (nonlinear_arith)
                requires
                    mantissa >= 0,
                    pow2(exponent) >= 1,
            ;
        }
        return u32::MAX;
    }
    let shift: u128 = down + 52 - up;
    if shift > 53 {
        proof {
            lemma_pow2_le(54, shift as nat);
            lemma_basic_div(mantissa as int, pow2(shift as nat) as int);
        }
        return 0;
    }
    let mut left: u128 = mantissa;
    let mut done: u128 = 0;
    while done < shift
        invariant
            done <= shift,
            left == mantissa as int / (pow2(done as nat) as int),
        decreases shift - done,
    {
        proof {
            lemma_pow2_unfold((done + 1) as nat);
            lemma_pow2_pos(done as nat);
            lemma_div_denominator(mantissa as int, pow2(done as nat) as int, 2);
            assert(pow2(done as nat) * 2 == 2 * pow2(done as nat));
        }
        left = left / 2;
        done = done + 1;
    }
    if left > u32::MAX as u128 {
        u32::MAX
    } else {
        left as u32
    }
}

} // verus!
