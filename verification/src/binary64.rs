//! Prices that arrive as IEEE 754 binary64 bit patterns.
//!
//! A provider that computes in binary floating point hands over each price
//! as the 64 bits of its encoding. They are decoded here with integer
//! arithmetic alone and turned into ticks, rounded half to even.
use vstd::prelude::*;
use crate::fixed::{div_round_half_even, round_half_even, rounding_is_nearest, PRICE_SCALE};

verus! {

/// Two to the power of `k`.
pub open spec fn two_to(k: nat) -> nat
    decreases k,
{
    if k == 0 {
        1
    } else {
        2 * two_to((k - 1) as nat)
    }
}

/// Whether the sign bit is set.
pub open spec fn is_negative(bits: u64) -> bool {
    bits >= 0x8000_0000_0000_0000
}

/// The eleven bits of the exponent field.
pub open spec fn exponent_field(bits: u64) -> nat {
    ((bits / 0x10_0000_0000_0000) % 0x800) as nat
}

/// The fifty-two bits of the fraction field.
pub open spec fn fraction_field(bits: u64) -> nat {
    (bits % 0x10_0000_0000_0000) as nat
}

/// Whether the bits encode a number: neither an infinity nor a
/// not-a-number.
pub open spec fn is_number(bits: u64) -> bool {
    exponent_field(bits) != 0x7ff
}

/// The significand: the fraction, with the implicit leading bit unless the
/// number is subnormal.
pub open spec fn significand(bits: u64) -> nat {
    if exponent_field(bits) == 0 {
        fraction_field(bits)
    } else {
        0x10_0000_0000_0000 + fraction_field(bits)
    }
}

/// The power of two by which the significand is scaled: the magnitude of
/// the number is `significand(bits) * 2^exponent(bits)`.
pub open spec fn exponent(bits: u64) -> int {
    if exponent_field(bits) == 0 {
        -1074
    } else {
        exponent_field(bits) - 1075
    }
}

/// The magnitude of the number in ticks, rounded half to even.
pub open spec fn tick_magnitude(bits: u64) -> nat {
    let scaled = significand(bits) * PRICE_SCALE as nat;
    if exponent(bits) >= 0 {
        scaled * two_to(exponent(bits) as nat)
    } else {
        round_half_even(scaled, two_to((-exponent(bits)) as nat))
    }
}

/// The price in ticks that the bits denote: the number they encode times
/// `PRICE_SCALE`, rounded half to even. `None` where they encode no number
/// or one whose ticks do not fit.
pub open spec fn ticks_of_bits(bits: u64) -> Option<i64> {
    let ticks = if is_negative(bits) {
        -(tick_magnitude(bits) as int)
    } else {
        tick_magnitude(bits) as int
    };
    if is_number(bits) && i64::MIN <= ticks <= i64::MAX {
        Some(ticks as i64)
    } else {
        None
    }
}

/// Powers of two are positive and double with every step.
pub proof fn two_to_grows(low: nat, high: nat)
    requires
        low < high,
    ensures
        two_to(low) >= 1,
        two_to(high) >= 2 * two_to(low),
    decreases high,
{
    if low > 0 {
        two_to_grows((low - 1) as nat, low);
    }
    if high - 1 > low {
        two_to_grows(low, (high - 1) as nat);
    }
}

/// The ticks of a number are the nearest to it: where the number is
/// `significand * 2^exponent` with a negative exponent, its magnitude in
/// ticks differs from `significand * PRICE_SCALE / 2^-exponent` by at most
/// one half; with any other exponent it is exact by definition.
pub proof fn tick_magnitude_is_nearest(bits: u64)
    requires
        exponent(bits) < 0,
    ensures
        ({
            let scaled = significand(bits) * PRICE_SCALE as nat;
            let unit = two_to((-exponent(bits)) as nat);
            &&& 2 * tick_magnitude(bits) * unit <= 2 * scaled + unit
            &&& 2 * scaled <= 2 * tick_magnitude(bits) * unit + unit
        }),
{
    let shift = (-exponent(bits)) as nat;
    two_to_grows(0, shift);
    rounding_is_nearest(significand(bits) * PRICE_SCALE as nat, two_to(shift));
}

/// Turns the bit pattern of a binary64 number into a price in ticks,
/// rounded half to even. Gives `None` for infinities, for not-a-number, and
/// for numbers whose ticks do not fit into 64 bits.
pub fn ticks_from_bits(bits: u64) -> (r: Option<i64>)
    ensures
        r == ticks_of_bits(bits),
{
    let negative = bits >= 0x8000_0000_0000_0000;
    let field: u64 = (bits / 0x10_0000_0000_0000) % 0x800;
    let fraction: u64 = bits % 0x10_0000_0000_0000;
    if field == 0x7ff {
        return None;
    }
    if field >= 1075 {
        proof {
            let e = (field - 1075) as nat;
            if e > 0 {
                two_to_grows(0, e);
            }
            assert(significand(bits) * PRICE_SCALE as nat * two_to(e) > i64::MAX + 1)
                by (nonlinear_arith)
                requires
                    significand(bits) >= 0x10_0000_0000_0000,
                    PRICE_SCALE == 10_000,
                    two_to(e) >= 1,
            ;
        }
        return None;
    }
    let significand: u64 = if field == 0 {
        fraction
    } else {
        0x10_0000_0000_0000 + fraction
    };
    let scaled: u128 = significand as u128 * PRICE_SCALE as u128;
    let shift: u64 = if field == 0 {
        1074
    } else {
        1075 - field
    };
    let mut divisor: u128 = 1;
    let mut doubled: u64 = 0;
    while doubled < shift && divisor <= scaled
        invariant
            doubled <= shift,
            divisor == two_to(doubled as nat),
            scaled < 0x8_0000_0000_0000_0000,
            1 <= divisor <= 0x10_0000_0000_0000_0000,
        decreases shift - doubled,
    {
        divisor = divisor * 2;
        doubled += 1;
    }
    let magnitude: u128 = if doubled == shift {
        div_round_half_even(scaled, divisor)
    } else {
        proof {
            two_to_grows(doubled as nat, shift as nat);
            let d = two_to(shift as nat);
            assert(scaled as nat / d == 0 && scaled as nat % d == scaled) by {
                vstd::arithmetic::div_mod::lemma_small_mod(scaled as nat, d);
                vstd::arithmetic::div_mod::lemma_basic_div(scaled as int, d as int);
            }
        }
        0
    };
    assert(magnitude == tick_magnitude(bits));
    if negative {
        if magnitude <= 0x8000_0000_0000_0000 {
            Some((-(magnitude as i128)) as i64)
        } else {
            None
        }
    } else {
        if magnitude <= 0x7fff_ffff_ffff_ffff {
            Some(magnitude as i64)
        } else {
            None
        }
    }
}

} // verus!
