//! Fixed-point prices and exact quotients.
use vstd::prelude::*;

verus! {

/// Ticks in one currency unit: a price of `12_345` ticks is 1.2345 units.
pub const PRICE_SCALE: u64 = 10_000;

/// The exact quotient `num / den`; the sign is carried by `num`.
#[derive(Clone, Copy, Debug, PartialEq, Eq, Structural)]
pub struct Ratio {
    pub num: i128,
    pub den: u64,
}

impl Ratio {
    /// The denominator is positive.
    pub open spec fn wf(self) -> bool {
        self.den > 0
    }

    /// Whether the quotient is zero.
    pub open spec fn is_zero(self) -> bool {
        self.num == 0
    }
}

/// `a / b` rounded to the nearest whole number, a tie to the even one.
pub open spec fn round_half_even(a: nat, b: nat) -> nat {
    let q = a / b;
    let r = a % b;
    if 2 * r > b || (2 * r == b && q % 2 == 1) {
        q + 1
    } else {
        q
    }
}

/// Rounding gives a nearest whole number: the result differs from the exact
/// quotient by at most one half.
pub proof fn rounding_is_nearest(a: nat, b: nat)
    requires
        b > 0,
    ensures
        2 * round_half_even(a, b) * b <= 2 * a + b,
        2 * a <= 2 * round_half_even(a, b) * b + b,
{
    let q = a / b;
    let r = a % b;
    vstd::arithmetic::div_mod::lemma_fundamental_div_mod(a as int, b as int);
    assert(0 <= r < b) by {
        vstd::arithmetic::div_mod::lemma_mod_bound(a as int, b as int);
    }
    assert(a == b * q + r);
    assert(2 * (q + 1) * b == 2 * (b * q) + 2 * b && 2 * q * b == 2 * (b * q))
        by (nonlinear_arith);
}

/// Divides and rounds to the nearest whole number, a tie to the even one.
pub fn div_round_half_even(a: u128, b: u128) -> (r: u128)
    requires
        b > 0,
    ensures
        r == round_half_even(a as nat, b as nat),
{
    let q = a / b;
    let rem = a % b;
    if rem > b - rem || (rem == b - rem && q % 2 == 1) {
        assert(q < u128::MAX) by (nonlinear_arith)
            requires
                q == a as int / b as int,
                b >= 2,
                0 <= a <= u128::MAX,
        ;
        q + 1
    } else {
        q
    }
}

} // verus!
