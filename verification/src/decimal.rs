//! Rounding quotients to two decimals and writing them as text.
use vstd::prelude::*;
use vstd::arithmetic::div_mod::lemma_fundamental_div_mod_converse;
use vstd::string::StringExecFns;
use crate::fields::{pieces_of_concat, pieces_of_push, split_commas};
use crate::fixed::{round_half_even, Ratio, PRICE_SCALE};

verus! {

/// The magnitude of an integer.
pub open spec fn magnitude(x: int) -> nat {
    if x < 0 { (-x) as nat } else { x as nat }
}

/// The magnitude of `num / den` in hundredths, rounded half to even.
pub open spec fn hundredths(num: int, den: nat) -> nat {
    round_half_even(magnitude(num) * 100, den)
}

/// The character of a decimal digit.
pub open spec fn digit(d: int) -> char {
    if d == 0 {
        '0'
    } else if d == 1 {
        '1'
    } else if d == 2 {
        '2'
    } else if d == 3 {
        '3'
    } else if d == 4 {
        '4'
    } else if d == 5 {
        '5'
    } else if d == 6 {
        '6'
    } else if d == 7 {
        '7'
    } else if d == 8 {
        '8'
    } else {
        '9'
    }
}

/// The decimal digits of a number, most significant first, without leading
/// zeros; zero is written `0`.
pub open spec fn decimal_digits(n: nat) -> Seq<char>
    decreases n,
{
    if n < 10 {
        seq![digit(n as int)]
    } else {
        decimal_digits(n / 10).push(digit((n % 10) as int))
    }
}

/// A count of hundredths written with two decimals: `-` where `negative`,
/// the whole part, a point and two digits.
pub open spec fn two_decimals(negative: bool, h: nat) -> Seq<char> {
    (if negative { seq!['-'] } else { Seq::<char>::empty() }) + decimal_digits(h / 100) + seq![
        '.',
        digit((h / 10) as int % 10),
        digit((h % 10) as int),
    ]
}

/// `num / den` written with two decimals, rounded half to even. The sign is
/// written for every negative quotient, also where it rounds to zero.
pub open spec fn decimal_text_of(num: int, den: nat) -> Seq<char> {
    two_decimals(num < 0, hundredths(num, den))
}

/// The text of a price in currency units.
pub open spec fn price_text_of(price: i64) -> Seq<char> {
    decimal_text_of(price as int, PRICE_SCALE as nat)
}

/// The digits of a number hold no comma.
pub proof fn digits_hold_no_comma(n: nat)
    ensures
        split_commas(decimal_digits(n)).len() == 1,
    decreases n,
{
    if n < 10 {
        assert(decimal_digits(n) =~= Seq::<char>::empty().push(digit(n as int)));
        pieces_of_push(Seq::<char>::empty(), digit(n as int));
    } else {
        digits_hold_no_comma(n / 10);
        pieces_of_push(decimal_digits(n / 10), digit((n % 10) as int));
    }
}

/// A number written with two decimals holds no comma: in a line of
/// comma-separated values it is one field.
pub proof fn decimal_text_is_one_field(num: int, den: nat)
    ensures
        split_commas(decimal_text_of(num, den)).len() == 1,
{
    let h = hundredths(num, den);
    let sign = if num < 0 {
        seq!['-']
    } else {
        Seq::<char>::empty()
    };
    let tail = seq!['.', digit((h / 10) as int % 10), digit((h % 10) as int)];
    assert(split_commas(sign).len() == 1) by {
        if num < 0 {
            assert(sign =~= Seq::<char>::empty().push('-'));
            pieces_of_push(Seq::<char>::empty(), '-');
        }
    }
    assert(split_commas(tail).len() == 1) by {
        let e = Seq::<char>::empty();
        assert(tail =~= e.push('.').push(digit((h / 10) as int % 10)).push(
            digit((h % 10) as int),
        ));
        pieces_of_push(e, '.');
        pieces_of_push(e.push('.'), digit((h / 10) as int % 10));
        pieces_of_push(e.push('.').push(digit((h / 10) as int % 10)), digit((h % 10) as int));
    }
    digits_hold_no_comma(h / 100);
    pieces_of_concat(sign, decimal_digits(h / 100));
    pieces_of_concat(sign + decimal_digits(h / 100), tail);
}

/// The text of one decimal digit.
fn digit_text(d: u8) -> (r: &'static str)
    requires
        d < 10,
    ensures
        r@ == seq![digit(d as int)],
{
    proof {
        reveal_strlit("0");
        reveal_strlit("1");
        reveal_strlit("2");
        reveal_strlit("3");
        reveal_strlit("4");
        reveal_strlit("5");
        reveal_strlit("6");
        reveal_strlit("7");
        reveal_strlit("8");
        reveal_strlit("9");
    }
    let r = if d == 0 {
        "0"
    } else if d == 1 {
        "1"
    } else if d == 2 {
        "2"
    } else if d == 3 {
        "3"
    } else if d == 4 {
        "4"
    } else if d == 5 {
        "5"
    } else if d == 6 {
        "6"
    } else if d == 7 {
        "7"
    } else if d == 8 {
        "8"
    } else {
        "9"
    };
    assert(r@ =~= seq![digit(d as int)]);
    r
}

/// The characters of digits that were collected least significant first.
spec fn collected(rev: Seq<u8>) -> Seq<char> {
    Seq::new(rev.len(), |i: int| digit(rev[rev.len() - 1 - i] as int))
}

/// Appends the decimal digits of `n` to `out`.
pub fn push_decimal_digits(out: &mut String, n: u128)
    ensures
        final(out)@ == old(out)@ + decimal_digits(n as nat),
{
    let mut rev: Vec<u8> = Vec::new();
    let mut rest: u128 = n;
    assert(decimal_digits(rest as nat) + collected(rev@) =~= decimal_digits(n as nat));
    while rest >= 10
        invariant
            decimal_digits(n as nat) == decimal_digits(rest as nat) + collected(rev@),
            forall|i: int| 0 <= i < rev@.len() ==> rev@[i] < 10,
        decreases rest,
    {
        let low: u8 = (rest % 10) as u8;
        proof {
            let grown = rev@.push(low);
            assert(collected(grown) =~= seq![digit(low as int)] + collected(rev@));
            assert(decimal_digits((rest / 10) as nat).push(digit(low as int)) + collected(rev@)
                =~= decimal_digits((rest / 10) as nat) + collected(grown));
        }
        rev.push(low);
        rest = rest / 10;
    }
    out.append(digit_text(rest as u8));
    let mut k: usize = rev.len();
    while k > 0
        invariant
            k <= rev@.len(),
            forall|i: int| 0 <= i < rev@.len() ==> rev@[i] < 10,
            out@ == old(out)@ + seq![digit(rest as int)] + collected(rev@).subrange(
                0,
                rev@.len() - k,
            ),
        decreases k,
    {
        k -= 1;
        out.append(digit_text(rev[k]));
        assert(out@ =~= old(out)@ + seq![digit(rest as int)] + collected(rev@).subrange(
            0,
            rev@.len() - k,
        )) by {
            assert(collected(rev@).subrange(0, rev@.len() - k) =~= collected(rev@).subrange(
                0,
                rev@.len() - k - 1,
            ).push(digit(rev@[k as int] as int)));
        }
    }
    assert(collected(rev@).subrange(0, rev@.len() as int) =~= collected(rev@));
    assert(out@ =~= old(out)@ + decimal_digits(n as nat)) by {
        assert(decimal_digits(rest as nat) =~= seq![digit(rest as int)]);
    }
}

/// The whole part and the two decimals of `mag / den`, rounded half to even.
fn split_hundredths(mag: u128, den: u128) -> (r: (u128, u8))
    requires
        0 < den <= u128::MAX / 100,
    ensures
        r.0 == round_half_even(mag as nat * 100, den as nat) / 100,
        r.1 == round_half_even(mag as nat * 100, den as nat) % 100,
{
    let whole = mag / den;
    let left = mag % den;
    assert(left * 100 <= u128::MAX) by (nonlinear_arith)
        requires
            left < den,
            den <= u128::MAX / 100,
    ;
    let scaled = left * 100;
    let frac = scaled / den;
    let rest = scaled % den;
    proof {
        let m = mag as int;
        let d = den as int;
        vstd::arithmetic::div_mod::lemma_fundamental_div_mod(m, d);
        vstd::arithmetic::div_mod::lemma_fundamental_div_mod(scaled as int, d);
        assert(frac < 100) by (nonlinear_arith)
            requires
                scaled == d * frac + rest,
                scaled < 100 * d,
                rest >= 0,
                d > 0,
        ;
        assert(m * 100 == (whole * 100 + frac) * d + rest) by (nonlinear_arith)
            requires
                m == d * whole + left,
                left * 100 == d * frac + rest,
        ;
        lemma_fundamental_div_mod_converse(m * 100, d, whole * 100 + frac, rest as int);
        assert((whole * 100 + frac) % 2 == frac % 2);
    }
    let up = rest > den - rest || (rest == den - rest && frac % 2 == 1);
    if !up {
        (whole, frac as u8)
    } else if frac < 99 {
        (whole, (frac + 1) as u8)
    } else {
        assert(whole < u128::MAX) by (nonlinear_arith)
            requires
                whole == mag as int / den as int,
                den >= 2,
                0 <= mag <= u128::MAX,
        ;
        (whole + 1, 0)
    }
}

/// Writes `num / den` with two decimals, rounded half to even.
fn decimal_text(num: i128, den: u128) -> (r: String)
    requires
        0 < den <= u128::MAX / 100,
    ensures
        r@ == decimal_text_of(num as int, den as nat),
{
    let mag: u128 = if num >= 0 {
        num as u128
    } else if num == i128::MIN {
        0x8000_0000_0000_0000_0000_0000_0000_0000u128
    } else {
        (-num) as u128
    };
    assert(mag == magnitude(num as int));
    let (whole, frac) = split_hundredths(mag, den);
    let ghost h = hundredths(num as int, den as nat);
    let mut out = String::new();
    if num < 0 {
        proof {
            reveal_strlit("-");
        }
        out.append("-");
    }
    assert(out@ =~= if num < 0 { seq!['-'] } else { Seq::<char>::empty() });
    push_decimal_digits(&mut out, whole);
    proof {
        reveal_strlit(".");
    }
    out.append(".");
    out.append(digit_text(frac / 10));
    out.append(digit_text(frac % 10));
    assert(out@ =~= two_decimals(num < 0, h));
    out
}

/// Writes a price in currency units with two decimals.
pub fn price_text(price: i64) -> (r: String)
    ensures
        r@ == price_text_of(price),
{
    decimal_text(price as i128, PRICE_SCALE as u128)
}

impl Ratio {
    /// The text of the quotient with two decimals.
    pub open spec fn text_of(self) -> Seq<char> {
        decimal_text_of(self.num as int, self.den as nat)
    }

    /// The text, with two decimals, of the quotient taken as a number of
    /// ticks and written in currency units.
    pub open spec fn unit_text_of(self) -> Seq<char> {
        decimal_text_of(self.num as int, self.den as nat * PRICE_SCALE as nat)
    }

    /// Writes the quotient with two decimals.
    pub fn text(&self) -> (r: String)
        requires
            self.wf(),
        ensures
            r@ == self.text_of(),
    {
        decimal_text(self.num, self.den as u128)
    }

    /// Writes a quotient of ticks in currency units with two decimals.
    pub fn unit_text(&self) -> (r: String)
        requires
            self.wf(),
        ensures
            r@ == self.unit_text_of(),
    {
        assert(0 < self.den * PRICE_SCALE <= u64::MAX * PRICE_SCALE) by (nonlinear_arith)
            requires
                0 < self.den <= u64::MAX,
                PRICE_SCALE > 0,
        ;
        decimal_text(self.num, self.den as u128 * PRICE_SCALE as u128)
    }
}

} // verus!
