use stock_stats::decimal::{price_text, push_decimal_digits};
use stock_stats::fixed::div_round_half_even;
use stock_stats::fixed::Ratio;

#[test]
fn prices_are_written_with_two_decimals() {
    assert_eq!(price_text(0), "0.00");
    assert_eq!(price_text(10_000), "1.00");
    assert_eq!(price_text(12_345), "1.23");
    assert_eq!(price_text(12_355), "1.24");
    assert_eq!(price_text(1_234_567_800), "123456.78");
    assert_eq!(price_text(51), "0.01");
    assert_eq!(price_text(49), "0.00");
    assert_eq!(price_text(900), "0.09");
    assert_eq!(price_text(1_000), "0.10");
}

#[test]
fn ties_go_to_the_even_hundredth() {
    assert_eq!(price_text(12_250), "1.22");
    assert_eq!(price_text(12_350), "1.24");
    assert_eq!(price_text(12_351), "1.24");
    assert_eq!(price_text(12_349), "1.23");
    assert_eq!(price_text(50), "0.00");
    assert_eq!(price_text(150), "0.02");
}

#[test]
fn rounding_carries_into_the_whole_part() {
    assert_eq!(price_text(9_950), "1.00");
    assert_eq!(price_text(999_950), "100.00");
    assert_eq!(price_text(999_949), "99.99");
    assert_eq!(price_text(89_950), "9.00");
}

#[test]
fn negative_quotients_carry_their_sign() {
    assert_eq!(price_text(-12_345), "-1.23");
    assert_eq!(price_text(-1), "-0.00");
    assert_eq!(price_text(-999_950), "-100.00");
    assert_eq!(Ratio { num: -1, den: 3 }.text(), "-0.33");
}

#[test]
fn extreme_prices_are_written() {
    assert_eq!(price_text(i64::MAX), "922337203685477.58");
    assert_eq!(price_text(i64::MIN), "-922337203685477.58");
}

#[test]
fn ratios_are_written_with_two_decimals() {
    assert_eq!(Ratio { num: 1, den: 3 }.text(), "0.33");
    assert_eq!(Ratio { num: 2, den: 3 }.text(), "0.67");
    assert_eq!(Ratio { num: 1, den: 8 }.text(), "0.12");
    assert_eq!(Ratio { num: 3, den: 8 }.text(), "0.38");
    assert_eq!(Ratio { num: 2100, den: 100 }.text(), "21.00");
    assert_eq!(Ratio { num: 7, den: 1 }.text(), "7.00");
    assert_eq!(Ratio { num: 1, den: u64::MAX }.text(), "0.00");
    assert_eq!(
        Ratio { num: i128::MAX, den: 1 }.text(),
        "170141183460469231731687303715884105727.00"
    );
    assert_eq!(
        Ratio { num: i128::MIN, den: 1 }.text(),
        "-170141183460469231731687303715884105728.00"
    );
    assert_eq!(
        Ratio { num: i128::MAX, den: u64::MAX }.text(),
        "9223372036854775808.50"
    );
}

#[test]
fn means_of_ticks_are_written_in_units() {
    assert_eq!(Ratio { num: 4_950_000, den: 30 }.unit_text(), "16.50");
    assert_eq!(Ratio { num: 118_000, den: 3 }.unit_text(), "3.93");
    assert_eq!(Ratio { num: 163_000, den: 3 }.unit_text(), "5.43");
    assert_eq!(Ratio { num: -1, den: u64::MAX }.unit_text(), "-0.00");
}

#[test]
fn division_rounds_half_to_even() {
    assert_eq!(div_round_half_even(0, 7), 0);
    assert_eq!(div_round_half_even(7, 2), 4);
    assert_eq!(div_round_half_even(5, 2), 2);
    assert_eq!(div_round_half_even(1, 2), 0);
    assert_eq!(div_round_half_even(3, 2), 2);
    assert_eq!(div_round_half_even(10, 4), 2);
    assert_eq!(div_round_half_even(11, 4), 3);
    assert_eq!(div_round_half_even(9, 4), 2);
    assert_eq!(div_round_half_even(u128::MAX, 1), u128::MAX);
    assert_eq!(div_round_half_even(u128::MAX, 2), 1u128 << 127);
    assert_eq!(div_round_half_even(u128::MAX, u128::MAX), 1);
    assert_eq!(div_round_half_even(u128::MAX - 1, u128::MAX), 1);
    assert_eq!(div_round_half_even(u128::MAX / 2, u128::MAX), 0);
}

#[test]
fn digits_are_appended() {
    let mut out = String::from("n=");
    push_decimal_digits(&mut out, 0);
    assert_eq!(out, "n=0");
    push_decimal_digits(&mut out, 1_234_567_890);
    assert_eq!(out, "n=01234567890");
    let mut big = String::new();
    push_decimal_digits(&mut big, u128::MAX);
    assert_eq!(big, "340282366920938463463374607431768211455");
}
