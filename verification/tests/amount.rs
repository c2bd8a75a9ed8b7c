use aeternity_signer::amount::{display_amount, Amount};

fn amount(n: u128) -> Amount {
    Amount::from_big_endian(&n.to_be_bytes()).unwrap()
}

fn shown(n: u128) -> String {
    display_amount(&amount(n))
}

#[test]
fn one_coin_is_shown_without_fraction() {
    assert_eq!(shown(1_000_000_000_000_000_000), "1");
}

#[test]
fn fraction_loses_trailing_zeros() {
    assert_eq!(shown(150_000_000_000_000_000), "0.15");
    assert_eq!(shown(100_000_000_000_000_000), "0.1");
    assert_eq!(shown(1_234_567_890_000_000_000), "1.23456789");
    assert_eq!(shown(1_234_500_000_000_000_000), "1.2345");
    assert_eq!(shown(16_660_000_000_000), "0.00001666");
}

#[test]
fn zero_is_shown_as_zero() {
    assert_eq!(shown(0), "0");
    assert_eq!(display_amount(&Amount::zero()), "0");
    assert_eq!(display_amount(&Amount::from_big_endian(&[]).unwrap()), "0");
    assert_eq!(display_amount(&Amount::from_big_endian(&[0, 0, 0]).unwrap()), "0");
}

#[test]
fn smallest_unit_takes_all_decimal_places() {
    assert_eq!(shown(1), "0.000000000000000001");
    assert_eq!(shown(999_999_999_999_999_999), "0.999999999999999999");
    assert_eq!(shown(1_000_000_000_000_000_001), "1.000000000000000001");
}

#[test]
fn whole_coins_keep_their_zeros() {
    assert_eq!(shown(1_000_000_000_000_000_000_000_000_000_000_000_000), "1000000000000000000");
    assert_eq!(shown(10_000_000_000_000_000_000), "10");
}

#[test]
fn largest_amount_is_shown_exactly() {
    let max = Amount::from_big_endian(&[0xff; 32]).unwrap();
    assert_eq!(
        display_amount(&max),
        "115792089237316195423570985008687907853269984665640564039457.584007913129639935"
    );
}

#[test]
fn amounts_beyond_2_pow_53_keep_every_digit() {
    assert_eq!(shown(9_007_199_254_740_993), "0.009007199254740993");
    assert_eq!(shown(9_007_199_254_740_993_000_000_000_000_000_001), "9007199254740993.000000000000000001");
}

#[test]
fn amount_of_more_than_32_bytes_is_refused() {
    assert!(Amount::from_big_endian(&[0u8; 33]).is_none());
    assert!(Amount::from_big_endian(&[1u8; 40]).is_none());
    assert!(Amount::from_big_endian(&[0xffu8; 32]).is_some());
}

#[test]
fn leading_zero_bytes_do_not_change_the_amount() {
    let short = Amount::from_big_endian(&[0x0d, 0xe0, 0xb6, 0xb3, 0xa7, 0x64, 0x00, 0x00]).unwrap();
    let long = Amount::from_big_endian(&[0, 0, 0, 0x0d, 0xe0, 0xb6, 0xb3, 0xa7, 0x64, 0x00, 0x00])
        .unwrap();
    assert_eq!(display_amount(&short), "1");
    assert_eq!(display_amount(&long), "1");
}

fn has_the_shape_of_an_amount(text: &str) -> bool {
    let parts: Vec<&str> = text.split('.').collect();
    if parts.len() > 2 {
        return false;
    }
    let whole = parts[0];
    let digits_only = |s: &str| s.chars().all(|c| c.is_ascii_digit());
    if whole.is_empty() || !digits_only(whole) {
        return false;
    }
    if whole.len() > 1 && whole.starts_with('0') {
        return false;
    }
    if parts.len() == 2 {
        let fraction = parts[1];
        if fraction.is_empty() || !digits_only(fraction) || fraction.ends_with('0') {
            return false;
        }
    }
    true
}

#[test]
fn every_shown_amount_has_the_shape_of_an_amount() {
    let mut n: u128 = 0;
    let mut step: u128 = 1;
    while n < u128::MAX / 7 {
        assert!(has_the_shape_of_an_amount(&shown(n)), "{}", n);
        assert!(has_the_shape_of_an_amount(&shown(n + 10)), "{}", n);
        n = n * 3 + step;
        step = step * 10 % 1_000_000_007;
    }
    let mut power: u128 = 1;
    for _ in 0..38 {
        assert!(has_the_shape_of_an_amount(&shown(power)));
        assert!(has_the_shape_of_an_amount(&shown(power - 1)));
        assert!(has_the_shape_of_an_amount(&shown(power + 1)));
        power *= 10;
    }
}
