use account_ledger::amount::{MAX_MANTISSA, MAX_SCALE};
use account_ledger::Amount;
use rust_decimal::Decimal;

fn amount(mantissa: i128, scale: u32) -> Amount {
    Amount::new(mantissa, scale).unwrap()
}

fn parts(a: Amount) -> (i128, u32) {
    (a.mantissa(), a.scale())
}

fn decimal(a: Amount) -> Decimal {
    Decimal::from_i128_with_scale(a.mantissa(), a.scale())
}

fn samples() -> Vec<Amount> {
    vec![
        amount(0, 0),
        amount(0, 4),
        amount(1, 0),
        amount(-1, 0),
        amount(15, 1),
        amount(150, 2),
        amount(225, 2),
        amount(-225, 2),
        amount(1, 28),
        amount(99_999_999, 4),
        amount(123_456_789_012_345_678, 9),
        amount(4_294_967_296, 0),
        amount(18_446_744_073_709_551_616, 3),
        amount(MAX_MANTISSA, 0),
        amount(-MAX_MANTISSA, 0),
        amount(MAX_MANTISSA, 28),
        amount(MAX_MANTISSA / 10, 1),
    ]
}

#[test]
fn new_accepts_exactly_the_range_of_a_decimal() {
    assert_eq!(MAX_MANTISSA, 79_228_162_514_264_337_593_543_950_335);
    assert_eq!(MAX_SCALE, 28);
    assert!(Amount::new(MAX_MANTISSA, 28).is_some());
    assert!(Amount::new(-MAX_MANTISSA, 0).is_some());
    assert!(Amount::new(MAX_MANTISSA + 1, 0).is_none());
    assert!(Amount::new(-MAX_MANTISSA - 1, 0).is_none());
    assert!(Amount::new(1, 29).is_none());
    assert!(Amount::new(i128::MAX, u32::MAX).is_none());
    assert!(Amount::new(i128::MIN, 0).is_none());
}

#[test]
fn new_keeps_mantissa_and_scale() {
    assert_eq!(parts(amount(-12_345, 3)), (-12_345, 3));
    assert_eq!(parts(amount(7, 0)), (7, 0));
}

#[test]
fn zero_has_no_digits() {
    assert_eq!(parts(Amount::zero()), (0, 0));
    assert_eq!(decimal(Amount::zero()), Decimal::ZERO);
}

#[test]
fn from_a_whole_number() {
    assert_eq!(parts(Amount::from(100)), (100, 0));
    assert_eq!(parts(Amount::from(-3)), (-3, 0));
    assert_eq!(parts(Amount::from(i32::MIN)), (-2_147_483_648, 0));
    assert_eq!(decimal(Amount::from(100)), Decimal::from(100));
}

#[test]
fn sum_takes_the_longer_scale() {
    let sum = amount(15, 1).checked_add(amount(225, 2)).unwrap();
    assert_eq!(parts(sum), (375, 2));
}

#[test]
fn sum_of_whole_numbers() {
    let sum = Amount::from(100).checked_add(Amount::from(50)).unwrap();
    assert_eq!(parts(sum), (150, 0));
}

#[test]
fn difference_takes_the_longer_scale() {
    let difference = Amount::from(100).checked_sub(amount(1, 4)).unwrap();
    assert_eq!(parts(difference), (999_999, 4));
}

#[test]
fn difference_can_be_negative() {
    let difference = Amount::from(50).checked_sub(Amount::from(150)).unwrap();
    assert_eq!(parts(difference), (-100, 0));
}

/// The sum (`sign` 1) or difference (`sign` -1) at the longer scale, if the
/// two amounts are short and that result is in range.
fn in_full(a: Amount, b: Amount, sign: i128) -> Option<(i128, u32)> {
    let short = |m: i128| m != 0 && m.unsigned_abs() < (1u128 << 64);
    if !short(a.mantissa()) || !short(b.mantissa()) || a.scale().abs_diff(b.scale()) > 19 {
        return None;
    }
    let scale = a.scale().max(b.scale());
    let x = a.mantissa().checked_mul(10i128.checked_pow(scale - a.scale())?)?;
    let y = b.mantissa().checked_mul(10i128.checked_pow(scale - b.scale())?)?;
    let result = x.checked_add(sign.checked_mul(y)?)?;
    if result.unsigned_abs() <= MAX_MANTISSA as u128 {
        Some((result, scale))
    } else {
        None
    }
}

fn short_mantissas() -> Vec<i128> {
    let mut all = Vec::new();
    for m in [
        1i128,
        2,
        5,
        9,
        10,
        99,
        12_345,
        1_000_000_000,
        (1 << 31) - 1,
        1 << 31,
        (1 << 32) - 1,
        1 << 32,
        (1 << 32) + 1,
        4_999_999_999,
        10_000_000_000,
        (1 << 63) - 1,
        1 << 63,
        (1 << 64) - 1,
        9_999_999_999_999_999_999,
        18_446_744_073_709_551_610,
    ] {
        all.push(m);
        all.push(-m);
    }
    all
}

#[test]
fn short_amounts_add_and_subtract_in_full() {
    let mut in_range = 0u32;
    for am in short_mantissas() {
        for bm in short_mantissas() {
            for sa in [0u32, 1, 4, 9, 10, 18, 19, 27, 28] {
                for sb in [0u32, 1, 4, 9, 10, 18, 19, 27, 28] {
                    let (a, b) = (amount(am, sa), amount(bm, sb));
                    if let Some(sum) = in_full(a, b, 1) {
                        assert_eq!(a.checked_add(b).map(parts), Some(sum));
                        in_range += 1;
                    }
                    if let Some(difference) = in_full(a, b, -1) {
                        assert_eq!(a.checked_sub(b).map(parts), Some(difference));
                        in_range += 1;
                    }
                }
            }
        }
    }
    assert!(in_range > 100_000);
}

#[test]
fn short_amounts_add_and_subtract_in_full_at_random() {
    let mut next = sequence(0x2545_F491_4F6C_DD1D);
    let mut in_range = 0u32;
    for _ in 0..200_000 {
        let bits_a = next() % 64 + 1;
        let bits_b = next() % 64 + 1;
        let mut am = (next() >> (64 - bits_a)) as i128;
        let mut bm = (next() >> (64 - bits_b)) as i128;
        if next() % 2 == 0 {
            am = -am;
        }
        if next() % 2 == 0 {
            bm = -bm;
        }
        let (a, b) = (amount(am, (next() % 29) as u32), amount(bm, (next() % 29) as u32));
        if let Some(sum) = in_full(a, b, 1) {
            assert_eq!(a.checked_add(b).map(parts), Some(sum));
            in_range += 1;
        }
        if let Some(difference) = in_full(a, b, -1) {
            assert_eq!(a.checked_sub(b).map(parts), Some(difference));
            in_range += 1;
        }
    }
    assert!(in_range > 100_000);
}

#[test]
fn zero_less_a_number_is_the_number_negated() {
    for zero in [amount(0, 0), amount(0, 4), amount(0, 28)] {
        for a in samples() {
            assert_eq!(
                parts(zero.checked_sub(a).unwrap()),
                (-a.mantissa(), a.scale())
            );
        }
    }
}

#[test]
fn a_number_and_zero_make_the_number() {
    for zero in [amount(0, 0), amount(0, 4), amount(0, 28)] {
        for a in samples() {
            if a.mantissa() != 0 {
                assert_eq!(parts(a.checked_add(zero).unwrap()), parts(a));
            }
        }
    }
}

#[test]
fn zero_less_zero_is_the_second_zero() {
    assert_eq!(parts(Amount::zero().checked_sub(Amount::zero()).unwrap()), (0, 0));
    assert_eq!(parts(amount(0, 3).checked_sub(amount(0, 7)).unwrap()), (0, 7));
    assert_eq!(parts(amount(0, 7).checked_sub(amount(0, 3)).unwrap()), (0, 3));
}

#[test]
fn a_number_less_zero_stays_as_it_is() {
    for zero in [amount(0, 0), amount(0, 4), amount(0, 28)] {
        for a in samples() {
            if a.mantissa() != 0 {
                assert_eq!(parts(a.checked_sub(zero).unwrap()), parts(a));
            }
        }
    }
}

#[test]
fn a_number_added_to_zero_stays_as_it_is() {
    for zero in [amount(0, 0), amount(0, 4), amount(0, 28)] {
        for a in samples() {
            assert_eq!(parts(zero.checked_add(a).unwrap()), parts(a));
        }
    }
}

#[test]
fn sum_out_of_range_is_none() {
    let max = amount(MAX_MANTISSA, 0);
    assert!(max.checked_add(max).is_none());
    assert!(max.checked_add(Amount::from(1)).is_none());
    let min = amount(-MAX_MANTISSA, 0);
    assert!(min.checked_add(min).is_none());
}

#[test]
fn difference_out_of_range_is_none() {
    let max = amount(MAX_MANTISSA, 0);
    let min = amount(-MAX_MANTISSA, 0);
    assert!(max.checked_sub(min).is_none());
    assert!(min.checked_sub(Amount::from(1)).is_none());
}

#[test]
fn greater_goes_by_the_number_not_the_digits() {
    assert!(Amount::from(2).gt(amount(19_999, 4)));
    assert!(!amount(19_999, 4).gt(Amount::from(2)));
    assert!(Amount::from(-1).gt(Amount::from(-2)));
    assert!(!amount(150, 2).gt(amount(15, 1)));
    assert!(!amount(15, 1).gt(amount(150, 2)));
    assert!(amount(1, 28).gt(Amount::zero()));
    assert!(Amount::zero().gt(amount(-1, 28)));
    assert!(!Amount::zero().gt(amount(0, 9)));
    assert!(amount(MAX_MANTISSA, 0).gt(amount(MAX_MANTISSA, 1)));
}

#[test]
fn equal_goes_by_the_number_not_the_digits() {
    assert_eq!(amount(150, 2), amount(15, 1));
    assert_eq!(Amount::zero(), amount(0, 12));
    assert_ne!(amount(150, 2), amount(151, 2));
    assert_ne!(Amount::from(1), Amount::from(-1));
    assert_eq!(Amount::from(100), amount(1_000_000, 4));
}

#[test]
fn rounding_leaves_short_amounts_alone() {
    assert_eq!(parts(amount(15, 1).round_dp(4)), (15, 1));
    assert_eq!(parts(amount(12_345, 4).round_dp(4)), (12_345, 4));
    assert_eq!(parts(Amount::from(7).round_dp(0)), (7, 0));
}

#[test]
fn rounding_goes_to_the_nearest() {
    assert_eq!(parts(amount(123_456_789, 8).round_dp(4)), (12_346, 4));
    assert_eq!(parts(amount(123_454_999, 8).round_dp(4)), (12_345, 4));
    assert_eq!(parts(amount(-123_456_789, 8).round_dp(4)), (-12_346, 4));
}

#[test]
fn rounding_breaks_ties_to_even() {
    assert_eq!(parts(amount(123_455, 5).round_dp(4)), (12_346, 4));
    assert_eq!(parts(amount(123_445, 5).round_dp(4)), (12_344, 4));
    assert_eq!(parts(amount(-123_455, 5).round_dp(4)), (-12_346, 4));
    assert_eq!(parts(amount(-123_445, 5).round_dp(4)), (-12_344, 4));
    assert_eq!(parts(amount(65, 1).round_dp(0)), (6, 0));
    assert_eq!(parts(amount(75, 1).round_dp(0)), (8, 0));
}

#[test]
fn rounding_zero_shortens_it() {
    assert_eq!(parts(amount(0, 6).round_dp(4)), (0, 4));
}

#[test]
fn rounding_the_longest_amounts() {
    assert_eq!(parts(amount(1, 28).round_dp(4)), (0, 4));
    assert_eq!(
        parts(amount(MAX_MANTISSA, 28).round_dp(4)),
        (79_228, 4)
    );
    assert_eq!(
        parts(amount(MAX_MANTISSA, 5).round_dp(4)),
        (7_922_816_251_426_433_759_354_395_034, 4)
    );
}

#[test]
fn arithmetic_is_that_of_the_decimal_library() {
    for a in samples() {
        for b in samples() {
            let sum = a.checked_add(b);
            assert_eq!(sum.map(decimal), decimal(a).checked_add(decimal(b)));
            if let (Some(s), Some(d)) = (sum, decimal(a).checked_add(decimal(b))) {
                assert_eq!(parts(s), (d.mantissa(), d.scale()));
            }
            let difference = a.checked_sub(b);
            assert_eq!(difference.map(decimal), decimal(a).checked_sub(decimal(b)));
            if let (Some(s), Some(d)) = (difference, decimal(a).checked_sub(decimal(b))) {
                assert_eq!(parts(s), (d.mantissa(), d.scale()));
            }
            assert_eq!(a.gt(b), decimal(a) > decimal(b));
            assert_eq!(a == b, decimal(a) == decimal(b));
        }
    }
}

#[test]
fn rounding_is_that_of_the_decimal_library() {
    for a in samples() {
        for dp in [0u32, 1, 4, 9, 27, 28, 40] {
            let d = decimal(a).round_dp(dp);
            assert_eq!(parts(a.round_dp(dp)), (d.mantissa(), d.scale()));
        }
    }
}

/// A fixed sequence of numbers that look random.
fn sequence(seed: u64) -> impl FnMut() -> u64 {
    let mut state = seed;
    move || {
        state ^= state << 13;
        state ^= state >> 7;
        state ^= state << 17;
        state
    }
}

#[test]
fn rounding_is_half_even_at_random() {
    let mut next = sequence(0x9E37_79B9_7F4A_7C15);
    for _ in 0..200_000 {
        let bits = next() % 96 + 1;
        let wide = ((next() as u128) << 64 | next() as u128) >> (128 - bits);
        let mut mantissa = wide as i128;
        if next() % 2 == 0 {
            mantissa = -mantissa;
        }
        let scale = (next() % 29) as u32;
        let dp = (next() % 29) as u32;
        let expected = if scale <= dp {
            (mantissa, scale)
        } else {
            let unit = 10i128.pow(scale - dp);
            let (q, r) = (mantissa.abs() / unit, mantissa.abs() % unit);
            let up = 2 * r > unit || (2 * r == unit && q % 2 == 1);
            let rounded = if up { q + 1 } else { q };
            (if mantissa < 0 { -rounded } else { rounded }, dp)
        };
        assert_eq!(parts(amount(mantissa, scale).round_dp(dp)), expected);
    }
}

#[test]
fn greater_is_by_value_at_random() {
    let mut next = sequence(0xD1B5_4A32_D192_ED03);
    for _ in 0..200_000 {
        let mut am = (next() >> (64 - (next() % 33 + 1))) as i128;
        let mut bm = (next() >> (64 - (next() % 33 + 1))) as i128;
        if next() % 2 == 0 {
            am = -am;
        }
        if next() % 2 == 0 {
            bm = -bm;
        }
        if next() % 8 == 0 {
            bm = am;
        }
        let (sa, sb) = ((next() % 29) as u32, (next() % 29) as u32);
        let value_a = am * 10i128.pow(28 - sa);
        let value_b = bm * 10i128.pow(28 - sb);
        let (a, b) = (amount(am, sa), amount(bm, sb));
        assert_eq!(a.gt(b), value_a > value_b);
        assert_eq!(a == b, value_a == value_b);
    }
}
