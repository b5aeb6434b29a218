use std::cmp::Ordering;
use std_traits::num::fold::{checked_product, checked_sum, product, sum};
use std_traits::num::{Float, Integer, Number, NumberLike, Signed, Unsigned, F32, F64};

fn f32_of(x: f32) -> F32 {
    F32(x.to_bits())
}

fn f64_of(x: f64) -> F64 {
    F64(x.to_bits())
}

fn to_f32(x: F32) -> f32 {
    f32::from_bits(x.0)
}

fn to_f64(x: F64) -> f64 {
    f64::from_bits(x.0)
}

#[test]
fn test_subnormal_consts() {
    assert_eq!(to_f32(F32::min_positive_subnormal()), f32::from_bits(1));
    assert_eq!(to_f32(F32::max_negative_subnormal()), -f32::from_bits(1));
    assert_eq!(to_f64(F64::min_positive_subnormal()), f64::from_bits(1));
    assert_eq!(to_f64(F64::max_negative_subnormal()), -f64::from_bits(1));
}

#[test]
fn test_euclid_core() {
    fn test_int<T: Integer>(a: T, b: T) -> (T, T) {
        (a.div_euclid(b), a.rem_euclid(b))
    }

    assert_eq!(test_int(-7, 4), (-2, 1));
}

#[test]
fn test_abs() {
    fn test_abs<T: Number>(a: T) -> T {
        a.abs()
    }

    assert_eq!(test_abs(1i32), 1);
    assert_eq!(test_abs(1u32), 1);
    assert_eq!(to_f64(test_abs(f64_of(1.0))), 1.0);

    assert_eq!(test_abs(-1i32), 1);
    assert_eq!(to_f64(test_abs(f64_of(-1.0))), 1.0);

    assert!(to_f64(test_abs(f64_of(f64::NAN))).is_nan());
}

#[test]
fn test_signum() {
    fn test_signum<T: Number>(a: T) -> T {
        a.signum()
    }

    assert_eq!(test_signum(123i32), 1);
    assert_eq!(test_signum(123u32), 1);
    assert_eq!(to_f64(test_signum(f64_of(123.0))), 1.0);

    assert_eq!(test_signum(0i32), 0);
    assert_eq!(test_signum(0u32), 0);
    assert_eq!(to_f64(test_signum(f64_of(0.0))), 1.0);
    assert_eq!(to_f64(test_signum(f64_of(-0.0))), -1.0);

    assert_eq!(test_signum(-123i32), -1);
    assert_eq!(to_f64(test_signum(f64_of(-123.0))), -1.0);

    assert!(to_f64(test_signum(f64_of(f64::NAN))).is_nan());
}

#[test]
fn test_int_conversions() {
    fn inner<T: Integer + PartialEq + std::fmt::Debug>(v: T)
    where
        T::Signed: Copy,
        T::Unsigned: Copy,
    {
        let bytes = v.to_bytes();
        let v2: T = T::from_bytes(bytes);
        assert_eq!(v2, v);

        let signed = v.to_signed();
        let v2 = T::from_signed(signed);
        assert_eq!(v2, v);

        let unsigned = v.to_unsigned();
        let v2 = T::from_unsigned(unsigned);
        assert_eq!(v2, v);
    }

    inner(123u64);
    inner(-123i64);
}

#[test]
fn checked_neg_of_min_is_none() {
    assert_eq!(<i32 as Integer>::checked_neg(i32::MIN), None);
    assert_eq!(<i32 as Integer>::checked_neg(5), Some(-5));
    assert_eq!(<u32 as Integer>::checked_neg(0), Some(0));
    assert_eq!(<u32 as Integer>::checked_neg(1), None);
}

#[test]
fn euclid_of_minus_seven_by_four() {
    assert_eq!(<i32 as Integer>::div_euclid(-7, 4), -2);
    assert_eq!(<i32 as Integer>::rem_euclid(-7, 4), 1);
    assert_eq!(<i32 as Integer>::div_euclid(7, -4), -1);
    assert_eq!(<i32 as Integer>::rem_euclid(7, -4), 3);
    assert_eq!(<i32 as Integer>::checked_div_euclid(-7, 0), None);
    assert_eq!(<i32 as Integer>::checked_rem_euclid(i32::MIN, -1), None);
    assert_eq!(<i32 as Integer>::wrapping_rem_euclid(i32::MIN, -1), 0);
    assert_eq!(<i32 as Integer>::wrapping_div_euclid(i32::MIN, -1), i32::MIN);
    assert_eq!(<i32 as Integer>::overflowing_div_euclid(i32::MIN, -1), (i32::MIN, true));
}

#[test]
fn bool_from_underlying() {
    assert_eq!(<bool as NumberLike>::try_from_underlying(2u8), None);
    assert_eq!(<bool as NumberLike>::try_from_underlying(1u8), Some(true));
    assert_eq!(<bool as NumberLike>::try_from_underlying(0u8), Some(false));
    assert_eq!(true.to_underlying(), 1u8);
    assert_eq!(<bool as NumberLike>::min_value(), false);
    assert_eq!(<bool as NumberLike>::max_value(), true);
    assert_eq!(true.to_le_bytes(), [1]);
    assert_eq!(<bool as NumberLike>::try_from_be_bytes([7]), None);
}

#[test]
fn char_from_underlying() {
    assert_eq!(<char as NumberLike>::try_from_underlying(0x41), Some('A'));
    assert_eq!(<char as NumberLike>::try_from_underlying(0xD7FF), Some('\u{d7ff}'));
    assert_eq!(<char as NumberLike>::try_from_underlying(0xD800), None);
    assert_eq!(<char as NumberLike>::try_from_underlying(0xDFFF), None);
    assert_eq!(<char as NumberLike>::try_from_underlying(0xE000), Some('\u{e000}'));
    assert_eq!(<char as NumberLike>::try_from_underlying(0x10FFFF), Some('\u{10ffff}'));
    assert_eq!(<char as NumberLike>::try_from_underlying(0x110000), None);
    assert_eq!('A'.to_underlying(), 0x41);
    assert_eq!('\u{1F600}'.to_be_bytes(), [0x00, 0x01, 0xF6, 0x00]);
    assert_eq!(<char as NumberLike>::try_from_le_bytes([0x00, 0xF6, 0x01, 0x00]), Some('\u{1F600}'));
    assert_eq!(<char as NumberLike>::try_from_le_bytes([0x00, 0xD8, 0x00, 0x00]), None);
    assert_eq!(<char as NumberLike>::min_value(), '\0');
    assert_eq!(<char as NumberLike>::max_value(), '\u{10ffff}');
}

#[test]
fn subnormal_from_bits() {
    let tiny = <F32 as Float>::from_bits(1u32);
    assert_eq!(tiny.0, F32::min_positive_subnormal().0);
    assert_eq!(tiny.neg().0, F32::max_negative_subnormal().0);
    assert_eq!(to_f32(tiny), f32::from_bits(1));
    assert!(tiny.is_subnormal());
    assert!(!tiny.is_normal());
}

#[test]
fn overflow_of_255_plus_1() {
    assert_eq!(<u8 as Integer>::wrapping_add(255, 1), 0);
    assert_eq!(<u8 as Integer>::saturating_add(255, 1), 255);
    assert_eq!(<u8 as Integer>::overflowing_add(255, 1), (0, true));
    assert_eq!(<u8 as Integer>::checked_add(255, 1), None);
    assert_eq!(<u8 as Integer>::checked_add(254, 1), Some(255));
}

#[test]
fn overflow_forms_agree() {
    fn check<T: Integer + PartialEq + std::fmt::Debug>(a: T, b: T) {
        let (wrapped, flag) = a.overflowing_add(b);
        assert_eq!(wrapped, a.wrapping_add(b));
        assert_eq!(flag, a.checked_add(b).is_none());
        let (wrapped, flag) = a.overflowing_sub(b);
        assert_eq!(wrapped, a.wrapping_sub(b));
        assert_eq!(flag, a.checked_sub(b).is_none());
        let (wrapped, flag) = a.overflowing_mul(b);
        assert_eq!(wrapped, a.wrapping_mul(b));
        assert_eq!(flag, a.checked_mul(b).is_none());
        if let Some(sum) = a.checked_add(b) {
            assert_eq!(a.saturating_add(b), sum);
        }
    }
    for a in [i8::MIN, -100, -1, 0, 1, 100, i8::MAX] {
        for b in [i8::MIN, -100, -1, 0, 1, 100, i8::MAX] {
            check(a, b);
            assert_eq!(<i8 as Integer>::wrapping_add(a, b), a.wrapping_add(b));
            assert_eq!(<i8 as Integer>::wrapping_mul(a, b), a.wrapping_mul(b));
            assert_eq!(<i8 as Integer>::saturating_add(a, b), a.saturating_add(b));
            assert_eq!(<i8 as Integer>::saturating_sub(a, b), a.saturating_sub(b));
            assert_eq!(<i8 as Integer>::saturating_mul(a, b), a.saturating_mul(b));
            assert_eq!(<i8 as Integer>::abs_diff(a, b), a.abs_diff(b));
            assert_eq!(<i8 as Integer>::midpoint(a, b), ((a as i32 + b as i32) / 2) as i8);
            assert_eq!(<i8 as Integer>::midpoint(a, b), a.midpoint(b));
            if b != 0 {
                assert_eq!(<i8 as Integer>::wrapping_div(a, b), a.wrapping_div(b));
                assert_eq!(<i8 as Integer>::wrapping_rem(a, b), a.wrapping_rem(b));
                assert_eq!(<i8 as Integer>::saturating_div(a, b), a.saturating_div(b));
                assert_eq!(<i8 as Integer>::overflowing_rem(a, b), a.overflowing_rem(b));
                assert_eq!(<i8 as Integer>::wrapping_div_euclid(a, b), a.wrapping_div_euclid(b));
                assert_eq!(<i8 as Integer>::wrapping_rem_euclid(a, b), a.wrapping_rem_euclid(b));
            }
            assert_eq!(<i8 as Integer>::checked_div(a, b), a.checked_div(b));
            assert_eq!(<i8 as Integer>::checked_rem(a, b), a.checked_rem(b));
        }
    }
    for a in [0u64, 1, 2, 1000, u64::MAX - 1, u64::MAX] {
        for b in [0u64, 1, 2, 1000, u64::MAX - 1, u64::MAX] {
            check(a, b);
            assert_eq!(<u64 as Integer>::saturating_mul(a, b), a.saturating_mul(b));
            assert_eq!(<u64 as Integer>::wrapping_neg(a), a.wrapping_neg());
            assert_eq!(<u64 as Integer>::abs_diff(a, b), a.abs_diff(b));
            assert_eq!(<u64 as Integer>::midpoint(a, b), ((a as u128 + b as u128) / 2) as u64);
            assert_eq!(<u64 as Integer>::midpoint(a, b), a.midpoint(b));
        }
    }
}

#[test]
fn saturation_clamps_at_the_right_bound() {
    assert_eq!(<i32 as Integer>::saturating_add(i32::MAX, 1), i32::MAX);
    assert_eq!(<i32 as Integer>::saturating_add(i32::MIN, -1), i32::MIN);
    assert_eq!(<i32 as Integer>::saturating_sub(i32::MIN, 1), i32::MIN);
    assert_eq!(<i32 as Integer>::saturating_sub(i32::MAX, -1), i32::MAX);
    assert_eq!(<i32 as Integer>::saturating_mul(i32::MIN, 2), i32::MIN);
    assert_eq!(<i32 as Integer>::saturating_mul(i32::MIN, -2), i32::MAX);
    assert_eq!(<i32 as Integer>::saturating_div(i32::MIN, -1), i32::MAX);
    assert_eq!(<u16 as Integer>::saturating_sub(3, 5), 0);
}

#[test]
fn bytes_in_each_order() {
    assert_eq!(0x1234_5678u32.to_be_bytes(), [0x12, 0x34, 0x56, 0x78]);
    assert_eq!(<u32 as NumberLike>::to_be_bytes(0x1234_5678), [0x12, 0x34, 0x56, 0x78]);
    assert_eq!(<u32 as NumberLike>::to_le_bytes(0x1234_5678), [0x78, 0x56, 0x34, 0x12]);
    assert_eq!(<u32 as NumberLike>::to_ne_bytes(0x1234_5678), 0x1234_5678u32.to_ne_bytes());
    assert_eq!(<u32 as NumberLike>::to_bytes(0x1234_5678), 0x1234_5678u32.to_ne_bytes());
    assert_eq!(<u32 as Number>::from_be_bytes([0x12, 0x34, 0x56, 0x78]), 0x1234_5678);
    assert_eq!(<u32 as Number>::from_le_bytes([0x12, 0x34, 0x56, 0x78]), 0x7856_3412);
    assert_eq!(<u32 as Number>::from_ne_bytes([0x12, 0x34, 0x56, 0x78]), u32::from_ne_bytes([0x12, 0x34, 0x56, 0x78]));
    assert_eq!(<i16 as NumberLike>::to_be_bytes(-2), [0xff, 0xfe]);
    assert_eq!(<i16 as Number>::from_le_bytes([0xfe, 0xff]), -2);
    assert_eq!(<i128 as NumberLike>::to_le_bytes(-1), [0xff; 16]);
    assert_eq!(<i128 as Number>::from_be_bytes(i128::MIN.to_be_bytes()), i128::MIN);
    assert_eq!(<u128 as NumberLike>::to_be_bytes(u128::MAX - 1), (u128::MAX - 1).to_be_bytes());
    assert_eq!(<usize as NumberLike>::to_le_bytes(0x0102), [2, 1, 0, 0, 0, 0, 0, 0]);
    assert_eq!(<isize as NumberLike>::try_from_le_bytes([0xff; 8]), Some(-1));
    assert_eq!(<u8 as NumberLike>::try_from_be_bytes([9]), Some(9));
}

#[test]
fn round_trips_through_bytes_and_underlying() {
    fn check<T: Number + PartialEq + std::fmt::Debug>(v: T) {
        assert_eq!(T::try_from_le_bytes(v.to_le_bytes()), Some(v));
        assert_eq!(T::try_from_be_bytes(v.to_be_bytes()), Some(v));
        assert_eq!(T::try_from_ne_bytes(v.to_ne_bytes()), Some(v));
        assert_eq!(T::try_from_bytes(v.to_bytes()), Some(v));
        assert_eq!(T::from_le_bytes(v.to_le_bytes()), v);
        assert_eq!(T::from_be_bytes(v.to_be_bytes()), v);
        assert_eq!(T::from_ne_bytes(v.to_ne_bytes()), v);
        assert_eq!(T::from_bytes(v.to_bytes()), v);
        assert_eq!(T::try_from_underlying(v.to_underlying()), Some(v));
    }
    check(0u8);
    check(200u8);
    check(-5i8);
    check(0xBEEFu16);
    check(i16::MIN);
    check(0xDEAD_BEEFu32);
    check(-123_456i32);
    check(u64::MAX);
    check(i64::MIN);
    check(u128::MAX / 3);
    check(i128::MIN + 1);
    check(usize::MAX);
    check(isize::MIN);
}

#[test]
fn float_round_trips_keep_payload_and_sign_of_zero() {
    let nan_with_payload = F32(0x7fc1_2345);
    assert_eq!(F32::from_le_bytes(nan_with_payload.to_le_bytes()).0, 0x7fc1_2345);
    assert_eq!(F32::from_be_bytes(nan_with_payload.to_be_bytes()).0, 0x7fc1_2345);
    assert_eq!(F32::from_bytes(nan_with_payload.to_bytes()).0, 0x7fc1_2345);
    assert_eq!(nan_with_payload.to_bytes(), f32::from_bits(0x7fc1_2345).to_ne_bytes());
    assert_eq!(F32::from_bits(nan_with_payload.to_bits()).0, 0x7fc1_2345);
    let negative_zero = f64_of(-0.0);
    assert_eq!(F64::from_be_bytes(negative_zero.to_be_bytes()).0, (-0.0f64).to_bits());
    assert_eq!(F64::try_from_underlying(negative_zero.to_underlying()).map(|x| x.0), Some(1u64 << 63));
    assert_eq!(f64_of(1.5).to_be_bytes(), 1.5f64.to_be_bytes());
    assert_eq!(f64_of(1.5).to_le_bytes(), 1.5f64.to_le_bytes());
}

#[test]
fn float_bounds_are_the_infinities() {
    assert_eq!(to_f64(F64::min_value()), f64::NEG_INFINITY);
    assert_eq!(to_f64(F64::max_value()), f64::INFINITY);
    assert_eq!(to_f32(F32::min_value()), f32::NEG_INFINITY);
    assert_eq!(to_f32(F32::max_value()), f32::INFINITY);
    assert_eq!(<i8 as NumberLike>::min_value(), -128);
    assert_eq!(<u16 as NumberLike>::max_value(), 65535);
}

#[test]
fn float_constants() {
    assert_eq!(F32::radix(), f32::RADIX);
    assert_eq!(F32::mantissa_digits(), f32::MANTISSA_DIGITS);
    assert_eq!(F32::digits(), f32::DIGITS);
    assert_eq!(to_f32(F32::epsilon()), f32::EPSILON);
    assert_eq!(to_f32(F32::min_finite()), f32::MIN);
    assert_eq!(to_f32(F32::min_positive_normal()), f32::MIN_POSITIVE);
    assert_eq!(F32::min_exp(), f32::MIN_EXP);
    assert_eq!(F32::min_10_exp(), f32::MIN_10_EXP);
    assert_eq!(to_f32(F32::max_finite()), f32::MAX);
    assert_eq!(to_f32(F32::max_negative_normal()), -f32::MIN_POSITIVE);
    assert_eq!(F32::max_exp(), f32::MAX_EXP);
    assert_eq!(F32::max_10_exp(), f32::MAX_10_EXP);
    assert_eq!(F32::nan().0, f32::NAN.to_bits());
    assert_eq!(to_f32(F32::infinity()), f32::INFINITY);
    assert_eq!(to_f32(F32::neg_infinity()), f32::NEG_INFINITY);
    assert_eq!(F32::neg_zero().0, (-0.0f32).to_bits());
    assert_eq!(to_f32(F32::zero()), 0.0);
    assert_eq!(to_f32(F32::one()), 1.0);
    assert_eq!(to_f32(F32::two()), 2.0);

    assert_eq!(F64::radix(), f64::RADIX);
    assert_eq!(F64::mantissa_digits(), f64::MANTISSA_DIGITS);
    assert_eq!(F64::digits(), f64::DIGITS);
    assert_eq!(to_f64(F64::epsilon()), f64::EPSILON);
    assert_eq!(to_f64(F64::min_finite()), f64::MIN);
    assert_eq!(to_f64(F64::min_positive_normal()), f64::MIN_POSITIVE);
    assert_eq!(F64::min_exp(), f64::MIN_EXP);
    assert_eq!(F64::min_10_exp(), f64::MIN_10_EXP);
    assert_eq!(to_f64(F64::max_finite()), f64::MAX);
    assert_eq!(to_f64(F64::max_negative_normal()), -f64::MIN_POSITIVE);
    assert_eq!(F64::max_exp(), f64::MAX_EXP);
    assert_eq!(F64::max_10_exp(), f64::MAX_10_EXP);
    assert_eq!(F64::nan().0, f64::NAN.to_bits());
    assert_eq!(to_f64(F64::infinity()), f64::INFINITY);
    assert_eq!(to_f64(F64::neg_infinity()), f64::NEG_INFINITY);
    assert_eq!(F64::neg_zero().0, (-0.0f64).to_bits());
    assert_eq!(to_f64(F64::zero()), 0.0);
    assert_eq!(to_f64(F64::one()), 1.0);
    assert_eq!(to_f64(F64::two()), 2.0);
}

fn samples() -> Vec<f64> {
    vec![
        f64::from_bits(0xfff8_0000_0000_0001),
        f64::NEG_INFINITY,
        f64::MIN,
        -1.5,
        -f64::MIN_POSITIVE,
        -f64::from_bits(1),
        -0.0,
        0.0,
        f64::from_bits(1),
        f64::MIN_POSITIVE,
        1.0,
        2.5,
        f64::MAX,
        f64::INFINITY,
        f64::NAN,
        f64::from_bits(0x7ff8_0000_0000_0001),
    ]
}

#[test]
fn total_order_follows_the_documented_sequence() {
    assert_eq!(f64_of(-0.0).total_cmp(&f64_of(0.0)), Ordering::Less);
    assert_eq!(f64_of(0.0).total_cmp(&f64_of(-0.0)), Ordering::Greater);
    assert_eq!(F64(0x7ff8_0000_0000_0001).total_cmp(&F64(0x7ff8_0000_0000_0002)), Ordering::Less);
    let all = samples();
    for (i, a) in all.iter().enumerate() {
        for (j, b) in all.iter().enumerate() {
            assert_eq!(f64_of(*a).total_cmp(&f64_of(*b)), i.cmp(&j));
            assert_eq!(f64_of(*a).total_cmp(&f64_of(*b)), a.total_cmp(b));
            let (x, y) = (*a as f32, *b as f32);
            assert_eq!(f32_of(x).total_cmp(&f32_of(y)), x.total_cmp(&y));
        }
    }
}

#[test]
fn nans_are_ordered_by_payload_on_either_side_of_the_sign() {
    assert_eq!(F64(0x7ff8_0000_0000_0001).total_cmp(&F64(0x7ff8_0000_0000_0002)), Ordering::Less);
    assert_eq!(F64(0xfff8_0000_0000_0001).total_cmp(&F64(0xfff8_0000_0000_0002)), Ordering::Less);
    assert_eq!(
        F64(0xfff8_0000_0000_0002).total_cmp(&F64(0xfff8_0000_0000_0001)),
        Ordering::Greater
    );
    assert_eq!(F64(0xfff8_0000_0000_0002).total_cmp(&F64(0xfff8_0000_0000_0002)), Ordering::Equal);
    assert_eq!(F32(0xffc0_0001).total_cmp(&F32(0xffc0_0002)), Ordering::Less);
    assert_eq!(F32(0xff80_0001).total_cmp(&F32(0xffff_ffff)), Ordering::Less);
    assert_eq!(F32(0x7fc0_0002).total_cmp(&F32(0x7fc0_0001)), Ordering::Greater);
    // every NaN with the sign bit set comes before negative infinity
    assert_eq!(F32(0xffff_ffff).total_cmp(&F32::neg_infinity()), Ordering::Less);
    assert_eq!(F32(0xff80_0001).total_cmp(&F32::neg_infinity()), Ordering::Less);
    assert_eq!(F32::neg_infinity().total_cmp(&F32(0xff80_0001)), Ordering::Greater);
    assert_eq!(F64(0xffff_ffff_ffff_ffff).total_cmp(&F64::neg_infinity()), Ordering::Less);
    assert_eq!(F64(0x7ff0_0000_0000_0001).total_cmp(&F64::infinity()), Ordering::Greater);
    // the numbers with the sign bit set keep their order
    assert_eq!(f64_of(-2.0).total_cmp(&f64_of(-1.0)), Ordering::Less);
    assert_eq!(f64_of(-1.0).total_cmp(&f64_of(-0.0)), Ordering::Less);
    assert_eq!(f64_of(f64::NEG_INFINITY).total_cmp(&f64_of(f64::MIN)), Ordering::Less);
}

#[test]
fn bytes_in_a_given_order() {
    assert_eq!(<u32 as NumberLike>::to_bytes_in(0x1234_5678, true), [0x78, 0x56, 0x34, 0x12]);
    assert_eq!(<u32 as NumberLike>::to_bytes_in(0x1234_5678, false), [0x12, 0x34, 0x56, 0x78]);
    assert_eq!(<u32 as Number>::from_bytes_in([0x12, 0x34, 0x56, 0x78], true), 0x7856_3412);
    assert_eq!(<u32 as Number>::from_bytes_in([0x12, 0x34, 0x56, 0x78], false), 0x1234_5678);
    assert_eq!(<i16 as NumberLike>::try_from_bytes_in([0xfe, 0xff], true), Some(-2));
    assert_eq!(<i16 as NumberLike>::try_from_bytes_in([0xfe, 0xff], false), Some(-257));
    assert_eq!(<bool as NumberLike>::try_from_bytes_in([2], true), None);
    assert_eq!(<bool as NumberLike>::try_from_bytes_in([1], false), Some(true));
    assert_eq!('A'.to_bytes_in(true), [0x41, 0, 0, 0]);
    assert_eq!('A'.to_bytes_in(false), [0, 0, 0, 0x41]);
    assert_eq!(<char as NumberLike>::try_from_bytes_in([0, 0xd8, 0, 0], true), None);
    assert_eq!(<char as NumberLike>::try_from_bytes_in([0, 0, 0xd8, 0], false), None);
    assert_eq!(<char as NumberLike>::try_from_bytes_in([0, 0, 0, 0x41], false), Some('A'));
    assert_eq!(f64_of(1.5).to_bytes_in(true), 1.5f64.to_le_bytes());
    assert_eq!(f64_of(1.5).to_bytes_in(false), 1.5f64.to_be_bytes());
    assert_eq!(F32::from_bytes_in([0, 0, 0x80, 0x3f], true).0, 1.0f32.to_bits());
    assert_eq!(F32::try_from_bytes_in([0x3f, 0x80, 0, 0], false).map(|x| x.0), Some(1.0f32.to_bits()));
    let little = 1u16.to_ne_bytes()[0] == 1;
    for v in [0u64, 1, 0x0102_0304_0506_0708, u64::MAX] {
        assert_eq!(<u64 as NumberLike>::to_bytes_in(v, little), v.to_ne_bytes());
        assert_eq!(<u64 as NumberLike>::to_ne_bytes(v), v.to_ne_bytes());
        for order in [true, false] {
            let bytes = <u64 as NumberLike>::to_bytes_in(v, order);
            assert_eq!(<u64 as NumberLike>::try_from_bytes_in(bytes, order), Some(v));
            assert_eq!(<u64 as Number>::from_bytes_in(bytes, order), v);
            assert_eq!(<u64 as Integer>::from_be_on(<u64 as Integer>::to_be_on(v, order), order), v);
            assert_eq!(<u64 as Integer>::from_le_on(<u64 as Integer>::to_le_on(v, order), order), v);
        }
        assert_eq!(<u64 as Integer>::to_be_on(v, true), v.swap_bytes());
        assert_eq!(<u64 as Integer>::to_be_on(v, false), v);
        assert_eq!(<u64 as Integer>::to_le_on(v, true), v);
        assert_eq!(<u64 as Integer>::to_le_on(v, false), v.swap_bytes());
        assert_eq!(<u64 as Integer>::from_be_on(v, true), v.swap_bytes());
        assert_eq!(<u64 as Integer>::from_be_on(v, false), v);
        assert_eq!(<u64 as Integer>::from_le_on(v, true), v);
        assert_eq!(<u64 as Integer>::from_le_on(v, false), v.swap_bytes());
        assert_eq!(<u64 as Integer>::to_be_on(v, little), v.to_be());
        assert_eq!(<u64 as Integer>::to_le_on(v, little), v.to_le());
    }
    assert_eq!(<i32 as Integer>::to_be_on(0x1234_5678, true), 0x7856_3412);
    assert_eq!(<i32 as Integer>::from_le_on(-2, false), (-2i32).swap_bytes());
}

#[test]
fn float_classification_matches_the_hardware() {
    for a in samples() {
        let x = f64_of(a);
        assert_eq!(x.is_nan(), a.is_nan());
        assert_eq!(x.is_infinite(), a.is_infinite());
        assert_eq!(x.is_finite(), a.is_finite());
        assert_eq!(x.is_subnormal(), a.is_subnormal());
        assert_eq!(x.is_normal(), a.is_normal());
        assert_eq!(x.classify(), a.classify());
        assert_eq!(x.is_sign_positive(), a.is_sign_positive());
        assert_eq!(x.is_sign_negative(), a.is_sign_negative());
        assert_eq!(x.next_up().0, a.next_up().to_bits());
        assert_eq!(x.next_down().0, a.next_down().to_bits());
        assert_eq!(x.neg().0, (-a).to_bits());
        assert_eq!(x.abs().0, a.abs().to_bits());
        assert_eq!(x.to_bits(), a.to_bits());
        if !a.is_nan() {
            assert_eq!(x.signum().0, a.signum().to_bits());
        }
        let y = a as f32;
        let z = f32_of(y);
        assert_eq!(z.classify(), y.classify());
        assert_eq!(z.next_up().0, y.next_up().to_bits());
        assert_eq!(z.next_down().0, y.next_down().to_bits());
        assert_eq!(z.abs().0, y.abs().to_bits());
        for b in samples() {
            assert_eq!(x.copysign(f64_of(b)).0, a.copysign(b).to_bits());
            if !a.is_nan() && !b.is_nan() && a != b {
                assert_eq!(x.max(f64_of(b)).0, a.max(b).to_bits());
                assert_eq!(x.min(f64_of(b)).0, a.min(b).to_bits());
            }
            if a.is_nan() && !b.is_nan() {
                assert_eq!(x.max(f64_of(b)).0, b.to_bits());
                assert_eq!(f64_of(b).min(x).0, b.to_bits());
            }
        }
    }
    assert_eq!(to_f64(f64_of(5.0).clamp(f64_of(-1.0), f64_of(2.0))), 2.0);
    assert_eq!(to_f64(f64_of(-5.0).clamp(f64_of(-1.0), f64_of(2.0))), -1.0);
    assert_eq!(to_f64(f64_of(0.5).clamp(f64_of(-1.0), f64_of(2.0))), 0.5);
    assert!(to_f64(f64_of(f64::NAN).clamp(f64_of(-1.0), f64_of(2.0))).is_nan());
}

#[test]
fn sign_and_zero_edge_cases() {
    assert_eq!(<i32 as Number>::signum(0), 0);
    assert_eq!(to_f64(f64_of(0.0).signum()), 1.0);
    assert_eq!(to_f64(f64_of(-0.0).signum()), -1.0);
    assert!(to_f64(f64_of(f64::NAN).abs()).is_nan());
    assert!(to_f64(f64_of(f64::NAN).signum()).is_nan());
    assert_eq!(<i8 as Number>::abs(-128 + 1), 127);
    assert_eq!(<i8 as Number>::zero(), 0);
    assert_eq!(<i8 as Number>::one(), 1);
    assert_eq!(<u64 as Number>::two(), 2);
}

#[test]
fn siblings_keep_the_bits() {
    assert_eq!(<i32 as Integer>::to_unsigned(-1), u32::MAX);
    assert_eq!(<i32 as Integer>::to_unsigned(i32::MIN), 0x8000_0000);
    assert_eq!(<u32 as Integer>::to_signed(u32::MAX), -1);
    assert_eq!(<u32 as Integer>::to_signed(0x8000_0000), i32::MIN);
    assert_eq!(<i8 as Integer>::from_unsigned(200), -56);
    assert_eq!(<u8 as Integer>::from_signed(-56), 200);
    assert_eq!(<u8 as Integer>::from_unsigned(7), 7);
    assert_eq!(<i128 as Signed>::cast_unsigned(-2), u128::MAX - 1);
    assert_eq!(<usize as Unsigned>::cast_signed(usize::MAX), -1);
    for v in [i16::MIN, -1, 0, 1, i16::MAX] {
        assert_eq!(<i16 as Integer>::to_unsigned(v), v as u16);
        assert_eq!(<i16 as Integer>::from_unsigned(v as u16), v);
    }
}

#[test]
fn signed_operations() {
    assert_eq!(<i8 as Signed>::checked_abs(-128), None);
    assert_eq!(<i8 as Signed>::checked_abs(-127), Some(127));
    assert_eq!(<i8 as Signed>::wrapping_abs(-128), -128);
    assert_eq!(<i8 as Signed>::saturating_abs(-128), 127);
    assert_eq!(<i8 as Signed>::overflowing_abs(-128), (-128, true));
    assert_eq!(<i8 as Signed>::overflowing_abs(-5), (5, false));
    assert_eq!(<i8 as Signed>::unsigned_abs(-128), 128);
    assert_eq!(<i8 as Signed>::saturating_neg(-128), 127);
    assert_eq!(<i8 as Signed>::strict_abs(-7), 7);
    assert!(<i8 as Signed>::is_negative(-1));
    assert!(!<i8 as Signed>::is_negative(0));
    assert!(<i8 as Signed>::is_positive(1));
    assert!(!<i8 as Signed>::is_positive(0));
    for a in [i8::MIN, -3, 0, 5, i8::MAX] {
        for b in [0u8, 1, 100, 128, 255] {
            assert_eq!(<i8 as Signed>::checked_add_unsigned(a, b), a.checked_add_unsigned(b));
            assert_eq!(<i8 as Signed>::checked_sub_unsigned(a, b), a.checked_sub_unsigned(b));
            assert_eq!(<i8 as Signed>::wrapping_add_unsigned(a, b), a.wrapping_add_unsigned(b));
            assert_eq!(<i8 as Signed>::wrapping_sub_unsigned(a, b), a.wrapping_sub_unsigned(b));
            assert_eq!(<i8 as Signed>::saturating_add_unsigned(a, b), a.saturating_add_unsigned(b));
            assert_eq!(<i8 as Signed>::saturating_sub_unsigned(a, b), a.saturating_sub_unsigned(b));
            assert_eq!(<i8 as Signed>::overflowing_add_unsigned(a, b), a.overflowing_add_unsigned(b));
            assert_eq!(<i8 as Signed>::overflowing_sub_unsigned(a, b), a.overflowing_sub_unsigned(b));
        }
    }
}

#[test]
fn unsigned_operations() {
    for a in [0u8, 1, 100, 128, 255] {
        for b in [i8::MIN, -3, 0, 5, i8::MAX] {
            assert_eq!(<u8 as Unsigned>::checked_add_signed(a, b), a.checked_add_signed(b));
            assert_eq!(<u8 as Unsigned>::wrapping_add_signed(a, b), a.wrapping_add_signed(b));
            assert_eq!(<u8 as Unsigned>::saturating_add_signed(a, b), a.saturating_add_signed(b));
            assert_eq!(<u8 as Unsigned>::overflowing_add_signed(a, b), a.overflowing_add_signed(b));
            assert_eq!(<u8 as Unsigned>::checked_sub_signed(a, b), (a as i32 - b as i32).try_into().ok());
            assert_eq!(<u8 as Unsigned>::checked_sub_signed(a, b), a.checked_sub_signed(b));
            assert_eq!(<u8 as Unsigned>::saturating_sub_signed(a, b), a.saturating_sub_signed(b));
            assert_eq!(<u8 as Unsigned>::wrapping_sub_signed(a, b), a.wrapping_sub_signed(b));
            assert_eq!(<u8 as Unsigned>::overflowing_sub_signed(a, b), a.overflowing_sub_signed(b));
            assert_eq!(<u8 as Unsigned>::wrapping_sub_signed(a, b), (a as i32 - b as i32) as u8);
            assert_eq!(<u8 as Unsigned>::saturating_sub_signed(a, b), (a as i32 - b as i32).clamp(0, 255) as u8);
        }
        for b in [0u8, 1, 3, 100, 255] {
            assert_eq!(<u8 as Unsigned>::checked_signed_diff(a, b), (a as i32 - b as i32).try_into().ok());
            assert_eq!(<u8 as Unsigned>::checked_signed_diff(a, b), a.checked_signed_diff(b));
            assert_eq!(<u8 as Unsigned>::is_multiple_of(a, b), if b == 0 { a == 0 } else { a % b == 0 });
            assert_eq!(<u8 as Unsigned>::checked_next_multiple_of(a, b), a.checked_next_multiple_of(b));
            if b != 0 {
                assert_eq!(<u8 as Unsigned>::div_ceil(a, b), a.div_ceil(b));
            }
            for carry in [false, true] {
                let sum = a as u32 + b as u32 + carry as u32;
                assert_eq!(<u8 as Unsigned>::carrying_add(a, b, carry), (sum as u8, sum > 255));
                let difference = a as i32 - b as i32 - carry as i32;
                assert_eq!(<u8 as Unsigned>::borrowing_sub(a, b, carry), (difference as u8, difference < 0));
            }
        }
    }
    assert_eq!(<u32 as Unsigned>::next_multiple_of(16, 8), 16);
    assert_eq!(<u32 as Unsigned>::next_multiple_of(23, 8), 24);
    assert_eq!(<u32 as Unsigned>::div_ceil(7, 2), 4);
    assert_eq!(<u8 as Unsigned>::checked_signed_diff(0, 128), Some(-128));
    assert_eq!(<u8 as Unsigned>::checked_signed_diff(0, 129), None);
    assert_eq!(<u8 as Unsigned>::checked_signed_diff(128, 0), None);
}

#[test]
fn floats_compare_as_numbers() {
    assert_eq!(f64_of(0.0), f64_of(-0.0));
    assert_ne!(f64_of(f64::NAN), f64_of(f64::NAN));
    assert_eq!(f64_of(1.5), f64_of(1.5));
    assert_ne!(f64_of(1.5), f64_of(-1.5));
    assert!(f64_of(-1.0) < f64_of(1.0));
    assert!(f64_of(f64::NEG_INFINITY) < f64_of(f64::MIN));
    assert!(!(f64_of(0.0) < f64_of(-0.0)));
    assert!(!(f64_of(-0.0) < f64_of(0.0)));
    assert!(f64_of(-0.0) <= f64_of(0.0));
    assert_eq!(f64_of(f64::NAN).partial_cmp(&f64_of(1.0)), None);
    assert_eq!(f64_of(2.0).partial_cmp(&f64_of(f64::NAN)), None);
    for a in samples() {
        for b in samples() {
            assert_eq!(f64_of(a) == f64_of(b), a == b);
            assert_eq!(f64_of(a).partial_cmp(&f64_of(b)), a.partial_cmp(&b));
            let (x, y) = (a as f32, b as f32);
            assert_eq!(f32_of(x) == f32_of(y), x == y);
            assert_eq!(f32_of(x).partial_cmp(&f32_of(y)), x.partial_cmp(&y));
        }
    }
    assert_eq!(F32::default().0, 0);
    assert_eq!(F64::default().0, 0);
}

#[test]
fn numbers_in_generic_code() {
    fn largest<T: Integer>(values: &[T]) -> T {
        let mut best = T::min_value();
        for v in values {
            if *v > best {
                best = *v;
            }
        }
        best
    }
    fn sum_or_none<T: Integer>(values: &[T]) -> Option<T> {
        let mut sum = T::zero();
        for v in values {
            sum = sum.checked_add(*v)?;
        }
        Some(sum)
    }
    assert_eq!(largest(&[3u8, 200, 17]), 200);
    assert_eq!(largest::<i16>(&[]), i16::MIN);
    assert_eq!(sum_or_none(&[100u8, 100, 55]), Some(255));
    assert_eq!(sum_or_none(&[100u8, 100, 56]), None);
    assert_eq!(sum_or_none(&[i64::MAX, -1, 1]), Some(i64::MAX));
}

#[test]
fn sums_and_products() {
    assert_eq!(sum(&[1u8, 2, 3, 4]), 10);
    assert_eq!(sum::<i32>(&[]), 0);
    assert_eq!(sum(&[-5i64, 7, -2]), 0);
    assert_eq!(product(&[2u16, 3, 7]), 42);
    assert_eq!(product::<u8>(&[]), 1);
    assert_eq!(product(&[-2i8, -8, -8]), -128);
    assert_eq!(checked_sum(&[200u8, 55]), Some(255));
    assert_eq!(checked_sum(&[200u8, 56]), None);
    assert_eq!(checked_sum(&[100i8, 100, -100]), None);
    assert_eq!(checked_sum(&[i8::MAX, -1, 1]), Some(i8::MAX));
    assert_eq!(checked_product(&[16u8, 15, 1]), Some(240));
    assert_eq!(checked_product(&[16u8, 16, 0]), None);
    assert_eq!(checked_product(&[0u8, 255, 255]), Some(0));
    assert_eq!(checked_product(&[u128::MAX, 1, 1]), Some(u128::MAX));
    assert_eq!(checked_sum(&[usize::MAX, 1]), None);
}
