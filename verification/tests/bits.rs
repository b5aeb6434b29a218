use std::num::IntErrorKind;
use std_traits::num::{Integer, Signed, Unsigned};

fn check_bits<T>(v: T, expected: [u32; 6])
where
    T: Integer,
{
    assert_eq!(
        [
            v.count_ones(),
            v.count_zeros(),
            v.leading_zeros(),
            v.trailing_zeros(),
            v.leading_ones(),
            v.trailing_ones(),
        ],
        expected
    );
}

#[test]
fn counts_of_bits() {
    for v in [0u8, 1, 2, 0x0f, 0x80, 0xa5, 0xfe, 0xff] {
        check_bits(
            v,
            [
                v.count_ones(),
                v.count_zeros(),
                v.leading_zeros(),
                v.trailing_zeros(),
                v.leading_ones(),
                v.trailing_ones(),
            ],
        );
    }
    for v in [i16::MIN, -2, -1, 0, 1, 0x00f0, i16::MAX] {
        check_bits(
            v,
            [
                v.count_ones(),
                v.count_zeros(),
                v.leading_zeros(),
                v.trailing_zeros(),
                v.leading_ones(),
                v.trailing_ones(),
            ],
        );
    }
    for v in [0u128, 1, u128::MAX, u128::MAX - 1, 1 << 127, (1 << 100) - 1] {
        check_bits(
            v,
            [
                v.count_ones(),
                v.count_zeros(),
                v.leading_zeros(),
                v.trailing_zeros(),
                v.leading_ones(),
                v.trailing_ones(),
            ],
        );
    }
    for v in [i64::MIN, -1, 0, 7, i64::MAX] {
        check_bits(
            v,
            [
                v.count_ones(),
                v.count_zeros(),
                v.leading_zeros(),
                v.trailing_zeros(),
                v.leading_ones(),
                v.trailing_ones(),
            ],
        );
    }
    assert_eq!(<u32 as Integer>::count_ones(0b1011), 3);
    assert_eq!(<u32 as Integer>::leading_zeros(1), 31);
    assert_eq!(<u32 as Integer>::trailing_zeros(0), 32);
    assert_eq!(<usize as Integer>::leading_zeros(1), usize::BITS - 1);
    assert_eq!(<isize as Integer>::count_ones(-1), usize::BITS);
}

#[test]
fn rotations_and_reversals() {
    for v in [0u8, 1, 0x81, 0xa5, 0xff] {
        for n in [0u32, 1, 3, 7, 8, 9, 250] {
            assert_eq!(<u8 as Integer>::rotate_left(v, n), v.rotate_left(n));
            assert_eq!(<u8 as Integer>::rotate_right(v, n), v.rotate_right(n));
        }
        assert_eq!(<u8 as Integer>::reverse_bits(v), v.reverse_bits());
        assert_eq!(<u8 as Integer>::swap_bytes(v), v.swap_bytes());
    }
    for v in [i32::MIN, -2, -1, 0, 1, 0x1234_5678, i32::MAX] {
        for n in [0u32, 1, 13, 31, 32, 33, u32::MAX] {
            assert_eq!(<i32 as Integer>::rotate_left(v, n), v.rotate_left(n));
            assert_eq!(<i32 as Integer>::rotate_right(v, n), v.rotate_right(n));
        }
        assert_eq!(<i32 as Integer>::reverse_bits(v), v.reverse_bits());
        assert_eq!(<i32 as Integer>::swap_bytes(v), v.swap_bytes());
        assert_eq!(<i32 as Integer>::to_be(v), v.to_be());
        assert_eq!(<i32 as Integer>::to_le(v), v.to_le());
        assert_eq!(<i32 as Integer>::from_be(v), i32::from_be(v));
        assert_eq!(<i32 as Integer>::from_le(v), i32::from_le(v));
    }
    for v in [0u128, 1, u128::MAX / 7, 1 << 127, u128::MAX] {
        for n in [0u32, 1, 64, 127, 128, 129] {
            assert_eq!(<u128 as Integer>::rotate_left(v, n), v.rotate_left(n));
            assert_eq!(<u128 as Integer>::rotate_right(v, n), v.rotate_right(n));
        }
        assert_eq!(<u128 as Integer>::reverse_bits(v), v.reverse_bits());
        assert_eq!(<u128 as Integer>::swap_bytes(v), v.swap_bytes());
    }
    assert_eq!(<u16 as Integer>::swap_bytes(0x1234), 0x3412);
    assert_eq!(<u16 as Integer>::reverse_bits(0x0001), 0x8000);
    assert_eq!(<u16 as Integer>::rotate_left(0x8001, 4), 0x0018);
    assert_eq!(<usize as Integer>::swap_bytes(1), 1usize.swap_bytes());
    assert_eq!(<usize as Integer>::rotate_right(1, 1), 1usize.rotate_right(1));
}

#[test]
fn shifts() {
    for v in [i8::MIN, -3, -1, 0, 1, 0x55, i8::MAX] {
        for n in [0u32, 1, 3, 7, 8, 9, 100] {
            assert_eq!(<i8 as Integer>::checked_shl(v, n), v.checked_shl(n));
            assert_eq!(<i8 as Integer>::checked_shr(v, n), v.checked_shr(n));
            assert_eq!(<i8 as Integer>::wrapping_shl(v, n), v.wrapping_shl(n));
            assert_eq!(<i8 as Integer>::wrapping_shr(v, n), v.wrapping_shr(n));
            assert_eq!(<i8 as Integer>::overflowing_shl(v, n), v.overflowing_shl(n));
            assert_eq!(<i8 as Integer>::overflowing_shr(v, n), v.overflowing_shr(n));
            assert_eq!(<i8 as Integer>::unbounded_shl(v, n), v.unbounded_shl(n));
            assert_eq!(<i8 as Integer>::unbounded_shr(v, n), v.unbounded_shr(n));
        }
    }
    for v in [0u64, 1, 0xdead_beef, u64::MAX] {
        for n in [0u32, 1, 31, 63, 64, 65] {
            assert_eq!(<u64 as Integer>::checked_shl(v, n), v.checked_shl(n));
            assert_eq!(<u64 as Integer>::checked_shr(v, n), v.checked_shr(n));
            assert_eq!(<u64 as Integer>::wrapping_shl(v, n), v.wrapping_shl(n));
            assert_eq!(<u64 as Integer>::wrapping_shr(v, n), v.wrapping_shr(n));
            assert_eq!(<u64 as Integer>::unbounded_shl(v, n), v.unbounded_shl(n));
            assert_eq!(<u64 as Integer>::unbounded_shr(v, n), v.unbounded_shr(n));
        }
    }
    assert_eq!(<u8 as Integer>::strict_shl(0x81, 1), 0x02);
    assert_eq!(<i8 as Integer>::strict_shr(-3, 1), -2);
    assert_eq!(<i128 as Integer>::strict_shr(i128::MIN, 127), -1);
    assert_eq!(<i128 as Integer>::strict_shl(1, 127), i128::MIN);
    assert_eq!(<u128 as Integer>::strict_shl(u128::MAX, 127), 1 << 127);
    assert_eq!(<usize as Integer>::checked_shl(1, usize::BITS), None);
}

#[test]
fn powers() {
    for v in [i8::MIN, -3, -2, -1, 0, 1, 2, 3, 11, i8::MAX] {
        for e in [0u32, 1, 2, 3, 6, 7, 8, 9, 100, 101] {
            assert_eq!(<i8 as Integer>::checked_pow(v, e), v.checked_pow(e));
            assert_eq!(<i8 as Integer>::wrapping_pow(v, e), v.wrapping_pow(e));
            assert_eq!(<i8 as Integer>::saturating_pow(v, e), v.saturating_pow(e));
            assert_eq!(<i8 as Integer>::overflowing_pow(v, e), v.overflowing_pow(e));
        }
    }
    for v in [0u128, 1, 2, 3, 10, u64::MAX as u128, u128::MAX] {
        for e in [0u32, 1, 2, 3, 38, 39, 127, 128, 1000] {
            assert_eq!(<u128 as Integer>::checked_pow(v, e), v.checked_pow(e));
            assert_eq!(<u128 as Integer>::wrapping_pow(v, e), v.wrapping_pow(e));
            assert_eq!(<u128 as Integer>::saturating_pow(v, e), v.saturating_pow(e));
        }
    }
    for v in [i64::MIN, -3, -1, 0, 1, 2, 3_037_000_499, i64::MAX] {
        for e in [0u32, 1, 2, 3, 62, 63, 64, u32::MAX] {
            assert_eq!(<i64 as Integer>::checked_pow(v, e), v.checked_pow(e));
            assert_eq!(<i64 as Integer>::wrapping_pow(v, e), v.wrapping_pow(e));
            assert_eq!(<i64 as Integer>::saturating_pow(v, e), v.saturating_pow(e));
        }
    }
    assert_eq!(<u32 as Integer>::pow(3, 4), 81);
    assert_eq!(<i32 as Integer>::pow(-2, 31), i32::MIN);
    assert_eq!(<i32 as Integer>::strict_pow(-2, 3), -8);
    assert_eq!(<i32 as Integer>::checked_pow(-2, 32), None);
    assert_eq!(<u8 as Integer>::wrapping_pow(3, u32::MAX), 3u8.wrapping_pow(u32::MAX));
    assert_eq!(<usize as Integer>::checked_pow(2, usize::BITS), None);
    assert_eq!(<isize as Integer>::wrapping_pow(-3, 5), -243);
}

#[test]
fn roots_and_logarithms() {
    for v in [0u64, 1, 2, 3, 4, 15, 16, 17, 99, 100, 1 << 40, u64::MAX] {
        assert_eq!(<u64 as Integer>::isqrt(v), v.isqrt());
        assert_eq!(<u64 as Integer>::checked_ilog2(v), v.checked_ilog2());
        assert_eq!(<u64 as Integer>::checked_ilog10(v), v.checked_ilog10());
        for b in [0u64, 1, 2, 3, 10, 1 << 32, u64::MAX] {
            assert_eq!(<u64 as Integer>::checked_ilog(v, b), v.checked_ilog(b));
        }
    }
    for v in [i32::MIN, -1, 0, 1, 8, 9, 10, 999, 1000, i32::MAX] {
        assert_eq!(<i32 as Signed>::checked_isqrt(v), v.checked_isqrt());
        assert_eq!(<i32 as Integer>::checked_ilog2(v), v.checked_ilog2());
        assert_eq!(<i32 as Integer>::checked_ilog10(v), v.checked_ilog10());
        for b in [i32::MIN, -2, 0, 1, 2, 7, i32::MAX] {
            assert_eq!(<i32 as Integer>::checked_ilog(v, b), v.checked_ilog(b));
        }
    }
    assert_eq!(<u128 as Integer>::isqrt(u128::MAX), u128::MAX.isqrt());
    assert_eq!(<u128 as Integer>::isqrt(1 << 126), 1 << 63);
    assert_eq!(<i128 as Integer>::isqrt(i128::MAX), i128::MAX.isqrt());
    assert_eq!(<u128 as Integer>::ilog2(u128::MAX), 127);
    assert_eq!(<u128 as Integer>::ilog10(u128::MAX), 38);
    assert_eq!(<u8 as Integer>::ilog(255, 2), 7);
    assert_eq!(<u8 as Integer>::ilog(9, 3), 2);
    assert_eq!(<u32 as Integer>::isqrt(17), 4);
    assert_eq!(<i8 as Integer>::ilog10(100), 2);
}

#[test]
fn powers_of_two() {
    for v in [0u8, 1, 2, 3, 4, 5, 64, 65, 127, 128, 129, 255] {
        assert_eq!(<u8 as Unsigned>::is_power_of_two(v), v.is_power_of_two());
        assert_eq!(<u8 as Unsigned>::checked_next_power_of_two(v), v.checked_next_power_of_two());
    }
    for v in [0u128, 1, 3, (1 << 127) - 1, 1 << 127, (1 << 127) + 1, u128::MAX] {
        assert_eq!(<u128 as Unsigned>::is_power_of_two(v), v.is_power_of_two());
        assert_eq!(
            <u128 as Unsigned>::checked_next_power_of_two(v),
            v.checked_next_power_of_two()
        );
    }
    assert_eq!(<u32 as Unsigned>::next_power_of_two(0), 1);
    assert_eq!(<u32 as Unsigned>::next_power_of_two(17), 32);
    assert_eq!(<u32 as Unsigned>::next_power_of_two(32), 32);
    assert_eq!(<usize as Unsigned>::checked_next_power_of_two(usize::MAX), None);
}

#[test]
fn products_in_limbs() {
    for a in [0u8, 1, 2, 100, 255] {
        for b in [0u8, 1, 3, 200, 255] {
            for c in [0u8, 1, 255] {
                let total = a as u32 * b as u32 + c as u32;
                assert_eq!(
                    <u8 as Unsigned>::carrying_mul(a, b, c),
                    (total as u8, (total >> 8) as u8)
                );
                for d in [0u8, 7, 255] {
                    let total = total + d as u32;
                    assert_eq!(
                        <u8 as Unsigned>::carrying_mul_add(a, b, c, d),
                        (total as u8, (total >> 8) as u8)
                    );
                }
            }
        }
    }
    for a in [0u64, 1, 0xdead_beef_cafe_f00d, u64::MAX] {
        for b in [0u64, 2, 0x1234_5678_9abc_def0, u64::MAX] {
            let total = a as u128 * b as u128 + u64::MAX as u128 + u64::MAX as u128;
            assert_eq!(
                <u64 as Unsigned>::carrying_mul_add(a, b, u64::MAX, u64::MAX),
                (total as u64, (total >> 64) as u64)
            );
        }
    }
    assert_eq!(<u128 as Unsigned>::carrying_mul(u128::MAX, u128::MAX, 0), (1, u128::MAX - 1));
    assert_eq!(
        <u128 as Unsigned>::carrying_mul(u128::MAX, u128::MAX, u128::MAX),
        (0, u128::MAX)
    );
    assert_eq!(
        <u128 as Unsigned>::carrying_mul_add(u128::MAX, u128::MAX, u128::MAX, u128::MAX),
        (u128::MAX, u128::MAX)
    );
    assert_eq!(
        <u128 as Unsigned>::carrying_mul(1 << 64, 1 << 64, 5),
        (5, 1)
    );
    assert_eq!(
        <u128 as Unsigned>::carrying_mul(0x1234_5678_9abc_def0_0fed_cba9_8765_4321, 3, 9),
        (0x1234_5678_9abc_def0_0fed_cba9_8765_4321 * 3 + 9, 0)
    );
    assert_eq!(<usize as Unsigned>::carrying_mul(usize::MAX, 2, 1), (usize::MAX, 1));
}

#[test]
fn text_in_a_radix() {
    assert_eq!(<u8 as Integer>::from_str_radix("ff", 16), Ok(255));
    assert_eq!(<u8 as Integer>::from_str_radix("+7", 10), Ok(7));
    assert_eq!(<i8 as Integer>::from_str_radix("-80", 16), Ok(-128));
    assert_eq!(<u16 as Integer>::from_str_radix("1010", 2), Ok(10));
    assert_eq!(<i16 as Integer>::from_str_radix("-zz", 36), Ok(-1295));
    assert_eq!(<u32 as Integer>::from_str_radix("Zz", 36), Ok(1295));
    assert_eq!(<i32 as Integer>::from_str_radix("-2147483648", 10), Ok(i32::MIN));
    assert_eq!(<u64 as Integer>::from_str_radix("777", 8), Ok(511));
    assert_eq!(<i64 as Integer>::from_str_radix("-1", 2), Ok(-1));
    assert_eq!(
        <u128 as Integer>::from_str_radix("ffffffffffffffffffffffffffffffff", 16),
        Ok(u128::MAX)
    );
    assert_eq!(<i128 as Integer>::from_str_radix("0", 36), Ok(0));
    assert_eq!(<usize as Integer>::from_str_radix("12", 3), Ok(5));
    assert_eq!(<isize as Integer>::from_str_radix("-12", 3), Ok(-5));

    let kind = |r: Result<i8, std::num::ParseIntError>| r.unwrap_err().kind().clone();
    assert_eq!(kind(<i8 as Integer>::from_str_radix("", 10)), IntErrorKind::Empty);
    assert_eq!(kind(<i8 as Integer>::from_str_radix("-", 10)), IntErrorKind::InvalidDigit);
    assert_eq!(kind(<i8 as Integer>::from_str_radix("12a", 10)), IntErrorKind::InvalidDigit);
    assert_eq!(kind(<i8 as Integer>::from_str_radix("1_0", 10)), IntErrorKind::InvalidDigit);
    assert_eq!(kind(<i8 as Integer>::from_str_radix(" 1", 10)), IntErrorKind::InvalidDigit);
    assert_eq!(kind(<i8 as Integer>::from_str_radix("2", 2)), IntErrorKind::InvalidDigit);
    assert_eq!(kind(<i8 as Integer>::from_str_radix("128", 10)), IntErrorKind::PosOverflow);
    assert_eq!(kind(<i8 as Integer>::from_str_radix("-129", 10)), IntErrorKind::NegOverflow);
    assert!(<u8 as Integer>::from_str_radix("-1", 10).is_err());
    assert!(<u8 as Integer>::from_str_radix("256", 10).is_err());
}
