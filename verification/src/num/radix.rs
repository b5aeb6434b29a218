//! Integers written as text in a radix.

use vstd::prelude::*;
use core::num::ParseIntError;

verus! {

/// `core::num::ParseIntError`: what the standard library says of a text
/// that denotes no integer of a type. Nothing is known of one.
#[verifier::external_type_specification]
#[verifier::external_body]
pub struct ExParseIntError(ParseIntError);

/// The value of a character as a digit: the ten figures, then the
/// letters of either case from ten on.
pub open spec fn digit_value(c: char) -> Option<nat> {
    if '0' <= c <= '9' {
        Some((c as nat - '0' as nat) as nat)
    } else if 'a' <= c <= 'z' {
        Some((c as nat - 'a' as nat + 10) as nat)
    } else if 'A' <= c <= 'Z' {
        Some((c as nat - 'A' as nat + 10) as nat)
    } else {
        None
    }
}

/// The number that a run of digits denotes in a radix, where each
/// character is a digit of that radix.
pub open spec fn digits_value(digits: Seq<char>, radix: nat) -> Option<nat>
    decreases digits.len(),
{
    if digits.len() == 0 {
        Some(0)
    } else {
        match (digits_value(digits.drop_last(), radix), digit_value(digits.last())) {
            (Some(high), Some(low)) => if low < radix {
                Some(high * radix + low)
            } else {
                None
            },
            _ => None,
        }
    }
}

/// The integer that a text denotes in a radix: one digit at least, after
/// a plus sign or nothing, or after a minus sign where the type is signed.
pub open spec fn numeral(text: Seq<char>, radix: nat, signed: bool) -> Option<int> {
    if text.len() == 0 {
        None
    } else if text[0] == '+' || (text[0] == '-' && signed) {
        if text.len() == 1 {
            None
        } else {
            match digits_value(text.skip(1), radix) {
                Some(magnitude) => Some(
                    if text[0] == '-' {
                        -(magnitude as int)
                    } else {
                        magnitude as int
                    },
                ),
                None => None,
            }
        }
    } else {
        match digits_value(text, radix) {
            Some(magnitude) => Some(magnitude as int),
            None => None,
        }
    }
}

/// `u8::from_str_radix`: the integer that the text denotes, where it
/// denotes one that the type holds, and an error where it does not.
#[verifier::external_body]
pub(crate) fn parse_u8(src: &str, radix: u32) -> (r: Result<u8, ParseIntError>)
    requires
        2 <= radix <= 36,
    ensures
        match r {
            Ok(v) => numeral(src@, radix as nat, false) == Some(v as int),
            Err(_) => match numeral(src@, radix as nat, false) {
                Some(i) => !(u8::MIN <= i <= u8::MAX),
                None => true,
            },
        },
{
    u8::from_str_radix(src, radix)
}

/// `i8::from_str_radix`: the integer that the text denotes, where it
/// denotes one that the type holds, and an error where it does not.
#[verifier::external_body]
pub(crate) fn parse_i8(src: &str, radix: u32) -> (r: Result<i8, ParseIntError>)
    requires
        2 <= radix <= 36,
    ensures
        match r {
            Ok(v) => numeral(src@, radix as nat, true) == Some(v as int),
            Err(_) => match numeral(src@, radix as nat, true) {
                Some(i) => !(i8::MIN <= i <= i8::MAX),
                None => true,
            },
        },
{
    i8::from_str_radix(src, radix)
}

/// `u16::from_str_radix`: the integer that the text denotes, where it
/// denotes one that the type holds, and an error where it does not.
#[verifier::external_body]
pub(crate) fn parse_u16(src: &str, radix: u32) -> (r: Result<u16, ParseIntError>)
    requires
        2 <= radix <= 36,
    ensures
        match r {
            Ok(v) => numeral(src@, radix as nat, false) == Some(v as int),
            Err(_) => match numeral(src@, radix as nat, false) {
                Some(i) => !(u16::MIN <= i <= u16::MAX),
                None => true,
            },
        },
{
    u16::from_str_radix(src, radix)
}

/// `i16::from_str_radix`: the integer that the text denotes, where it
/// denotes one that the type holds, and an error where it does not.
#[verifier::external_body]
pub(crate) fn parse_i16(src: &str, radix: u32) -> (r: Result<i16, ParseIntError>)
    requires
        2 <= radix <= 36,
    ensures
        match r {
            Ok(v) => numeral(src@, radix as nat, true) == Some(v as int),
            Err(_) => match numeral(src@, radix as nat, true) {
                Some(i) => !(i16::MIN <= i <= i16::MAX),
                None => true,
            },
        },
{
    i16::from_str_radix(src, radix)
}

/// `u32::from_str_radix`: the integer that the text denotes, where it
/// denotes one that the type holds, and an error where it does not.
#[verifier::external_body]
pub(crate) fn parse_u32(src: &str, radix: u32) -> (r: Result<u32, ParseIntError>)
    requires
        2 <= radix <= 36,
    ensures
        match r {
            Ok(v) => numeral(src@, radix as nat, false) == Some(v as int),
            Err(_) => match numeral(src@, radix as nat, false) {
                Some(i) => !(u32::MIN <= i <= u32::MAX),
                None => true,
            },
        },
{
    u32::from_str_radix(src, radix)
}

/// `i32::from_str_radix`: the integer that the text denotes, where it
/// denotes one that the type holds, and an error where it does not.
#[verifier::external_body]
pub(crate) fn parse_i32(src: &str, radix: u32) -> (r: Result<i32, ParseIntError>)
    requires
        2 <= radix <= 36,
    ensures
        match r {
            Ok(v) => numeral(src@, radix as nat, true) == Some(v as int),
            Err(_) => match numeral(src@, radix as nat, true) {
                Some(i) => !(i32::MIN <= i <= i32::MAX),
                None => true,
            },
        },
{
    i32::from_str_radix(src, radix)
}

/// `u64::from_str_radix`: the integer that the text denotes, where it
/// denotes one that the type holds, and an error where it does not.
#[verifier::external_body]
pub(crate) fn parse_u64(src: &str, radix: u32) -> (r: Result<u64, ParseIntError>)
    requires
        2 <= radix <= 36,
    ensures
        match r {
            Ok(v) => numeral(src@, radix as nat, false) == Some(v as int),
            Err(_) => match numeral(src@, radix as nat, false) {
                Some(i) => !(u64::MIN <= i <= u64::MAX),
                None => true,
            },
        },
{
    u64::from_str_radix(src, radix)
}

/// `i64::from_str_radix`: the integer that the text denotes, where it
/// denotes one that the type holds, and an error where it does not.
#[verifier::external_body]
pub(crate) fn parse_i64(src: &str, radix: u32) -> (r: Result<i64, ParseIntError>)
    requires
        2 <= radix <= 36,
    ensures
        match r {
            Ok(v) => numeral(src@, radix as nat, true) == Some(v as int),
            Err(_) => match numeral(src@, radix as nat, true) {
                Some(i) => !(i64::MIN <= i <= i64::MAX),
                None => true,
            },
        },
{
    i64::from_str_radix(src, radix)
}

/// `u128::from_str_radix`: the integer that the text denotes, where it
/// denotes one that the type holds, and an error where it does not.
#[verifier::external_body]
pub(crate) fn parse_u128(src: &str, radix: u32) -> (r: Result<u128, ParseIntError>)
    requires
        2 <= radix <= 36,
    ensures
        match r {
            Ok(v) => numeral(src@, radix as nat, false) == Some(v as int),
            Err(_) => match numeral(src@, radix as nat, false) {
                Some(i) => !(u128::MIN <= i <= u128::MAX),
                None => true,
            },
        },
{
    u128::from_str_radix(src, radix)
}

/// `i128::from_str_radix`: the integer that the text denotes, where it
/// denotes one that the type holds, and an error where it does not.
#[verifier::external_body]
pub(crate) fn parse_i128(src: &str, radix: u32) -> (r: Result<i128, ParseIntError>)
    requires
        2 <= radix <= 36,
    ensures
        match r {
            Ok(v) => numeral(src@, radix as nat, true) == Some(v as int),
            Err(_) => match numeral(src@, radix as nat, true) {
                Some(i) => !(i128::MIN <= i <= i128::MAX),
                None => true,
            },
        },
{
    i128::from_str_radix(src, radix)
}

/// `usize::from_str_radix`: the integer that the text denotes, where it
/// denotes one that the type holds, and an error where it does not.
#[verifier::external_body]
pub(crate) fn parse_usize(src: &str, radix: u32) -> (r: Result<usize, ParseIntError>)
    requires
        2 <= radix <= 36,
    ensures
        match r {
            Ok(v) => numeral(src@, radix as nat, false) == Some(v as int),
            Err(_) => match numeral(src@, radix as nat, false) {
                Some(i) => !(usize::MIN <= i <= usize::MAX),
                None => true,
            },
        },
{
    usize::from_str_radix(src, radix)
}

/// `isize::from_str_radix`: the integer that the text denotes, where it
/// denotes one that the type holds, and an error where it does not.
#[verifier::external_body]
pub(crate) fn parse_isize(src: &str, radix: u32) -> (r: Result<isize, ParseIntError>)
    requires
        2 <= radix <= 36,
    ensures
        match r {
            Ok(v) => numeral(src@, radix as nat, true) == Some(v as int),
            Err(_) => match numeral(src@, radix as nat, true) {
                Some(i) => !(isize::MIN <= i <= isize::MAX),
                None => true,
            },
        },
{
    isize::from_str_radix(src, radix)
}

} // verus!
