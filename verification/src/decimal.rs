//! Decimal numerals in ASCII, and the calls into `btoi` that read them.

use btoi::ParseIntegerError;
use vstd::prelude::*;

verus! {

/// The error of `btoi`'s parsers. Nothing of it is read here but that it occurred.
#[verifier::external_type_specification]
#[verifier::external_body]
pub struct ExParseIntegerError(ParseIntegerError);

/// The ASCII digit `0`.
pub const DIGIT_ZERO: u8 = 0x30;

/// The ASCII digit `9`.
pub const DIGIT_NINE: u8 = 0x39;

/// The ASCII sign `+`.
pub const PLUS: u8 = 0x2b;

/// The ASCII sign `-`.
pub const MINUS: u8 = 0x2d;

/// `byte` is one of the ASCII digits `0` to `9`.
pub open spec fn is_digit(byte: u8) -> bool {
    DIGIT_ZERO <= byte && byte <= DIGIT_NINE
}

/// Every byte of `s` is an ASCII digit. The empty sequence qualifies.
pub open spec fn all_digits(s: Seq<u8>) -> bool {
    forall|i: int| 0 <= i < s.len() ==> is_digit(#[trigger] s[i])
}

/// The number that a sequence of digits writes in base ten, the most
/// significant digit first. The empty sequence writes zero.
pub open spec fn decimal_value(s: Seq<u8>) -> nat
    decreases s.len(),
{
    if s.len() == 0 {
        0
    } else {
        10 * decimal_value(s.drop_last()) + (s.last() - DIGIT_ZERO) as nat
    }
}

/// What `s` reads as an unsigned decimal numeral: one digit or more, and
/// nothing else. No sign, no blank.
pub open spec fn unsigned_decimal(s: Seq<u8>) -> Option<nat> {
    if s.len() > 0 && all_digits(s) {
        Some(decimal_value(s))
    } else {
        None
    }
}

/// What `btoi::btoi` reads in `s` before it looks at the range of the target
/// type. A leading `+` is followed by an unsigned numeral. A leading `-` is
/// followed by digits whose value is negated; there the parser asks for no
/// digit, so that a lone `-` reads as zero. Without a sign, `s` is an
/// unsigned numeral.
pub open spec fn signed_decimal(s: Seq<u8>) -> Option<int> {
    if s.len() == 0 {
        None
    } else if s[0] == PLUS {
        match unsigned_decimal(s.drop_first()) {
            Some(n) => Some(n as int),
            None => None,
        }
    } else if s[0] == MINUS {
        if all_digits(s.drop_first()) {
            Some(-(decimal_value(s.drop_first()) as int))
        } else {
            None
        }
    } else {
        match unsigned_decimal(s) {
            Some(n) => Some(n as int),
            None => None,
        }
    }
}

/// Calls `btoi::btou` with `u64` as the target type.
///
/// Trusted: the call succeeds exactly on the unsigned decimal numerals whose
/// value fits in 64 bits, and then returns that value. An empty slice, a byte
/// that is no digit (a sign too) and a value above `u64::MAX` are errors.
#[verifier::external_body]
pub(crate) fn parse_u64(bytes: &[u8]) -> (r: Result<u64, ParseIntegerError>)
    ensures
        r is Ok <==> (unsigned_decimal(bytes@) matches Some(n) && n <= u64::MAX),
        r matches Ok(v) ==> unsigned_decimal(bytes@) == Some(v as nat),
{
    btoi::btou(bytes)
}

/// Calls `btoi::btoi` with `i16` as the target type.
///
/// Trusted: the call succeeds exactly where `signed_decimal` gives a value
/// between `i16::MIN` and `i16::MAX`, and then returns that value.
#[verifier::external_body]
pub(crate) fn parse_i16(bytes: &[u8]) -> (r: Result<i16, ParseIntegerError>)
    ensures
        r is Ok <==> (signed_decimal(bytes@) matches Some(n) && i16::MIN <= n <= i16::MAX),
        r matches Ok(v) ==> signed_decimal(bytes@) == Some(v as int),
{
    btoi::btoi(bytes)
}

} // verus!
