//! Reading one whitespace-separated parameter token as an unsigned
//! integer, with the exact error the surrounding reporting layer shows.

use vstd::prelude::*;
use vstd::string::StringSliceAdditionalSpecFns;

verus! {

/// Why a token could not be read as an unsigned integer.
#[derive(Debug, PartialEq, Eq, Structural, Clone, Copy)]
pub enum ParseUintError {
    /// The token has no characters at all.
    Empty,
    /// A character that is no digit was met: anything outside `0`
    /// through `9`, or a leading `+` with nothing after it.
    InvalidDigit,
    /// The digits name a value above `u32::MAX`.
    Overflow,
}

/// What can go wrong while reading a parameter token.
#[derive(Debug, PartialEq, Eq, Structural, Clone, Copy)]
pub enum ReadError {
    /// The parameter line ended before the expected token.
    ParameterFormatError,
    /// The token is not a well-formed `u32`.
    IntegerConvertError(ParseUintError),
}

impl ReadError {
    /// The diagnostic line shown for this error.
    pub fn message(&self) -> (r: &'static str)
        ensures
            *self == ReadError::ParameterFormatError ==> r@ == "incorrect parameter format !"@,
            *self == ReadError::IntegerConvertError(ParseUintError::Empty) ==> r@
                == "cannot parse integer from empty string"@,
            *self == ReadError::IntegerConvertError(ParseUintError::InvalidDigit) ==> r@
                == "invalid digit found in string"@,
            *self == ReadError::IntegerConvertError(ParseUintError::Overflow) ==> r@
                == "number too large to fit in target type"@,
    {
        match self {
            ReadError::ParameterFormatError => "incorrect parameter format !",
            ReadError::IntegerConvertError(ParseUintError::Empty) => "cannot parse integer from empty string",
            ReadError::IntegerConvertError(ParseUintError::InvalidDigit) => "invalid digit found in string",
            ReadError::IntegerConvertError(ParseUintError::Overflow) => "number too large to fit in target type",
        }
    }
}

/// The byte is an ASCII decimal digit.
pub open spec fn is_digit_byte(b: u8) -> bool {
    0x30 <= b <= 0x39
}

/// The value of an ASCII decimal digit.
pub open spec fn digit_val(b: u8) -> int {
    b - 0x30
}

/// Every byte of the token is an ASCII decimal digit.
pub open spec fn all_digits(bytes: Seq<u8>) -> bool {
    forall|i: int| 0 <= i < bytes.len() ==> is_digit_byte(#[trigger] bytes[i])
}

/// The value the digits name, read left to right from a running value
/// of `acc` (Horner's form of the usual positional value).
pub open spec fn decimal_value_acc(bytes: Seq<u8>, acc: int) -> int
    decreases bytes.len(),
{
    if bytes.len() == 0 {
        acc
    } else {
        decimal_value_acc(bytes.drop_first(), acc * 10 + digit_val(bytes[0]))
    }
}

/// The value a digit string names.
pub open spec fn decimal_value(bytes: Seq<u8>) -> int {
    decimal_value_acc(bytes, 0)
}

/// The left-to-right scan of a token, exactly as the parser walks it:
/// the first non-digit stops it, and so does the first running value
/// above `u32::MAX`, whichever comes first.
pub open spec fn scan_digits(bytes: Seq<u8>, acc: int) -> Result<u32, ParseUintError>
    decreases bytes.len(),
{
    if bytes.len() == 0 {
        Ok(acc as u32)
    } else if !is_digit_byte(bytes[0]) {
        Err(ParseUintError::InvalidDigit)
    } else if acc * 10 + digit_val(bytes[0]) > u32::MAX {
        Err(ParseUintError::Overflow)
    } else {
        scan_digits(bytes.drop_first(), acc * 10 + digit_val(bytes[0]))
    }
}

/// The digit part of a token: an optional single leading `+` is
/// allowed before the digits, as in the usual unsigned-integer
/// grammar, and contributes nothing to the value.
pub open spec fn digits_of(bytes: Seq<u8>) -> Seq<u8> {
    if bytes.len() > 0 && bytes[0] == 0x2Bu8 {
        bytes.drop_first()
    } else {
        bytes
    }
}

/// What parsing a whole token yields: the empty token is turned away,
/// a lone `+` has no digit to read, and anything else is the scan of
/// its digit part.
pub open spec fn parse_u32_spec(bytes: Seq<u8>) -> Result<u32, ParseUintError> {
    if bytes.len() == 0 {
        Err(ParseUintError::Empty)
    } else if digits_of(bytes).len() == 0 {
        Err(ParseUintError::InvalidDigit)
    } else {
        scan_digits(digits_of(bytes), 0)
    }
}

/// What reading one token yields: a missing token is a format error,
/// anything else parses the token's bytes.
pub open spec fn get_integer_spec(token: Option<&str>) -> Result<u32, ReadError> {
    match token {
        None => Err(ReadError::ParameterFormatError),
        Some(s) => match parse_u32_spec(s.spec_bytes()) {
            Ok(v) => Ok(v),
            Err(e) => Err(ReadError::IntegerConvertError(e)),
        },
    }
}

/// Reading digits never lowers the running value.
proof fn lemma_decimal_value_acc_grows(bytes: Seq<u8>, acc: int)
    requires
        all_digits(bytes),
        0 <= acc,
    ensures
        decimal_value_acc(bytes, acc) >= acc,
    decreases bytes.len(),
{
    if bytes.len() > 0 {
        assert(all_digits(bytes.drop_first())) by {
            assert(forall|i: int| 0 <= i < bytes.drop_first().len() ==> #[trigger] bytes.drop_first()[i]
                == bytes[i + 1]);
        }
        lemma_decimal_value_acc_grows(bytes.drop_first(), acc * 10 + digit_val(bytes[0]));
    }
}

/// The scan succeeds exactly on all-digit tokens whose value fits, and
/// then yields that value.
proof fn lemma_scan_digits_ok(bytes: Seq<u8>, acc: int)
    requires
        0 <= acc <= u32::MAX,
    ensures
        scan_digits(bytes, acc) is Ok <==> all_digits(bytes) && decimal_value_acc(bytes, acc)
            <= u32::MAX,
        scan_digits(bytes, acc) is Ok ==> scan_digits(bytes, acc)->Ok_0 == decimal_value_acc(
            bytes,
            acc,
        ),
    decreases bytes.len(),
{
    if bytes.len() == 0 {
    } else {
        let rest = bytes.drop_first();
        assert(all_digits(bytes) ==> all_digits(rest) && is_digit_byte(bytes[0])) by {
            assert(forall|i: int| 0 <= i < rest.len() ==> #[trigger] rest[i] == bytes[i + 1]);
        }
        assert(all_digits(rest) && is_digit_byte(bytes[0]) ==> all_digits(bytes)) by {
            if all_digits(rest) && is_digit_byte(bytes[0]) {
                assert forall|i: int| 0 <= i < bytes.len() implies is_digit_byte(
                    #[trigger] bytes[i],
                ) by {
                    if i > 0 {
                        assert(bytes[i] == rest[i - 1]);
                    }
                }
            }
        }
        if is_digit_byte(bytes[0]) {
            let a2 = acc * 10 + digit_val(bytes[0]);
            if a2 > u32::MAX {
                if all_digits(bytes) {
                    lemma_decimal_value_acc_grows(rest, a2);
                }
            } else {
                lemma_scan_digits_ok(rest, a2);
            }
        }
    }
}

/// Reads one whitespace-separated token as a `u32`.  A missing token
/// is a parameter-format error; an empty token, a non-digit character
/// (after at most one leading `+`), or a value above `u32::MAX` is a
/// conversion error, found in exactly that order of scanning.
pub fn get_integer(token: Option<&str>) -> (r: Result<u32, ReadError>)
    ensures
        r == get_integer_spec(token),
        match token {
            None => r == Err::<u32, ReadError>(ReadError::ParameterFormatError),
            Some(s) => {
                &&& (r is Ok <==> digits_of(s.spec_bytes()).len() > 0 && all_digits(
                    digits_of(s.spec_bytes()),
                ) && decimal_value(digits_of(s.spec_bytes())) <= u32::MAX)
                &&& (r is Ok ==> r->Ok_0 == decimal_value(digits_of(s.spec_bytes())))
            },
        },
{
    if token.is_none() {
        return Err(ReadError::ParameterFormatError);
    }
    let s = token.unwrap();

    let bytes = s.as_bytes();
    if bytes.len() == 0 {
        return Err(ReadError::IntegerConvertError(ParseUintError::Empty));
    }

    let start: usize = if bytes[0] == 0x2B {
        1
    } else {
        0
    };
    if start == bytes.len() {
        // A lone sign has no digit to read.
        return Err(ReadError::IntegerConvertError(ParseUintError::InvalidDigit));
    }

    proof {
        lemma_scan_digits_ok(digits_of(s.spec_bytes()), 0);
        assert(bytes@.skip(start as int) =~= digits_of(bytes@));
    }

    let mut acc: u32 = 0;
    let mut i: usize = start;
    while i < bytes.len()
        invariant
            start <= i <= bytes@.len(),
            token == Some(s),
            bytes@ == s.spec_bytes(),
            bytes@.len() > 0,
            digits_of(bytes@).len() > 0,
            scan_digits(digits_of(bytes@), 0) == scan_digits(bytes@.skip(i as int), acc as int),
        decreases bytes@.len() - i,
    {
        let b = bytes[i];
        proof {
            assert(bytes@.skip(i as int)[0] == bytes@[i as int]);
            assert(bytes@.skip(i as int).drop_first() =~= bytes@.skip(i as int + 1));
        }
        if b < 0x30 || b > 0x39 {
            proof {
                lemma_scan_digits_ok(digits_of(s.spec_bytes()), 0);
                assert(!is_digit_byte(bytes@.skip(i as int)[0]));
                assert(scan_digits(bytes@.skip(i as int), acc as int) == Err::<
                    u32,
                    ParseUintError,
                >(ParseUintError::InvalidDigit));
                assert(parse_u32_spec(s.spec_bytes()) == Err::<u32, ParseUintError>(
                    ParseUintError::InvalidDigit,
                ));
                assert(get_integer_spec(token) == Err::<u32, ReadError>(
                    ReadError::IntegerConvertError(ParseUintError::InvalidDigit),
                ));
            }
            return Err(ReadError::IntegerConvertError(ParseUintError::InvalidDigit));
        }
        let wide = (acc as u64) * 10 + (b - 0x30) as u64;
        if wide > u32::MAX as u64 {
            proof {
                lemma_scan_digits_ok(digits_of(s.spec_bytes()), 0);
                assert(scan_digits(bytes@.skip(i as int), acc as int) == Err::<
                    u32,
                    ParseUintError,
                >(ParseUintError::Overflow));
                assert(parse_u32_spec(s.spec_bytes()) == Err::<u32, ParseUintError>(
                    ParseUintError::Overflow,
                ));
                assert(get_integer_spec(token) == Err::<u32, ReadError>(
                    ReadError::IntegerConvertError(ParseUintError::Overflow),
                ));
            }
            return Err(ReadError::IntegerConvertError(ParseUintError::Overflow));
        }
        acc = wide as u32;
        i = i + 1;
    }

    proof {
        assert(bytes@.skip(bytes@.len() as int) =~= Seq::<u8>::empty());
    }
    Ok(acc)
}

} // verus!
