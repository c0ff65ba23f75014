// Reading parameter tokens as unsigned integers.

use deroleru::get_integer;
use deroleru::ParseUintError;
use deroleru::ReadError;

#[test]
fn test_get_integer_ok() {
    let mut iter = "2807".split_whitespace();
    assert_eq!(get_integer(iter.next()).unwrap(), 2807)
}

#[test]
fn test_get_integer_ko_0() {
    let mut iter = "ko".split_whitespace();
    let tmp = get_integer(iter.next());
    assert_eq!(tmp.unwrap_err().message(), "invalid digit found in string")
}

#[test]
fn test_get_integer_ko_1() {
    let mut iter = "2807".split_whitespace();
    assert_eq!(get_integer(iter.next()).unwrap(), 2807);
    let _tmp = get_integer(iter.next());
    assert_eq!(
        get_integer(iter.next()).unwrap_err().message(),
        "incorrect parameter format !"
    )
}

#[test]
fn get_integer_rejects_empty_token() {
    let err = get_integer(Some("")).unwrap_err();
    assert_eq!(err, ReadError::IntegerConvertError(ParseUintError::Empty));
    assert_eq!(err.message(), "cannot parse integer from empty string");
}

#[test]
fn get_integer_rejects_overflow() {
    let err = get_integer(Some("4294967296")).unwrap_err();
    assert_eq!(err, ReadError::IntegerConvertError(ParseUintError::Overflow));
    assert_eq!(err.message(), "number too large to fit in target type");

    // The largest representable value still parses.
    assert_eq!(get_integer(Some("4294967295")).unwrap(), u32::MAX);
}

#[test]
fn get_integer_accepts_a_leading_plus_sign() {
    assert_eq!(get_integer(Some("+1")).unwrap(), 1);
    assert_eq!(get_integer(Some("+2807")).unwrap(), 2807);
    assert_eq!(get_integer(Some("+0")).unwrap(), 0);

    // A lone sign has no digit to read, and a second sign is no digit.
    let err = get_integer(Some("+")).unwrap_err();
    assert_eq!(
        err,
        ReadError::IntegerConvertError(ParseUintError::InvalidDigit)
    );
    let err = get_integer(Some("+-1")).unwrap_err();
    assert_eq!(
        err,
        ReadError::IntegerConvertError(ParseUintError::InvalidDigit)
    );
    // A minus sign is never a digit of an unsigned value.
    let err = get_integer(Some("-1")).unwrap_err();
    assert_eq!(
        err,
        ReadError::IntegerConvertError(ParseUintError::InvalidDigit)
    );
}

#[test]
fn get_integer_rejects_missing_token() {
    let err = get_integer(None).unwrap_err();
    assert_eq!(err, ReadError::ParameterFormatError);
}

#[test]
fn get_integer_stops_at_first_problem() {
    // A non-digit before the value overflows: invalid digit wins.
    let err = get_integer(Some("12x4")).unwrap_err();
    assert_eq!(
        err,
        ReadError::IntegerConvertError(ParseUintError::InvalidDigit)
    );

    // The running value overflows before the non-digit is reached.
    let err = get_integer(Some("99999999999x")).unwrap_err();
    assert_eq!(err, ReadError::IntegerConvertError(ParseUintError::Overflow));
}
