use parse_datetime::error::{FatalError, ParseError, Reason};
use parse_datetime::primitive::Cursor;
use parse_datetime::year;

#[test]
fn test_year() {
    // 2-characters are converted to 19XX/20XX
    let mut c = Cursor::new("10");
    assert_eq!(year::parse(&mut c).unwrap(), 2010u32);
    let mut c = Cursor::new("68");
    assert_eq!(year::parse(&mut c).unwrap(), 2068u32);
    let mut c = Cursor::new("69");
    assert_eq!(year::parse(&mut c).unwrap(), 1969u32);
    let mut c = Cursor::new("99");
    assert_eq!(year::parse(&mut c).unwrap(), 1999u32);

    // 3,4-characters are converted verbatim
    let mut c = Cursor::new("468");
    assert_eq!(year::parse(&mut c).unwrap(), 468u32);
    let mut c = Cursor::new("469");
    assert_eq!(year::parse(&mut c).unwrap(), 469u32);
    let mut c = Cursor::new("1568");
    assert_eq!(year::parse(&mut c).unwrap(), 1568u32);
    let mut c = Cursor::new("1569");
    assert_eq!(year::parse(&mut c).unwrap(), 1569u32);

    // years greater than 9999 are not accepted
    let mut c = Cursor::new("10000");
    assert!(year::parse(&mut c).is_err());
}

#[test]
fn test_year_two_digit_boundaries() {
    assert_eq!(year_of("00"), 2000);
    assert_eq!(year_of("01"), 2001);
    assert_eq!(year_of("68"), 2068);
    assert_eq!(year_of("69"), 1969);
    assert_eq!(year_of("99"), 1999);
}

#[test]
fn test_year_no_adjustment_for_other_lengths() {
    // a zero year is only reachable without the century rule
    assert_eq!(year_of("0"), 0);
    assert_eq!(year_of("000"), 0);
    assert_eq!(year_of("0000"), 0);
    // leading zeros around the two-digit range
    assert_eq!(year_of("098"), 98);
    assert_eq!(year_of("9"), 9);
    assert_eq!(year_of("9999"), 9999);
}

fn year_of(input: &str) -> u32 {
    let mut c = Cursor::new(input);
    year::parse(&mut c).unwrap()
}

#[test]
fn test_year_from_str_matches_parse() {
    assert_eq!(year::year_from_str("00"), Ok(2000));
    assert_eq!(year::year_from_str("68"), Ok(2068));
    assert_eq!(year::year_from_str("69"), Ok(1969));
    assert_eq!(year::year_from_str("468"), Ok(468));
    assert_eq!(year::year_from_str("1568"), Ok(1568));
    assert_eq!(year::year_from_str("0000"), Ok(0));
}

#[test]
fn test_year_from_str_rejects_non_numbers() {
    assert_eq!(year::year_from_str(""), Err(Reason::InvalidNumber));
    assert_eq!(year::year_from_str("abc"), Err(Reason::InvalidNumber));
    assert_eq!(year::year_from_str("12a"), Err(Reason::InvalidNumber));
    // value above what the machine integer holds
    assert_eq!(year::year_from_str("99999999999"), Err(Reason::InvalidNumber));
}

#[test]
fn test_year_from_str_rejects_above_9999() {
    assert_eq!(year::year_from_str("10000"), Err(Reason::YearTooLarge));
    assert_eq!(year::year_from_str("99999"), Err(Reason::YearTooLarge));
}

#[test]
fn test_year_skips_leading_whitespace() {
    let mut c = Cursor::new(" \t99");
    assert_eq!(year::parse(&mut c), Ok(1999));
    assert_eq!(c.pos(), 4);
    let mut c = Cursor::new("   468 rest");
    assert_eq!(year::parse(&mut c), Ok(468));
    assert_eq!(c.pos(), 6);
}

#[test]
fn test_year_non_digit_is_recoverable() {
    let mut c = Cursor::new("abc");
    assert_eq!(year::parse(&mut c), Err(ParseError::Recoverable));
    assert_eq!(c.pos(), 0);
    let mut c = Cursor::new("");
    assert_eq!(year::parse(&mut c), Err(ParseError::Recoverable));
    assert_eq!(c.pos(), 0);
    // the cursor is restored even when whitespace was skipped
    let mut c = Cursor::new("  x12");
    assert_eq!(year::parse(&mut c), Err(ParseError::Recoverable));
    assert_eq!(c.pos(), 0);
}

#[test]
fn test_year_too_large_is_fatal() {
    let mut c = Cursor::new("10000");
    assert_eq!(
        year::parse(&mut c),
        Err(ParseError::Fatal(FatalError {
            reason: Reason::YearTooLarge,
            pos: 0,
        }))
    );
    // the reported position is the start of the token, after whitespace
    let mut c = Cursor::new(" 10000");
    assert_eq!(
        year::parse(&mut c),
        Err(ParseError::Fatal(FatalError {
            reason: Reason::YearTooLarge,
            pos: 1,
        }))
    );
}

#[test]
fn test_year_overflowing_digits_are_fatal() {
    let mut c = Cursor::new("99999999999");
    assert_eq!(
        year::parse(&mut c),
        Err(ParseError::Fatal(FatalError {
            reason: Reason::InvalidNumber,
            pos: 0,
        }))
    );
}

#[test]
fn test_year_consumes_only_the_token() {
    let mut c = Cursor::new("1969-07-20");
    assert_eq!(year::parse(&mut c), Ok(1969));
    assert_eq!(c.pos(), 4);
    assert!(c.eat_char('-'));
}

#[test]
fn test_error_messages() {
    assert_eq!(
        Reason::InvalidNumber.message(),
        "year must be a valid number"
    );
    assert_eq!(
        Reason::YearTooLarge.message(),
        "year must be no greater than 9999"
    );
    assert_eq!(Reason::MalformedOffset.message(), "timezone offset is malformed");
    assert_eq!(
        Reason::OffsetOutOfRange.message(),
        "timezone offset is out of range"
    );
}
