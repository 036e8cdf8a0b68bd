use parse_datetime::error::{FatalError, ParseError, Reason};
use parse_datetime::primitive::Cursor;
use parse_datetime::time::{self, Offset};
use parse_datetime::timezone;

fn offset(negative: bool, hours: u8, minutes: u8, seconds: u8) -> Offset {
    Offset {
        negative,
        hours,
        minutes,
        seconds,
    }
}

#[test]
fn test_timezone_accepts_offset_forms() {
    let mut c = Cursor::new("+05:30");
    assert_eq!(timezone::parse(&mut c), Ok(offset(false, 5, 30, 0)));
    assert_eq!(c.pos(), 6);

    let mut c = Cursor::new("-07");
    assert_eq!(timezone::parse(&mut c), Ok(offset(true, 7, 0, 0)));
    assert_eq!(c.pos(), 3);

    let mut c = Cursor::new("+5");
    assert_eq!(timezone::parse(&mut c), Ok(offset(false, 5, 0, 0)));
    assert_eq!(c.pos(), 2);

    let mut c = Cursor::new("-00:00");
    assert_eq!(timezone::parse(&mut c), Ok(offset(true, 0, 0, 0)));

    let mut c = Cursor::new("+05:30:15");
    assert_eq!(timezone::parse(&mut c), Ok(offset(false, 5, 30, 15)));
    assert_eq!(c.pos(), 9);
}

#[test]
fn test_timezone_skips_leading_whitespace() {
    let mut c = Cursor::new("  -11:45");
    assert_eq!(timezone::parse(&mut c), Ok(offset(true, 11, 45, 0)));
    assert_eq!(c.pos(), 8);
}

#[test]
fn test_timezone_non_offset_is_recoverable() {
    for input in ["", "abc", "+", "-", "+x", " -:30", "05:30"] {
        let mut c = Cursor::new(input);
        assert_eq!(timezone::parse(&mut c), Err(ParseError::Recoverable));
        assert_eq!(c.pos(), 0);
    }
}

#[test]
fn test_timezone_malformed_is_fatal() {
    for input in ["+055", "+05:3", "+05:307", "+05:30:7", "+05:", "+05:30:123"] {
        let mut c = Cursor::new(input);
        assert_eq!(
            timezone::parse(&mut c),
            Err(ParseError::Fatal(FatalError {
                reason: Reason::MalformedOffset,
                pos: 0,
            })),
            "input {:?}",
            input
        );
    }
}

#[test]
fn test_timezone_out_of_range_is_fatal() {
    for input in ["+25", "-99", "+05:60", "+05:30:99"] {
        let mut c = Cursor::new(input);
        assert_eq!(
            timezone::parse(&mut c),
            Err(ParseError::Fatal(FatalError {
                reason: Reason::OffsetOutOfRange,
                pos: 0,
            })),
            "input {:?}",
            input
        );
    }
    // boundary values stay accepted
    let mut c = Cursor::new("+24");
    assert_eq!(timezone::parse(&mut c), Ok(offset(false, 24, 0, 0)));
    let mut c = Cursor::new("+05:59:59");
    assert_eq!(timezone::parse(&mut c), Ok(offset(false, 5, 59, 59)));
}

#[test]
fn test_timezone_fatal_position_is_token_start() {
    let mut c = Cursor::new("  +99");
    assert_eq!(
        timezone::parse(&mut c),
        Err(ParseError::Fatal(FatalError {
            reason: Reason::OffsetOutOfRange,
            pos: 2,
        }))
    );
}

#[test]
fn test_timezone_adapter_matches_shared_grammar() {
    // every input goes the same way through the timezone element and the
    // shared offset grammar it delegates to
    for input in [
        "+05:30",
        "-07",
        "+5",
        " +05:30:15",
        "",
        "abc",
        "+",
        "+055",
        "+25",
        "+05:60",
    ] {
        let mut through_adapter = Cursor::new(input);
        let mut direct = Cursor::new(input);
        assert_eq!(
            timezone::parse(&mut through_adapter),
            time::timezone(&mut direct),
            "input {:?}",
            input
        );
        assert_eq!(through_adapter.pos(), direct.pos(), "input {:?}", input);
    }
}
