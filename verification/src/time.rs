//! The shared fixed-offset grammar.
//!
//! A timezone offset token is a sign followed by hours, optionally minutes
//! and seconds: `+H`, `+HH`, `+HH:MM` or `+HH:MM:SS` (and the same with
//! `-`), read after skipping leading whitespace. This grammar is defined
//! once and reused wherever an offset can appear; the timezone grammar
//! element delegates here. An input with no sign-and-digit prefix is a
//! recoverable mismatch; a token with the right shape but digit groups of
//! the wrong width, or with hours, minutes or seconds out of range, is a
//! fatal error carrying the position of the token.

use vstd::prelude::*;

use crate::error::{fatal, FatalError, ParseError, Reason};
use crate::primitive::{
    all_digits, chars_to_u32, digit_run_len, lemma_seq_to_nat_bound, lemma_skip_skip, pow10,
    seq_to_nat, ws_len, Cursor,
};

verus! {

/// A fixed signed UTC offset: hours and minutes, optionally seconds, away
/// from UTC, towards the west when `negative`.
#[derive(Clone, Copy, Debug, PartialEq, Eq, Structural)]
pub struct Offset {
    /// True for an offset west of UTC (a `-` sign).
    pub negative: bool,
    /// Whole hours of the offset, at most 24.
    pub hours: u8,
    /// Minutes past the hour, at most 59.
    pub minutes: u8,
    /// Seconds past the minute, at most 59.
    pub seconds: u8,
}

impl Offset {
    /// The ranges every parsed offset satisfies.
    pub open spec fn wf(&self) -> bool {
        self.hours <= 24 && self.minutes <= 59 && self.seconds <= 59
    }
}

/// What reading an offset token from `rem` yields, as pure data: the cases
/// the parser's contract distinguishes.
pub enum OffsetOutcome {
    /// No sign-and-digit prefix: a recoverable mismatch, nothing consumed.
    NoMatch,
    /// A token with the right shape but an illegal value: fatal, at the
    /// given character offset within `rem` (the position of the sign).
    Bad { reason: Reason, at: nat },
    /// A valid offset, consuming `used` characters of `rem`.
    Parsed { offset: Offset, used: nat },
}

/// Range-checks the parts of a structurally valid offset token.
pub open spec fn offset_checked(
    negative: bool,
    hours: nat,
    minutes: nat,
    seconds: nat,
    at: nat,
    used: nat,
) -> OffsetOutcome {
    if hours <= 24 && minutes <= 59 && seconds <= 59 {
        OffsetOutcome::Parsed {
            offset: (Offset {
                negative,
                hours: hours as u8,
                minutes: minutes as u8,
                seconds: seconds as u8,
            }),
            used,
        }
    } else {
        OffsetOutcome::Bad { reason: Reason::OffsetOutOfRange, at }
    }
}

/// The offset grammar itself, over the unconsumed input `rem`: skip
/// whitespace; a sign; one or two hour digits; then optionally `:` and
/// exactly two minute digits; then optionally `:` and exactly two second
/// digits. A missing sign or a sign without a digit does not match; more
/// than two hour digits, or a `:` not followed by exactly two digits, is a
/// malformed token.
pub open spec fn offset_outcome(rem: Seq<char>) -> OffsetOutcome {
    let w = ws_len(rem);
    let a = rem.skip(w as int);
    if a.len() == 0 || !(a[0] == '+' || a[0] == '-') {
        OffsetOutcome::NoMatch
    } else {
        let negative = a[0] == '-';
        let b = a.skip(1);
        let hd = digit_run_len(b);
        if hd == 0 {
            OffsetOutcome::NoMatch
        } else if hd > 2 {
            OffsetOutcome::Bad { reason: Reason::MalformedOffset, at: w }
        } else {
            let hours = seq_to_nat(b.take(hd as int));
            let c = b.skip(hd as int);
            if c.len() > 0 && c[0] == ':' {
                let cd = c.skip(1);
                let md = digit_run_len(cd);
                if md != 2 {
                    OffsetOutcome::Bad { reason: Reason::MalformedOffset, at: w }
                } else {
                    let minutes = seq_to_nat(cd.take(2));
                    let e = cd.skip(2);
                    if e.len() > 0 && e[0] == ':' {
                        let ed = e.skip(1);
                        let sd = digit_run_len(ed);
                        if sd != 2 {
                            OffsetOutcome::Bad { reason: Reason::MalformedOffset, at: w }
                        } else {
                            let seconds = seq_to_nat(ed.take(2));
                            offset_checked(negative, hours, minutes, seconds, w, w + hd + 7)
                        }
                    } else {
                        offset_checked(negative, hours, minutes, 0, w, w + hd + 4)
                    }
                }
            } else {
                offset_checked(negative, hours, 0, 0, w, w + hd + 1)
            }
        }
    }
}

/// How a cursor and a result relate to the offset grammar: the one contract
/// shared by the offset parser and the timezone grammar element, so that
/// reaching the grammar through either entry point means exactly the same
/// thing.
pub open spec fn timezone_post(
    prev: Cursor,
    next: Cursor,
    r: Result<Offset, ParseError>,
) -> bool {
    let rem = prev.remaining();
    &&& next.wf()
    &&& next.text() == prev.text()
    &&& match offset_outcome(rem) {
        OffsetOutcome::NoMatch => r == Err::<Offset, ParseError>(ParseError::Recoverable)
            && next.position() == prev.position(),
        OffsetOutcome::Bad { reason, at } => r == Err::<Offset, ParseError>(
            ParseError::Fatal((FatalError { reason, pos: (prev.position() + at) as usize })),
        ),
        OffsetOutcome::Parsed { offset, used } => r == Ok::<Offset, ParseError>(offset)
            && offset.wf() && next.position() == prev.position() + used,
    }
}

/// Reads the value of a digit group of at most two digits.
fn group_value(digits: &Vec<char>) -> (v: u32)
    requires
        all_digits(digits@),
        digits@.len() <= 2,
    ensures
        v == seq_to_nat(digits@),
        v <= 99,
{
    proof {
        lemma_seq_to_nat_bound(digits@);
        assert(pow10(0) == 1 && pow10(1) == 10 && pow10(2) == 100) by {
            reveal_with_fuel(pow10, 3);
        }
    }
    chars_to_u32(digits).unwrap()
}

/// Consumes an offset token from the cursor, per the shared offset grammar.
pub fn timezone(cur: &mut Cursor) -> (r: Result<Offset, ParseError>)
    requires
        old(cur).wf(),
    ensures
        timezone_post(*old(cur), *final(cur), r),
{
    let ghost rem = old(cur).remaining();
    let start = cur.pos();
    cur.skip_whitespace();
    proof {
        crate::primitive::lemma_ws_len_spec(rem);
        lemma_skip_skip(old(cur).text(), old(cur).position(), ws_len(rem) as int);
    }
    let tok_start = cur.pos();
    let negative: bool;
    if cur.eat_char('-') {
        negative = true;
    } else if cur.eat_char('+') {
        negative = false;
    } else {
        cur.reset(start);
        return Err(ParseError::Recoverable);
    }
    proof {
        lemma_skip_skip(old(cur).text(), old(cur).position() + ws_len(rem), 1);
    }
    let hour_digits = cur.take_digits();
    if hour_digits.len() == 0 {
        cur.reset(start);
        return Err(ParseError::Recoverable);
    }
    if hour_digits.len() > 2 {
        return Err(fatal(Reason::MalformedOffset, tok_start));
    }
    let ghost b = rem.skip(ws_len(rem) as int).skip(1);
    let ghost hd = digit_run_len(b);
    let hours = group_value(&hour_digits);
    proof {
        lemma_skip_skip(old(cur).text(), old(cur).position() + ws_len(rem) + 1, hd as int);
    }
    let minutes: u32;
    let seconds: u32;
    if cur.eat_char(':') {
        proof {
            lemma_skip_skip(old(cur).text(), old(cur).position() + ws_len(rem) + 1 + hd, 1);
        }
        let minute_digits = cur.take_digits();
        if minute_digits.len() != 2 {
            return Err(fatal(Reason::MalformedOffset, tok_start));
        }
        minutes = group_value(&minute_digits);
        proof {
            lemma_skip_skip(old(cur).text(), old(cur).position() + ws_len(rem) + 2 + hd, 2);
        }
        if cur.eat_char(':') {
            proof {
                lemma_skip_skip(old(cur).text(), old(cur).position() + ws_len(rem) + 4 + hd, 1);
            }
            let second_digits = cur.take_digits();
            if second_digits.len() != 2 {
                return Err(fatal(Reason::MalformedOffset, tok_start));
            }
            seconds = group_value(&second_digits);
        } else {
            seconds = 0;
        }
    } else {
        minutes = 0;
        seconds = 0;
    }
    if hours > 24 || minutes > 59 || seconds > 59 {
        return Err(fatal(Reason::OffsetOutOfRange, tok_start));
    }
    Ok(Offset { negative, hours: hours as u8, minutes: minutes as u8, seconds: seconds as u8 })
}

} // verus!
