//! The year grammar element.
//!
//! A year token is a run of one or more decimal digits, read after skipping
//! leading whitespace. A two-digit token is century-adjusted: a value of 68
//! or smaller has 2000 added to it, a value in [69, 99] has 1900 added. A
//! token of any other length is taken verbatim, so `"0"`, `"000"` and
//! `"0000"` all mean year 0 while `"00"` means 2000. The digit count of the
//! original token decides, which is why the token is kept as text until the
//! adjustment is applied. A year above 9999 is rejected with a fatal error,
//! capping the accepted range at what the downstream calendar representation
//! supports; a token that does not start with a digit is a recoverable
//! mismatch.

use vstd::prelude::*;

use crate::error::{fatal, FatalError, ParseError, Reason};
use crate::primitive::{
    all_digits, digit_run_len, lemma_seq_to_nat_bound, pow10, seq_to_nat, ws_len, chars_to_u32,
    Cursor,
};

verus! {

/// The year denoted by a digit run, after the two-digit century rule:
/// exactly two digits valuing at most 68 mean that year in the 2000s, two
/// digits valuing 69 through 99 mean it in the 1900s, and any other digit
/// count is read verbatim.
pub open spec fn century_adjusted(digits: Seq<char>) -> nat {
    if digits.len() == 2 {
        if seq_to_nat(digits) <= 68 {
            seq_to_nat(digits) + 2000
        } else {
            seq_to_nat(digits) + 1900
        }
    } else {
        seq_to_nat(digits)
    }
}

/// What reading a year token `digits` yields: the century-adjusted value,
/// or the reason it is rejected. A token that is empty, is not all digits,
/// or overflows the machine integer it is read into is not a valid number;
/// an adjusted value above 9999 is beyond the supported calendar range.
pub open spec fn year_result(digits: Seq<char>) -> Result<u32, Reason> {
    if digits.len() == 0 || !all_digits(digits) || seq_to_nat(digits) > u32::MAX {
        Err(Reason::InvalidNumber)
    } else if century_adjusted(digits) > 9999 {
        Err(Reason::YearTooLarge)
    } else {
        Ok(century_adjusted(digits) as u32)
    }
}

/// The year token at the front of `rem`: the digit run that follows the
/// leading whitespace.
pub open spec fn year_token(rem: Seq<char>) -> Seq<char> {
    let after_ws = rem.skip(ws_len(rem) as int);
    after_ws.take(digit_run_len(after_ws) as int)
}

/// Reads a year from a digit string, applying the two-digit century rule.
///
/// The whole string is the token: it must be one or more decimal digits
/// whose value fits the machine integer it is read into, else the year is
/// not a valid number; and the adjusted value must not exceed 9999.
pub fn year_from_str(year_str: &str) -> (r: Result<u32, Reason>)
    ensures
        r == year_result(year_str@),
{
    let n = year_str.unicode_len();
    let mut digits: Vec<char> = Vec::new();
    let mut i: usize = 0;
    while i < n
        invariant
            i <= n,
            n == year_str@.len(),
            digits@ == year_str@.take(i as int),
        decreases n - i,
    {
        digits.push(year_str.get_char(i));
        proof {
            assert(digits@ =~= year_str@.take(i + 1));
        }
        i += 1;
    }
    proof {
        assert(digits@ =~= year_str@);
    }
    year_from_chars(&digits)
}

/// Reads a year from an already extracted token, applying the two-digit
/// century rule; the shared core behind `year_from_str` and `parse`.
fn year_from_chars(digits: &Vec<char>) -> (r: Result<u32, Reason>)
    ensures
        r == year_result(digits@),
{
    if digits.len() == 0 {
        return Err(Reason::InvalidNumber);
    }
    let mut i: usize = 0;
    while i < digits.len()
        invariant
            i <= digits@.len(),
            forall|j: int| 0 <= j < i ==> crate::primitive::is_digit_char(digits@[j]),
        decreases digits@.len() - i,
    {
        if !crate::primitive::is_digit(digits[i]) {
            assert(!all_digits(digits@));
            return Err(Reason::InvalidNumber);
        }
        i += 1;
    }
    assert(all_digits(digits@));
    match chars_to_u32(digits) {
        None => Err(Reason::InvalidNumber),
        Some(v) => {
            let adjusted: u32 = if digits.len() == 2 {
                proof {
                    lemma_seq_to_nat_bound(digits@);
                    assert(pow10(2) == 100) by {
                        reveal_with_fuel(pow10, 3);
                    }
                }
                if v <= 68 {
                    v + 2000
                } else {
                    v + 1900
                }
            } else {
                v
            };
            if adjusted > 9999 {
                Err(Reason::YearTooLarge)
            } else {
                Ok(adjusted)
            }
        },
    }
}

/// Extracts the raw year token: skips leading whitespace, then consumes a
/// run of one or more decimal digits. An input whose first significant
/// character is not a digit is a recoverable mismatch, and the cursor is
/// restored to where it was.
fn year_str(cur: &mut Cursor) -> (r: Result<Vec<char>, ParseError>)
    requires
        old(cur).wf(),
    ensures
        final(cur).wf(),
        final(cur).text() == old(cur).text(),
        ({
            let rem = old(cur).remaining();
            let w = ws_len(rem);
            let d = digit_run_len(rem.skip(w as int));
            match r {
                Ok(digits) => d > 0 && digits@ == year_token(rem) && final(cur).position()
                    == old(cur).position() + w + d,
                Err(e) => d == 0 && e == ParseError::Recoverable && final(cur).position()
                    == old(cur).position(),
            }
        }),
{
    let start = cur.pos();
    cur.skip_whitespace();
    let digits = cur.take_digits();
    proof {
        crate::primitive::lemma_ws_len_spec(old(cur).remaining());
        crate::primitive::lemma_skip_skip(
            old(cur).text(),
            old(cur).position(),
            ws_len(old(cur).remaining()) as int,
        );
    }
    if digits.len() == 0 {
        cur.reset(start);
        Err(ParseError::Recoverable)
    } else {
        Ok(digits)
    }
}

/// Reads a year grammar element from the cursor.
///
/// Skips leading whitespace, consumes a run of one or more decimal digits,
/// and applies the two-digit century rule. When no digit is present the
/// mismatch is recoverable and the cursor is restored; when the digit run
/// denotes an invalid or out-of-range year the error is fatal and carries
/// the position of the token.
pub fn parse(cur: &mut Cursor) -> (r: Result<u32, ParseError>)
    requires
        old(cur).wf(),
    ensures
        final(cur).wf(),
        final(cur).text() == old(cur).text(),
        ({
            let rem = old(cur).remaining();
            let w = ws_len(rem);
            let d = digit_run_len(rem.skip(w as int));
            if d == 0 {
                r == Err::<u32, ParseError>(ParseError::Recoverable) && final(cur).position()
                    == old(cur).position()
            } else {
                match year_result(year_token(rem)) {
                    Ok(y) => r == Ok::<u32, ParseError>(y) && final(cur).position()
                        == old(cur).position() + w + d,
                    Err(reason) => r == Err::<u32, ParseError>(
                        ParseError::Fatal(
                            (FatalError { reason, pos: (old(cur).position() + w) as usize }),
                        ),
                    ),
                }
            }
        }),
{
    match year_str(cur) {
        Err(e) => Err(e),
        Ok(digits) => {
            match year_from_chars(&digits) {
                Ok(y) => Ok(y),
                Err(reason) => {
                    let p = cur.pos();
                    let tok_start = p - digits.len();
                    Err(fatal(reason, tok_start))
                },
            }
        },
    }
}

/// A two-digit year token is always century-adjusted: a value of at most 68
/// is placed in the 2000s, a value of 69 through 99 in the 1900s.
pub proof fn lemma_two_digit_century(digits: Seq<char>)
    requires
        digits.len() == 2,
        all_digits(digits),
    ensures
        seq_to_nat(digits) <= 68 ==> year_result(digits) == Ok::<u32, Reason>(
            (seq_to_nat(digits) + 2000) as u32,
        ),
        seq_to_nat(digits) > 68 ==> year_result(digits) == Ok::<u32, Reason>(
            (seq_to_nat(digits) + 1900) as u32,
        ),
{
    lemma_seq_to_nat_bound(digits);
    assert(pow10(2) == 100) by {
        reveal_with_fuel(pow10, 3);
    }
}

/// A digit token of any length other than two denotes its value verbatim:
/// no century adjustment is applied, however small the value is.
pub proof fn lemma_verbatim_year(digits: Seq<char>)
    requires
        digits.len() >= 1,
        digits.len() != 2,
        all_digits(digits),
        seq_to_nat(digits) <= 9999,
    ensures
        year_result(digits) == Ok::<u32, Reason>(seq_to_nat(digits) as u32),
{
}

/// A digit token denoting a value above 9999 is always rejected; `parse`
/// turns such a rejection into a fatal error, never a recoverable one.
pub proof fn lemma_year_too_large_rejected(digits: Seq<char>)
    requires
        digits.len() >= 1,
        all_digits(digits),
        seq_to_nat(digits) > 9999,
    ensures
        year_result(digits) is Err,
{
    if digits.len() == 2 {
        lemma_seq_to_nat_bound(digits);
        assert(pow10(2) == 100) by {
            reveal_with_fuel(pow10, 3);
        }
    }
}

/// An input whose first significant character is not a digit has no year
/// token at all; `parse` then reports a recoverable mismatch and leaves the
/// cursor where it was.
pub proof fn lemma_non_digit_recoverable(rem: Seq<char>)
    requires
        ({
            let w = ws_len(rem);
            w == rem.len() || !crate::primitive::is_digit_char(rem[w as int])
        }),
    ensures
        digit_run_len(rem.skip(ws_len(rem) as int)) == 0,
{
    crate::primitive::lemma_ws_len_spec(rem);
    let w = ws_len(rem) as int;
    if w < rem.len() {
        assert(rem.skip(w)[0] == rem[w]);
    }
}

/// Leading whitespace is always skipped and never changes the year token:
/// the token read from `pre + rem`, with `pre` all whitespace, is the token
/// read from `rem`, so the parsed value is unchanged and only the consumed
/// length grows by the length of `pre`.
pub proof fn lemma_whitespace_prefix(pre: Seq<char>, rem: Seq<char>)
    requires
        forall|i: int| 0 <= i < pre.len() ==> crate::primitive::is_space_char(pre[i]),
    ensures
        ws_len(pre + rem) == pre.len() + ws_len(rem),
        (pre + rem).skip(ws_len(pre + rem) as int) == rem.skip(ws_len(rem) as int),
        year_token(pre + rem) == year_token(rem),
    decreases pre.len(),
{
    if pre.len() == 0 {
        assert(pre + rem =~= rem);
    } else {
        let tail = pre.skip(1) + rem;
        assert((pre + rem)[0] == pre[0]);
        assert((pre + rem).skip(1) =~= tail);
        lemma_whitespace_prefix(pre.skip(1), rem);
        crate::primitive::lemma_ws_len_spec(tail);
        crate::primitive::lemma_skip_skip(pre + rem, 1, ws_len(tail) as int);
        assert((pre + rem).skip(ws_len(pre + rem) as int) == tail.skip(ws_len(tail) as int));
    }
}

} // verus!
