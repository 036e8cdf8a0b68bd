//! The two-kind error taxonomy shared by every grammar element.
//!
//! A parser reports either a recoverable mismatch (the token at the cursor
//! does not have the shape this element expects, so the caller may backtrack
//! and try another grammar alternative) or a fatal error (the token was
//! structurally matched but its value is illegal; the caller must not try
//! further alternatives).

use vstd::prelude::*;

verus! {

/// Why a structurally matched token was rejected.
#[derive(Clone, Copy, Debug, PartialEq, Eq, Structural)]
pub enum Reason {
    /// A digit run could not be read as a number (empty, a non-digit, or
    /// a value too large for the machine integer it is read into).
    InvalidNumber,
    /// A year value above the supported calendar range.
    YearTooLarge,
    /// A timezone offset token whose digit groups have the wrong shape.
    MalformedOffset,
    /// A timezone offset whose hours, minutes or seconds are out of range.
    OffsetOutOfRange,
}

impl Reason {
    /// The human-readable text of this reason.
    pub open spec fn message_spec(&self) -> Seq<char> {
        match self {
            Reason::InvalidNumber => "year must be a valid number"@,
            Reason::YearTooLarge => "year must be no greater than 9999"@,
            Reason::MalformedOffset => "timezone offset is malformed"@,
            Reason::OffsetOutOfRange => "timezone offset is out of range"@,
        }
    }

    /// Returns the human-readable text of this reason.
    pub fn message(&self) -> (r: &'static str)
        ensures
            r@ == self.message_spec(),
    {
        match self {
            Reason::InvalidNumber => "year must be a valid number",
            Reason::YearTooLarge => "year must be no greater than 9999",
            Reason::MalformedOffset => "timezone offset is malformed",
            Reason::OffsetOutOfRange => "timezone offset is out of range",
        }
    }
}

/// A non-recoverable failure: the token at `pos` was structurally valid but
/// semantically illegal. It halts the whole parse; no other grammar
/// alternative may be tried after it.
#[derive(Clone, Copy, Debug, PartialEq, Eq, Structural)]
pub struct FatalError {
    /// Why the token was rejected.
    pub reason: Reason,
    /// Character position of the start of the offending token.
    pub pos: usize,
}

/// The result of a failed parse attempt, in the two kinds every grammar
/// element shares.
#[derive(Clone, Copy, Debug, PartialEq, Eq, Structural)]
pub enum ParseError {
    /// The token has the wrong shape for this element; the cursor is left
    /// where it was and another grammar alternative may be tried.
    Recoverable,
    /// The token has the right shape but an illegal value; the whole parse
    /// must stop.
    Fatal(FatalError),
}

/// Wraps a rejection reason into the non-recoverable error kind, attaching
/// the position of the offending token for diagnostics.
pub fn fatal(reason: Reason, pos: usize) -> (e: ParseError)
    ensures
        e == ParseError::Fatal((FatalError { reason, pos })),
{
    ParseError::Fatal(FatalError { reason, pos })
}

} // verus!
