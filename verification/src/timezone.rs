//! The timezone grammar element.
//!
//! A thin adapter: the composer calls this entry point for "timezone"
//! tokens, and it delegates entirely to the shared offset grammar in
//! [`crate::time`], so that offset syntax is defined exactly once and every
//! input is accepted or rejected identically through either entry point.

use vstd::prelude::*;

use crate::error::ParseError;
use crate::primitive::Cursor;
use crate::time::{self, timezone_post, Offset};

verus! {

/// Reads a timezone grammar element from the cursor.
///
/// Delegates to the shared offset grammar and returns its result unchanged:
/// this function's contract is the offset grammar's contract, word for
/// word, so the adapter introduces no behavioral difference.
pub fn parse(cur: &mut Cursor) -> (r: Result<Offset, ParseError>)
    requires
        old(cur).wf(),
    ensures
        timezone_post(*old(cur), *final(cur), r),
{
    time::timezone(cur)
}

} // verus!
