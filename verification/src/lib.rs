//! Grammar-element parsers for free-form date/time strings.
//!
//! Each grammar element (year, timezone, ...) reads one token from a shared
//! [`primitive::Cursor`], validates it, and either returns a typed value or
//! reports a failure through the two-kind error taxonomy in [`error`]:
//! a recoverable mismatch (the token has the wrong shape, another grammar
//! alternative may be tried) or a fatal error (the token has the right shape
//! but an illegal value, which must halt the whole parse).

pub mod error;
pub mod primitive;
pub mod time;
pub mod timezone;
pub mod year;
