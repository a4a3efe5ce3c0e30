//! The ways in which normalising a set of headers can fail.

use vstd::prelude::*;

verus! {

/// Why a set of headers could not be turned into a rate limit.
#[derive(Clone, Copy, Debug, PartialEq, Eq, Structural)]
pub enum Error {
    /// A non-blank line of raw header text holds no colon.
    MalformedHeader,
    /// No known limit header is present.
    MissingLimit,
    /// Neither a known limit header nor a known used header is present.
    MissingUsed,
    /// No known remaining header is present, or no known reset header.
    MissingRemaining,
    /// A count is not a plain non-negative decimal number that fits the
    /// machine word.
    InvalidCount,
    /// A Unix timestamp lies outside the instants that can be represented.
    InvalidTimestamp,
    /// A date is not a well-formed HTTP date.
    InvalidDate,
}

} // verus!
