//! What can go wrong while reading a statement.
use vstd::prelude::*;

verus! {

#[derive(Clone, Copy, Debug, PartialEq, Eq, Structural)]
pub enum StatementError {
    /// A matched month/day pair is not a day of the statement year.
    InvalidDateToken,
    /// An amount token is not a non-negative decimal numeral with at most
    /// four fractional digits.
    MalformedAmount,
    /// An amount, or a total built from amounts, does not fit the 128-bit
    /// fixed-point representation.
    AmountOutOfRange,
    /// A dated transaction was found before any page named the statement year.
    UnresolvedYear,
    /// The beginning or the ending balance was never found.
    MissingBalance,
}

} // verus!
