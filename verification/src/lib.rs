//! Conversion between compact duration strings such as `100ms`, `2s`,
//! `5m 30s` or `1h10m` and an exact, nanosecond-resolution duration value.
//!
//! Parsing accepts one or more `number + unit` groups (units `ns`, `us`,
//! `ms`, `s`, `m`, `h`, `d`, `w`, `y`), sums them, and reports malformed
//! input, numeric overflow of a field, or overflow of the total.
//! Formatting picks the largest unit that represents the value with no
//! remainder, so a formatted string re-parses to the identical value.

use vstd::prelude::*;

pub mod chars;
pub mod duration;
pub mod duration_string;
pub mod format;
pub mod laws;
pub mod parse;
pub mod units;

pub use duration::Duration;
pub use duration_string::DurationString;
pub use duration::MAX_DURATION_NANOS;

verus! {

/// Why a numeric field failed to parse as an unsigned 64-bit integer.
#[derive(Copy, Clone, Debug, PartialEq, Eq)]
pub enum IntError {
    /// The field contained no digits at all.
    Empty,
    /// The digits denote a value above `u64::MAX`.
    PosOverflow,
}

/// Why a duration string was rejected.
#[derive(Copy, Clone, Debug, PartialEq, Eq)]
pub enum Error {
    /// The input has no valid `number + unit` decomposition, or names an
    /// unknown unit.
    Format,
    /// A group's converted duration, or the running total, exceeds the
    /// representable range.
    Overflow,
    /// A numeric field is not a valid unsigned 64-bit integer.
    ParseInt(IntError),
}

} // verus!
