//! The unit table: a fixed, ordered mapping from unit suffix to the
//! number of nanoseconds one unit lasts.
//!
//! The table knows `ns`, `us`, `ms`, `s`, `m`, `h`, `d`, `w` and `y`,
//! where a year is the fixed 365.2425-day approximation.

use vstd::prelude::*;

verus! {

/// Nanoseconds in a microsecond.
pub const MICROSECOND_IN_NANOS: u128 = 1_000;

/// Nanoseconds in a millisecond.
pub const MILLISECOND_IN_NANOS: u128 = 1_000_000;

/// Nanoseconds in a second.
pub const SECOND_IN_NANOS: u128 = 1_000_000_000;

/// Nanoseconds in a minute.
pub const MINUTE_IN_NANOS: u128 = 60_000_000_000;

/// Nanoseconds in an hour.
pub const HOUR_IN_NANOS: u128 = 3_600_000_000_000;

/// Nanoseconds in a day.
pub const DAY_IN_NANOS: u128 = 86_400_000_000_000;

/// Nanoseconds in a week.
pub const WEEK_IN_NANOS: u128 = 604_800_000_000_000;

/// Nanoseconds in a year of 365.2425 days.
pub const YEAR_IN_NANOS: u128 = 31_556_926_000_000_000;

/// The conversion factor of a unit suffix, or `None` for text that is not
/// a unit in the table.
pub open spec fn unit_factor(u: Seq<char>) -> Option<int> {
    if u.len() == 2 && u[0] == 'n' && u[1] == 's' {
        Some(1)
    } else if u.len() == 2 && u[0] == 'u' && u[1] == 's' {
        Some(MICROSECOND_IN_NANOS as int)
    } else if u.len() == 2 && u[0] == 'm' && u[1] == 's' {
        Some(MILLISECOND_IN_NANOS as int)
    } else if u.len() == 1 && u[0] == 's' {
        Some(SECOND_IN_NANOS as int)
    } else if u.len() == 1 && u[0] == 'm' {
        Some(MINUTE_IN_NANOS as int)
    } else if u.len() == 1 && u[0] == 'h' {
        Some(HOUR_IN_NANOS as int)
    } else if u.len() == 1 && u[0] == 'd' {
        Some(DAY_IN_NANOS as int)
    } else if u.len() == 1 && u[0] == 'w' {
        Some(WEEK_IN_NANOS as int)
    } else if u.len() == 1 && u[0] == 'y' {
        Some(YEAR_IN_NANOS as int)
    } else {
        None
    }
}

/// Whether `f` is one of the nine conversion factors of the table.
pub open spec fn is_table_factor(f: int) -> bool {
    ||| f == 1
    ||| f == MICROSECOND_IN_NANOS as int
    ||| f == MILLISECOND_IN_NANOS as int
    ||| f == SECOND_IN_NANOS as int
    ||| f == MINUTE_IN_NANOS as int
    ||| f == HOUR_IN_NANOS as int
    ||| f == DAY_IN_NANOS as int
    ||| f == WEEK_IN_NANOS as int
    ||| f == YEAR_IN_NANOS as int
}

/// The suffix the formatter writes for a conversion factor of the table.
pub open spec fn unit_suffix(f: int) -> Seq<char> {
    if f == YEAR_IN_NANOS as int {
        seq!['y']
    } else if f == WEEK_IN_NANOS as int {
        seq!['w']
    } else if f == DAY_IN_NANOS as int {
        seq!['d']
    } else if f == HOUR_IN_NANOS as int {
        seq!['h']
    } else if f == MINUTE_IN_NANOS as int {
        seq!['m']
    } else if f == SECOND_IN_NANOS as int {
        seq!['s']
    } else if f == MILLISECOND_IN_NANOS as int {
        seq!['m', 's']
    } else if f == MICROSECOND_IN_NANOS as int {
        seq!['u', 's']
    } else {
        seq!['n', 's']
    }
}

/// Looking a table factor's suffix up in the table gives that factor
/// back, and the suffix is short, non-empty text with neither digits nor
/// whitespace in it.
pub proof fn lemma_unit_suffix(f: int)
    requires
        is_table_factor(f),
    ensures
        unit_factor(unit_suffix(f)) == Some(f),
        1 <= unit_suffix(f).len() <= 2,
        forall|i: int|
            0 <= i < unit_suffix(f).len() ==> !crate::chars::is_digit(#[trigger] unit_suffix(f)[i])
                && !crate::chars::is_space(unit_suffix(f)[i]),
{
}

/// The conversion factor of a unit suffix, as the parser reads it.
pub fn lookup_unit(u: &Vec<char>) -> (r: Option<u128>)
    ensures
        r is Some <==> unit_factor(u@) is Some,
        r matches Some(f) ==> unit_factor(u@) == Some(f as int) && 1 <= f <= YEAR_IN_NANOS,
{
    if u.len() == 2 {
        let c0 = u[0];
        let c1 = u[1];
        if c1 == 's' {
            if c0 == 'n' {
                Some(1)
            } else if c0 == 'u' {
                Some(MICROSECOND_IN_NANOS)
            } else if c0 == 'm' {
                Some(MILLISECOND_IN_NANOS)
            } else {
                None
            }
        } else {
            None
        }
    } else if u.len() == 1 {
        let c0 = u[0];
        if c0 == 's' {
            Some(SECOND_IN_NANOS)
        } else if c0 == 'm' {
            Some(MINUTE_IN_NANOS)
        } else if c0 == 'h' {
            Some(HOUR_IN_NANOS)
        } else if c0 == 'd' {
            Some(DAY_IN_NANOS)
        } else if c0 == 'w' {
            Some(WEEK_IN_NANOS)
        } else if c0 == 'y' {
            Some(YEAR_IN_NANOS)
        } else {
            None
        }
    } else {
        None
    }
}

} // verus!
