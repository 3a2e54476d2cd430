//! The formatter: duration value to duration text.
//!
//! Formatting scans the unit table from the largest unit down and writes
//! the value in the first unit that divides it with no remainder, so the
//! text is always exact; the nanosecond unit always matches, so
//! formatting never fails.

use crate::chars::{dec_digits, digit_char};
use crate::duration::Duration;
use crate::units::{
    unit_suffix, DAY_IN_NANOS, HOUR_IN_NANOS, MICROSECOND_IN_NANOS, MILLISECOND_IN_NANOS,
    MINUTE_IN_NANOS, SECOND_IN_NANOS, WEEK_IN_NANOS, YEAR_IN_NANOS,
};
use vstd::prelude::*;
use vstd::string::StringExecFns;

verus! {

/// The largest conversion factor of the table that divides `n` with no
/// remainder; one nanosecond divides everything, so the scan always ends.
pub open spec fn chosen_factor(n: int) -> int {
    if n % (YEAR_IN_NANOS as int) == 0 {
        YEAR_IN_NANOS as int
    } else if n % (WEEK_IN_NANOS as int) == 0 {
        WEEK_IN_NANOS as int
    } else if n % (DAY_IN_NANOS as int) == 0 {
        DAY_IN_NANOS as int
    } else if n % (HOUR_IN_NANOS as int) == 0 {
        HOUR_IN_NANOS as int
    } else if n % (MINUTE_IN_NANOS as int) == 0 {
        MINUTE_IN_NANOS as int
    } else if n % (SECOND_IN_NANOS as int) == 0 {
        SECOND_IN_NANOS as int
    } else if n % (MILLISECOND_IN_NANOS as int) == 0 {
        MILLISECOND_IN_NANOS as int
    } else if n % (MICROSECOND_IN_NANOS as int) == 0 {
        MICROSECOND_IN_NANOS as int
    } else {
        1
    }
}

/// The number written in front of the unit suffix: the value divided by
/// its chosen factor.
pub open spec fn fmt_quotient(n: int) -> int {
    n / chosen_factor(n)
}

/// What formatting returns: the quotient in decimal, then the chosen
/// unit's suffix.
pub open spec fn spec_format(n: int) -> Seq<char> {
    dec_digits(fmt_quotient(n)) + unit_suffix(chosen_factor(n))
}

/// The one-character text of a decimal digit.
fn digit_str(d: u8) -> (s: &'static str)
    requires
        d <= 9,
    ensures
        s@ == seq![digit_char(d as int)],
{
    if d == 0 {
        proof {
            reveal_strlit("0");
            assert("0"@ =~= seq![digit_char(0)]);
        }
        "0"
    } else if d == 1 {
        proof {
            reveal_strlit("1");
            assert("1"@ =~= seq![digit_char(1)]);
        }
        "1"
    } else if d == 2 {
        proof {
            reveal_strlit("2");
            assert("2"@ =~= seq![digit_char(2)]);
        }
        "2"
    } else if d == 3 {
        proof {
            reveal_strlit("3");
            assert("3"@ =~= seq![digit_char(3)]);
        }
        "3"
    } else if d == 4 {
        proof {
            reveal_strlit("4");
            assert("4"@ =~= seq![digit_char(4)]);
        }
        "4"
    } else if d == 5 {
        proof {
            reveal_strlit("5");
            assert("5"@ =~= seq![digit_char(5)]);
        }
        "5"
    } else if d == 6 {
        proof {
            reveal_strlit("6");
            assert("6"@ =~= seq![digit_char(6)]);
        }
        "6"
    } else if d == 7 {
        proof {
            reveal_strlit("7");
            assert("7"@ =~= seq![digit_char(7)]);
        }
        "7"
    } else if d == 8 {
        proof {
            reveal_strlit("8");
            assert("8"@ =~= seq![digit_char(8)]);
        }
        "8"
    } else {
        proof {
            reveal_strlit("9");
            assert("9"@ =~= seq![digit_char(9)]);
        }
        "9"
    }
}

/// The decimal text of a number, most significant digit first.
fn u128_to_dec(q: u128) -> (s: String)
    ensures
        s@ == dec_digits(q as int),
    decreases q,
{
    if q <= 9 {
        let s = digit_str(q as u8).to_owned();
        proof {
            assert(s@ =~= dec_digits(q as int));
        }
        s
    } else {
        let mut s = u128_to_dec(q / 10);
        let d = (q % 10) as u8;
        s.append(digit_str(d));
        proof {
            assert(dec_digits(q as int / 10).push(digit_char(q as int % 10)) =~= dec_digits(
                q as int / 10,
            ) + seq![digit_char(q as int % 10)]);
            assert(s@ =~= dec_digits(q as int));
        }
        s
    }
}

/// The executable formatter: the most compact exact text of a duration,
/// exactly as [`spec_format`] states.
pub fn format_duration(d: &Duration) -> (s: String)
    requires
        d.wf(),
    ensures
        s@ == spec_format(d@),
{
    let ns = d.as_nanos();
    if ns % YEAR_IN_NANOS == 0 {
        let mut out = u128_to_dec(ns / YEAR_IN_NANOS);
        out.append("y");
        proof {
            reveal_strlit("y");
            assert("y"@ =~= unit_suffix(YEAR_IN_NANOS as int));
        }
        out
    } else if ns % WEEK_IN_NANOS == 0 {
        let mut out = u128_to_dec(ns / WEEK_IN_NANOS);
        out.append("w");
        proof {
            reveal_strlit("w");
            assert("w"@ =~= unit_suffix(WEEK_IN_NANOS as int));
        }
        out
    } else if ns % DAY_IN_NANOS == 0 {
        let mut out = u128_to_dec(ns / DAY_IN_NANOS);
        out.append("d");
        proof {
            reveal_strlit("d");
            assert("d"@ =~= unit_suffix(DAY_IN_NANOS as int));
        }
        out
    } else if ns % HOUR_IN_NANOS == 0 {
        let mut out = u128_to_dec(ns / HOUR_IN_NANOS);
        out.append("h");
        proof {
            reveal_strlit("h");
            assert("h"@ =~= unit_suffix(HOUR_IN_NANOS as int));
        }
        out
    } else if ns % MINUTE_IN_NANOS == 0 {
        let mut out = u128_to_dec(ns / MINUTE_IN_NANOS);
        out.append("m");
        proof {
            reveal_strlit("m");
            assert("m"@ =~= unit_suffix(MINUTE_IN_NANOS as int));
        }
        out
    } else if ns % SECOND_IN_NANOS == 0 {
        let mut out = u128_to_dec(ns / SECOND_IN_NANOS);
        out.append("s");
        proof {
            reveal_strlit("s");
            assert("s"@ =~= unit_suffix(SECOND_IN_NANOS as int));
        }
        out
    } else if ns % MILLISECOND_IN_NANOS == 0 {
        let mut out = u128_to_dec(ns / MILLISECOND_IN_NANOS);
        out.append("ms");
        proof {
            reveal_strlit("ms");
            assert("ms"@ =~= unit_suffix(MILLISECOND_IN_NANOS as int));
        }
        out
    } else if ns % MICROSECOND_IN_NANOS == 0 {
        let mut out = u128_to_dec(ns / MICROSECOND_IN_NANOS);
        out.append("us");
        proof {
            reveal_strlit("us");
            assert("us"@ =~= unit_suffix(MICROSECOND_IN_NANOS as int));
        }
        out
    } else {
        let mut out = u128_to_dec(ns);
        out.append("ns");
        proof {
            reveal_strlit("ns");
            assert("ns"@ =~= unit_suffix(1));
            assert(ns as int / 1 == ns as int) by {
                vstd::arithmetic::div_mod::lemma_div_by_self(1);
                vstd::arithmetic::div_mod::lemma_fundamental_div_mod(ns as int, 1);
            }
        }
        out
    }
}

} // verus!
