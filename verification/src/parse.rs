//! The parser: duration text to duration value.
//!
//! Parsing first removes all whitespace, then splits the text into
//! `(number, unit)` groups — a new group starts exactly where a digit
//! follows a non-digit — and finally sums the groups' durations with
//! overflow checks.  [`spec_parse`] states the whole of that pipeline;
//! [`parse_chars`] is the executable parser, proved to agree with it.

use crate::chars::{
    all_digits, digits_val, is_digit, is_digit_char, is_space, is_space_char,
    lemma_digits_val_prefix,
};
use crate::duration::{Duration, MAX_DURATION_NANOS};
use crate::units::{lookup_unit, unit_factor, YEAR_IN_NANOS};
use crate::{Error, IntError};
use vstd::prelude::*;

verus! {

/// The input with every whitespace character removed.
pub open spec fn strip(s: Seq<char>) -> Seq<char>
    decreases s.len(),
{
    if s.len() == 0 {
        Seq::empty()
    } else {
        let pre = strip(s.drop_last());
        if is_space(s.last()) {
            pre
        } else {
            pre.push(s.last())
        }
    }
}

/// A group under construction: the digits seen, then the unit text seen.
pub open spec fn empty_group() -> (Seq<char>, Seq<char>) {
    (Seq::empty(), Seq::empty())
}

/// One character added to a group: digits extend the number, everything
/// else extends the unit text.
pub open spec fn group_plus(g: (Seq<char>, Seq<char>), c: char) -> (Seq<char>, Seq<char>) {
    if is_digit(c) {
        (g.0.push(c), g.1)
    } else {
        (g.0, g.1.push(c))
    }
}

/// The `(number, unit)` groups of whitespace-free text.  Scanning starts
/// with a single empty group; a fresh group opens exactly where a digit
/// follows a non-digit.
pub open spec fn groups(t: Seq<char>) -> Seq<(Seq<char>, Seq<char>)>
    decreases t.len(),
{
    if t.len() == 0 {
        seq![empty_group()]
    } else {
        let prev = groups(t.drop_last());
        let c = t.last();
        let cur = if t.len() >= 2 && is_digit(c) && !is_digit(t[t.len() - 2]) {
            prev.push(empty_group())
        } else {
            prev
        };
        cur.update(cur.len() - 1, group_plus(cur.last(), c))
    }
}

/// There is always at least one group, even for empty text.
pub proof fn lemma_groups_len(t: Seq<char>)
    ensures
        groups(t).len() >= 1,
    decreases t.len(),
{
    if t.len() > 0 {
        lemma_groups_len(t.drop_last());
    }
}

/// The number part of every group holds digits only.
pub proof fn lemma_groups_digits(t: Seq<char>)
    ensures
        forall|j: int| 0 <= j < groups(t).len() ==> all_digits(#[trigger] groups(t)[j].0),
    decreases t.len(),
{
    if t.len() > 0 {
        lemma_groups_digits(t.drop_last());
        lemma_groups_len(t.drop_last());
        let prev = groups(t.drop_last());
        let c = t.last();
        let cur = if t.len() >= 2 && is_digit(c) && !is_digit(t[t.len() - 2]) {
            prev.push(empty_group())
        } else {
            prev
        };
        assert(forall|j: int| 0 <= j < cur.len() ==> all_digits(#[trigger] cur[j].0));
        let last = group_plus(cur.last(), c);
        assert(all_digits(last.0)) by {
            if is_digit(c) {
                let d = cur.last().0;
                assert(forall|i: int| 0 <= i < d.len() ==> #[trigger] d.push(c)[i] == d[i]);
                assert(d.push(c)[d.len() as int] == c);
            }
        }
        assert(forall|j: int|
            0 <= j < groups(t).len() ==> all_digits(#[trigger] groups(t)[j].0)) by {
            assert(forall|j: int|
                0 <= j < cur.len() - 1 ==> #[trigger] groups(t)[j] == cur[j]);
            assert(groups(t)[cur.len() - 1] == last);
        }
    }
}

/// A numeric field as an unsigned 64-bit integer: empty fields and values
/// above `u64::MAX` are rejected.
pub open spec fn spec_parse_number(d: Seq<char>) -> Result<int, IntError> {
    if d.len() == 0 {
        Err(IntError::Empty)
    } else if digits_val(d) > u64::MAX {
        Err(IntError::PosOverflow)
    } else {
        Ok(digits_val(d))
    }
}

/// One group's duration in nanoseconds: the number times the unit's
/// factor.  A bad number is an integer-parse error, an unknown unit a
/// format error, and a product beyond the representable range an
/// overflow error.
pub open spec fn group_value(g: (Seq<char>, Seq<char>)) -> Result<int, Error> {
    match spec_parse_number(g.0) {
        Err(e) => Err(Error::ParseInt(e)),
        Ok(n) => match unit_factor(g.1) {
            None => Err(Error::Format),
            Some(f) => if n * f > MAX_DURATION_NANOS as int {
                Err(Error::Overflow)
            } else {
                Ok(n * f)
            },
        },
    }
}

/// The groups summed left to right onto `acc`, stopping at the first
/// failing group or at the first sum beyond the representable range.
pub open spec fn eval_groups(gs: Seq<(Seq<char>, Seq<char>)>, acc: int) -> Result<int, Error>
    decreases gs.len(),
{
    if gs.len() == 0 {
        Ok(acc)
    } else {
        match group_value(gs[0]) {
            Err(e) => Err(e),
            Ok(v) => if acc + v > MAX_DURATION_NANOS as int {
                Err(Error::Overflow)
            } else {
                eval_groups(gs.drop_first(), acc + v)
            },
        }
    }
}

/// What parsing returns: the total of all groups of the
/// whitespace-stripped input, or the first error the scan meets.
pub open spec fn spec_parse(s: Seq<char>) -> Result<int, Error> {
    eval_groups(groups(strip(s)), 0)
}

/// The views of a vector of groups under construction.
pub open spec fn group_views(gs: Seq<(Vec<char>, Vec<char>)>) -> Seq<(Seq<char>, Seq<char>)> {
    Seq::new(gs.len(), |i: int| (gs[i].0@, gs[i].1@))
}

/// The input's characters with all whitespace removed.
fn strip_chars(s: &str) -> (t: Vec<char>)
    ensures
        t@ == strip(s@),
{
    let n = s.unicode_len();
    let mut t: Vec<char> = Vec::new();
    let mut i: usize = 0;
    while i < n
        invariant
            0 <= i <= n,
            n == s@.len(),
            t@ == strip(s@.take(i as int)),
        decreases n - i,
    {
        let c = s.get_char(i);
        proof {
            assert(s@.take(i + 1).drop_last() =~= s@.take(i as int));
            assert(s@.take(i + 1).last() == s@[i as int]);
        }
        if !is_space_char(c) {
            t.push(c);
        }
        i += 1;
    }
    proof {
        assert(s@.take(n as int) =~= s@);
    }
    t
}

/// Whitespace-free text split into its `(number, unit)` groups.
fn split_groups(t: &Vec<char>) -> (gs: Vec<(Vec<char>, Vec<char>)>)
    ensures
        group_views(gs@) == groups(t@),
        gs@.len() >= 1,
{
    let mut gs: Vec<(Vec<char>, Vec<char>)> = Vec::new();
    gs.push((Vec::new(), Vec::new()));
    proof {
        assert(group_views(gs@) =~~= groups(t@.take(0)));
    }
    let mut i: usize = 0;
    while i < t.len()
        invariant
            0 <= i <= t@.len(),
            gs@.len() >= 1,
            group_views(gs@) == groups(t@.take(i as int)),
        decreases t@.len() - i,
    {
        let ghost pre = t@.take(i as int);
        let ghost now = t@.take(i + 1);
        proof {
            assert(now.drop_last() =~= pre);
            assert(now.last() == t@[i as int]);
        }
        let c = t[i];
        let digit = is_digit_char(c);
        if i > 0 && digit && !is_digit_char(t[i - 1]) {
            gs.push((Vec::new(), Vec::new()));
            proof {
                assert(now[now.len() - 2] == t@[i - 1]);
                assert(group_views(gs@) =~~= groups(pre).push(empty_group()));
            }
        } else {
            proof {
                if now.len() >= 2 {
                    assert(now[now.len() - 2] == t@[i - 1]);
                }
            }
        }
        let ghost cur = group_views(gs@);
        let mut last = gs.pop().unwrap();
        if digit {
            last.0.push(c);
        } else {
            last.1.push(c);
        }
        gs.push(last);
        proof {
            assert(group_views(gs@) =~~= cur.update(cur.len() - 1, group_plus(cur.last(), t@[i as int])));
            assert(group_views(gs@) =~~= groups(now));
        }
        i += 1;
    }
    proof {
        assert(t@.take(t@.len() as int) =~= t@);
    }
    gs
}

/// A run of digit characters as an unsigned 64-bit integer.
fn parse_number(digits: &Vec<char>) -> (r: Result<u64, IntError>)
    requires
        all_digits(digits@),
    ensures
        ({
            let s = spec_parse_number(digits@);
            &&& r is Ok <==> s is Ok
            &&& r is Ok ==> r->Ok_0 == s->Ok_0
            &&& r is Err ==> (s matches Err(e) && r->Err_0 == e)
        }),
{
    if digits.len() == 0 {
        return Err(IntError::Empty);
    }
    let mut val: u64 = 0;
    let mut i: usize = 0;
    while i < digits.len()
        invariant
            0 <= i <= digits@.len(),
            all_digits(digits@),
            val == digits_val(digits@.take(i as int)),
        decreases digits@.len() - i,
    {
        let ghost pre = digits@.take(i as int);
        let ghost now = digits@.take(i + 1);
        proof {
            assert(now.drop_last() =~= pre);
            assert(now.last() == digits@[i as int]);
            assert(is_digit(digits@[i as int]));
        }
        let c = digits[i];
        let d = (c as u32 - 48) as u64;
        proof {
            assert(digits_val(now) == val * 10 + d);
            vstd::arithmetic::div_mod::lemma_fundamental_div_mod((u64::MAX - d) as int, 10);
        }
        if val > (u64::MAX - d) / 10 {
            proof {
                assert(digits_val(now) > u64::MAX);
                lemma_digits_val_prefix(digits@, i + 1);
            }
            return Err(IntError::PosOverflow);
        }
        val = val * 10 + d;
        i += 1;
    }
    proof {
        assert(digits@.take(digits@.len() as int) =~= digits@);
    }
    Ok(val)
}

/// The groups' durations summed with overflow checks, left to right.
fn sum_groups(gs: &Vec<(Vec<char>, Vec<char>)>) -> (r: Result<u128, Error>)
    requires
        forall|j: int| 0 <= j < gs@.len() ==> all_digits(#[trigger] gs@[j].0@),
    ensures
        ({
            let s = eval_groups(group_views(gs@), 0);
            &&& r is Ok <==> s is Ok
            &&& r is Ok ==> r->Ok_0 == s->Ok_0 && r->Ok_0 <= MAX_DURATION_NANOS
            &&& r is Err ==> (s matches Err(e) && r->Err_0 == e)
        }),
{
    let ghost all = group_views(gs@);
    proof {
        assert(all.skip(0) =~= all);
    }
    let mut acc: u128 = 0;
    let mut i: usize = 0;
    while i < gs.len()
        invariant
            0 <= i <= gs@.len(),
            all == group_views(gs@),
            forall|j: int| 0 <= j < gs@.len() ==> all_digits(#[trigger] gs@[j].0@),
            acc <= MAX_DURATION_NANOS,
            eval_groups(all.skip(i as int), acc as int) == eval_groups(all, 0),
        decreases gs@.len() - i,
    {
        proof {
            assert(all.skip(i as int)[0] == all[i as int]);
            assert(all.skip(i as int).drop_first() =~= all.skip(i + 1));
        }
        let g = &gs[i];
        let n = match parse_number(&g.0) {
            Ok(n) => n,
            Err(e) => {
                proof {
                    assert(eval_groups(all.skip(i as int), acc as int) == Err::<int, Error>(
                        Error::ParseInt(e),
                    ));
                }
                return Err(Error::ParseInt(e));
            },
        };
        let f = match lookup_unit(&g.1) {
            Some(f) => f,
            None => {
                proof {
                    assert(eval_groups(all.skip(i as int), acc as int) == Err::<int, Error>(
                        Error::Format,
                    ));
                }
                return Err(Error::Format);
            },
        };
        proof {
            vstd::arithmetic::mul::lemma_mul_upper_bound(
                n as int,
                u64::MAX as int,
                f as int,
                YEAR_IN_NANOS as int,
            );
            vstd::arithmetic::mul::lemma_mul_nonnegative(n as int, f as int);
        }
        let v: u128 = n as u128 * f;
        if acc + v > MAX_DURATION_NANOS {
            proof {
                assert(eval_groups(all.skip(i as int), acc as int) == Err::<int, Error>(
                    Error::Overflow,
                ));
            }
            return Err(Error::Overflow);
        }
        acc = acc + v;
        i += 1;
    }
    proof {
        assert(all.skip(gs@.len() as int) =~= Seq::empty());
    }
    Ok(acc)
}

/// The executable parser: text to duration value, or the first error the
/// scan meets, exactly as [`spec_parse`] states.
pub fn parse_chars(s: &str) -> (r: Result<Duration, Error>)
    ensures
        ({
            let p = spec_parse(s@);
            &&& r is Ok <==> p is Ok
            &&& r is Ok ==> r->Ok_0.wf() && r->Ok_0@ == p->Ok_0
            &&& r is Err ==> (p matches Err(e) && r->Err_0 == e)
        }),
{
    let t = strip_chars(s);
    let gs = split_groups(&t);
    proof {
        lemma_groups_digits(t@);
        assert forall|j: int| 0 <= j < gs@.len() implies all_digits(#[trigger] gs@[j].0@) by {
            assert(group_views(gs@).len() == gs@.len());
            assert(group_views(gs@)[j].0 == gs@[j].0@);
            assert(all_digits(groups(t@)[j].0));
        }
    }
    match sum_groups(&gs) {
        Ok(total) => Ok(Duration::from_total_nanos(total)),
        Err(e) => Err(e),
    }
}

} // verus!
