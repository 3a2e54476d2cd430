//! The laws that tie the parser and the formatter together.
//!
//! The central result: text the formatter produces always parses back to
//! the identical duration value, so formatting is exact and canonical.

use crate::chars::{all_digits, dec_digits, digits_val, is_digit, is_space, lemma_dec_digits};
use crate::duration::MAX_DURATION_NANOS;
use crate::duration_string::DurationString;
use crate::format::{chosen_factor, fmt_quotient, spec_format};
use crate::parse::{
    empty_group, eval_groups, group_plus, group_value, groups, spec_parse, spec_parse_number,
    strip,
};
use crate::units::{is_table_factor, lemma_unit_suffix, unit_factor, unit_suffix};
use crate::{Error, IntError};
use vstd::arithmetic::div_mod::{
    lemma_div_nonincreasing, lemma_div_pos_is_pos, lemma_fundamental_div_mod,
    lemma_mod_division_less_than_divisor,
};
use vstd::prelude::*;

verus! {

/// Stripping whitespace from text that has none leaves it unchanged.
pub proof fn lemma_strip_id(s: Seq<char>)
    requires
        forall|i: int| 0 <= i < s.len() ==> !is_space(#[trigger] s[i]),
    ensures
        strip(s) == s,
    decreases s.len(),
{
    if s.len() > 0 {
        assert(forall|i: int|
            0 <= i < s.drop_last().len() ==> #[trigger] s.drop_last()[i] == s[i]);
        lemma_strip_id(s.drop_last());
        assert(strip(s) =~= s.drop_last().push(s.last()));
        assert(s.drop_last().push(s.last()) =~= s);
    }
}

/// Digits-only text forms a single group whose unit part is empty.
pub proof fn lemma_groups_of_digits(d: Seq<char>)
    requires
        all_digits(d),
        d.len() >= 1,
    ensures
        groups(d) == seq![(d, Seq::<char>::empty())],
    decreases d.len(),
{
    let c = d.last();
    assert(is_digit(c));
    if d.len() == 1 {
        assert(d.drop_last() =~= Seq::<char>::empty());
        let prev = groups(d.drop_last());
        assert(prev == seq![empty_group()]);
        assert(group_plus(empty_group(), c).0 =~= seq![c]);
        assert(d =~= seq![c]);
        assert(groups(d) =~~= seq![(d, Seq::<char>::empty())]);
    } else {
        assert(forall|i: int|
            0 <= i < d.drop_last().len() ==> #[trigger] d.drop_last()[i] == d[i]);
        lemma_groups_of_digits(d.drop_last());
        let prev = groups(d.drop_last());
        assert(is_digit(d[d.len() - 2]));
        assert(prev.last() == (d.drop_last(), Seq::<char>::empty()));
        assert(group_plus(prev.last(), c).0 == d.drop_last().push(c));
        assert(d.drop_last().push(c) =~= d);
        assert(groups(d) =~~= seq![(d, Seq::<char>::empty())]);
    }
}

/// A run of digits followed by unit text forms exactly one group.
pub proof fn lemma_single_group(d: Seq<char>, u: Seq<char>)
    requires
        all_digits(d),
        d.len() >= 1,
        forall|i: int| 0 <= i < u.len() ==> !is_digit(#[trigger] u[i]),
    ensures
        groups(d + u) == seq![(d, u)],
    decreases u.len(),
{
    if u.len() == 0 {
        assert(d + u =~= d);
        lemma_groups_of_digits(d);
        assert(u =~= Seq::<char>::empty());
        assert(groups(d + u) =~~= seq![(d, u)]);
    } else {
        assert(forall|i: int|
            0 <= i < u.drop_last().len() ==> #[trigger] u.drop_last()[i] == u[i]);
        lemma_single_group(d, u.drop_last());
        let t = d + u;
        assert(t.drop_last() =~= d + u.drop_last());
        let c = t.last();
        assert(c == u[u.len() - 1]);
        assert(!is_digit(c));
        let prev = groups(t.drop_last());
        assert(prev == seq![(d, u.drop_last())]);
        assert(prev.last() == (d, u.drop_last()));
        assert(group_plus(prev.last(), c).1 == u.drop_last().push(c));
        assert(u.drop_last().push(c) =~= u);
        assert(groups(t) =~~= seq![(d, u)]);
    }
}

/// The factor the formatter picks is in the table, divides the value
/// exactly, and multiplied back by the quotient restores the value.
pub proof fn lemma_chosen_factor(n: int)
    requires
        0 <= n,
    ensures
        is_table_factor(chosen_factor(n)),
        n % chosen_factor(n) == 0,
        fmt_quotient(n) * chosen_factor(n) == n,
        0 <= fmt_quotient(n) <= n,
{
    let f = chosen_factor(n);
    if f == 1 {
        lemma_fundamental_div_mod(n, 1);
        lemma_mod_division_less_than_divisor(n, 1);
    }
    lemma_fundamental_div_mod(n, f);
    lemma_div_pos_is_pos(n, f);
    lemma_div_nonincreasing(n, f);
    vstd::arithmetic::mul::lemma_mul_is_commutative(fmt_quotient(n), f);
}

/// Round-trip exactness at the level of nanosecond counts: formatted
/// text parses back to the value it was formatted from, whenever the
/// written quotient fits the parser's 64-bit numeric fields.
pub proof fn lemma_parse_of_format(n: int)
    requires
        0 <= n <= MAX_DURATION_NANOS as int,
        fmt_quotient(n) <= u64::MAX as int,
    ensures
        spec_parse(spec_format(n)) == Ok::<int, Error>(n),
{
    let f = chosen_factor(n);
    let q = fmt_quotient(n);
    lemma_chosen_factor(n);
    lemma_dec_digits(q);
    lemma_unit_suffix(f);
    let d = dec_digits(q);
    let u = unit_suffix(f);
    let t = d + u;
    assert(forall|i: int| 0 <= i < t.len() ==> !is_space(#[trigger] t[i])) by {
        assert(forall|i: int| 0 <= i < d.len() ==> #[trigger] t[i] == d[i]);
        assert(forall|i: int|
            d.len() <= i < t.len() ==> #[trigger] t[i] == u[i - d.len()]);
    }
    lemma_strip_id(t);
    assert(forall|i: int| 0 <= i < u.len() ==> !is_digit(#[trigger] u[i]));
    lemma_single_group(d, u);
    assert(spec_parse_number(d) == Ok::<int, IntError>(q));
    assert(unit_factor(u) == Some(f));
    assert(q * f == n);
    assert(group_value((d, u)) == Ok::<int, Error>(n));
    let gs = seq![(d, u)];
    assert(gs.drop_first() =~= Seq::<(Seq<char>, Seq<char>)>::empty());
    assert(eval_groups(gs.drop_first(), n) == Ok::<int, Error>(n));
    assert(eval_groups(gs, 0) == Ok::<int, Error>(n));
}

/// Round-trip exactness: any duration value whose formatted quotient
/// fits an unsigned 64-bit integer parses back from its formatted text
/// to the identical value.
///
/// The proviso excludes exactly the values whose text the parser cannot
/// read back: a quotient above `u64::MAX` (possible only for the `ns`,
/// `us` and `ms` units, e.g. `u64::MAX` seconds plus one nanosecond)
/// formats fine but overflows the parser's 64-bit numeric field.
pub proof fn lemma_round_trip(v: DurationString)
    requires
        v.wf(),
        fmt_quotient(v@) <= u64::MAX as int,
    ensures
        spec_parse(spec_format(v@)) == Ok::<int, Error>(v@),
{
    v.spec_duration().lemma_view_bounds();
    lemma_parse_of_format(v@);
}

/// Canonical-form idempotence: re-parsing formatted text and formatting
/// again reproduces the same text.
pub proof fn lemma_format_idempotent(v: DurationString)
    requires
        v.wf(),
        fmt_quotient(v@) <= u64::MAX as int,
    ensures
        ({
            let t = spec_format(v@);
            &&& spec_parse(t) is Ok
            &&& spec_format(spec_parse(t)->Ok_0) == t
        }),
{
    lemma_round_trip(v);
}

/// Largest-unit selection: the formatter's factor is at least as coarse
/// as every factor of the table that divides the value exactly.
pub proof fn lemma_largest_unit(n: int, f: int)
    requires
        0 <= n,
        is_table_factor(f),
        n % f == 0,
    ensures
        is_table_factor(chosen_factor(n)),
        n % chosen_factor(n) == 0,
        f <= chosen_factor(n),
{
    lemma_chosen_factor(n);
}

/// Whitespace tolerance: inputs that agree after whitespace removal
/// parse to the same result.
pub proof fn lemma_whitespace_insensitive(a: Seq<char>, b: Seq<char>)
    requires
        strip(a) == strip(b),
    ensures
        spec_parse(a) == spec_parse(b),
{
}

} // verus!
