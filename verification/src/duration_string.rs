//! The public wrapper type: a duration that converts to and from its
//! compact text form.
//!
//! A [`DurationString`] is nothing more than a [`Duration`]; wrapping and
//! unwrapping are exact, so no precision is lost on the way through.

use crate::duration::{Duration, MAX_DURATION_NANOS};
use crate::format::{format_duration, spec_format};
use crate::parse::{parse_chars, spec_parse};
use crate::Error;
use core::str::FromStr;
use vstd::prelude::*;

verus! {

/// A duration value that parses from and formats to compact text such as
/// `100ms`, `2s`, `5m 30s` or `1h10m`.
#[derive(Copy, Clone, Debug, PartialEq, Eq, PartialOrd, Ord, Hash)]
pub struct DurationString {
    /// The wrapped duration value.
    pub duration: Duration,
}

impl View for DurationString {
    type V = int;

    /// The total number of nanoseconds the value stands for.
    open spec fn view(&self) -> int {
        self.spec_duration()@
    }
}

impl DurationString {
    /// The wrapped duration.
    pub open spec fn spec_duration(&self) -> Duration {
        self.duration
    }

    /// The wrapped duration is well-formed.
    pub open spec fn wf(&self) -> bool {
        self.spec_duration().wf()
    }

    /// Wraps a duration; the wrapped value is exactly the argument.
    pub fn new(duration: Duration) -> (r: DurationString)
        ensures
            r.spec_duration() == duration,
            r@ == duration@,
    {
        DurationString { duration: duration }
    }

    /// Parses duration text, exactly as [`spec_parse`] states.
    pub fn from_string(duration: String) -> (r: Result<DurationString, Error>)
        ensures
            ({
                let p = spec_parse(duration@);
                &&& r is Ok <==> p is Ok
                &&& r is Ok ==> r->Ok_0.wf() && r->Ok_0@ == p->Ok_0
                &&& r is Err ==> (p matches Err(e) && r->Err_0 == e)
            }),
    {
        DurationString::parse_text(duration.as_str())
    }

    /// Parses duration text, exactly as [`spec_parse`] states.
    pub fn parse_text(s: &str) -> (r: Result<DurationString, Error>)
        ensures
            ({
                let p = spec_parse(s@);
                &&& r is Ok <==> p is Ok
                &&& r is Ok ==> r->Ok_0.wf() && r->Ok_0@ == p->Ok_0
                &&& r is Err ==> (p matches Err(e) && r->Err_0 == e)
            }),
    {
        match parse_chars(s) {
            Ok(d) => Ok(DurationString { duration: d }),
            Err(e) => Err(e),
        }
    }

    /// Unwraps the duration; it is exactly the wrapped value.
    pub fn as_duration(&self) -> (r: Duration)
        ensures
            r == self.spec_duration(),
    {
        self.duration
    }

    /// Formats the duration, exactly as [`spec_format`] states.
    pub fn to_text(&self) -> (s: String)
        requires
            self.wf(),
        ensures
            s@ == spec_format(self@),
    {
        format_duration(&self.duration)
    }

    /// The sum of two durations; the total must fit.
    pub fn add(self, rhs: DurationString) -> (r: DurationString)
        requires
            self.wf(),
            rhs.wf(),
            self@ + rhs@ <= MAX_DURATION_NANOS,
        ensures
            r.wf(),
            r@ == self@ + rhs@,
    {
        DurationString { duration: self.duration.add(rhs.duration) }
    }

    /// The sum of the duration and an unwrapped duration.
    pub fn add_duration(self, rhs: Duration) -> (r: DurationString)
        requires
            self.wf(),
            rhs.wf(),
            self@ + rhs@ <= MAX_DURATION_NANOS,
        ensures
            r.wf(),
            r@ == self@ + rhs@,
    {
        DurationString { duration: self.duration.add(rhs) }
    }

    /// Adds a duration in place; the total must fit.
    pub fn add_assign(&mut self, rhs: DurationString)
        requires
            old(self).wf(),
            rhs.wf(),
            old(self)@ + rhs@ <= MAX_DURATION_NANOS,
        ensures
            final(self).wf(),
            final(self)@ == old(self)@ + rhs@,
    {
        self.duration = self.duration.add(rhs.duration);
    }

    /// The difference of two durations; the subtrahend must not exceed
    /// the minuend.
    pub fn sub(self, rhs: DurationString) -> (r: DurationString)
        requires
            self.wf(),
            rhs.wf(),
            rhs@ <= self@,
        ensures
            r.wf(),
            r@ == self@ - rhs@,
    {
        DurationString { duration: self.duration.sub(rhs.duration) }
    }

    /// The difference of the duration and an unwrapped duration.
    pub fn sub_duration(self, rhs: Duration) -> (r: DurationString)
        requires
            self.wf(),
            rhs.wf(),
            rhs@ <= self@,
        ensures
            r.wf(),
            r@ == self@ - rhs@,
    {
        DurationString { duration: self.duration.sub(rhs) }
    }

    /// Subtracts a duration in place; the subtrahend must not exceed the
    /// minuend.
    pub fn sub_assign(&mut self, rhs: DurationString)
        requires
            old(self).wf(),
            rhs.wf(),
            rhs@ <= old(self)@,
        ensures
            final(self).wf(),
            final(self)@ == old(self)@ - rhs@,
    {
        self.duration = self.duration.sub(rhs.duration);
    }

    /// The duration scaled by an integer; the total must fit.
    pub fn mul(self, rhs: u32) -> (r: DurationString)
        requires
            self.wf(),
            self@ * rhs <= MAX_DURATION_NANOS,
        ensures
            r.wf(),
            r@ == self@ * rhs,
    {
        DurationString { duration: self.duration.mul(rhs) }
    }

    /// Scales the duration in place; the total must fit.
    pub fn mul_assign(&mut self, rhs: u32)
        requires
            old(self).wf(),
            old(self)@ * rhs <= MAX_DURATION_NANOS,
        ensures
            final(self).wf(),
            final(self)@ == old(self)@ * rhs,
    {
        self.duration = self.duration.mul(rhs);
    }

    /// The duration divided by a non-zero integer, rounded toward zero.
    pub fn div(self, rhs: u32) -> (r: DurationString)
        requires
            self.wf(),
            rhs != 0,
        ensures
            r.wf(),
            r@ == self@ / rhs as int,
    {
        DurationString { duration: self.duration.div(rhs) }
    }

    /// Divides the duration in place by a non-zero integer.
    pub fn div_assign(&mut self, rhs: u32)
        requires
            old(self).wf(),
            rhs != 0,
        ensures
            final(self).wf(),
            final(self)@ == old(self)@ / rhs as int,
    {
        self.duration = self.duration.div(rhs);
    }

    /// The sum of a whole sequence of durations; the total must fit.
    pub fn sum(items: &Vec<DurationString>) -> (r: DurationString)
        requires
            forall|j: int| 0 <= j < items@.len() ==> #[trigger] items@[j].wf(),
            sum_views(items@) <= MAX_DURATION_NANOS,
        ensures
            r.wf(),
            r@ == sum_views(items@),
    {
        let mut acc = DurationString { duration: Duration::zero() };
        let mut i: usize = 0;
        proof {
            assert(items@.take(0) =~= Seq::empty());
        }
        while i < items.len()
            invariant
                0 <= i <= items@.len(),
                forall|j: int| 0 <= j < items@.len() ==> #[trigger] items@[j].wf(),
                sum_views(items@) <= MAX_DURATION_NANOS,
                acc.wf(),
                acc@ == sum_views(items@.take(i as int)),
            decreases items@.len() - i,
        {
            proof {
                assert(items@.take(i + 1).drop_last() =~= items@.take(i as int));
                assert(items@.take(i + 1).last() == items@[i as int]);
                lemma_sum_views_prefix(items@, i + 1);
            }
            acc = acc.add(items[i]);
            i += 1;
        }
        proof {
            assert(items@.take(items@.len() as int) =~= items@);
        }
        acc
    }
}

/// The total of a sequence of durations, in nanoseconds.
pub open spec fn sum_views(s: Seq<DurationString>) -> int
    decreases s.len(),
{
    if s.len() == 0 {
        0
    } else {
        sum_views(s.drop_last()) + s.last()@
    }
}

/// Leading durations never sum beyond the whole sequence's total.
pub proof fn lemma_sum_views_prefix(s: Seq<DurationString>, i: int)
    requires
        0 <= i <= s.len(),
    ensures
        sum_views(s.take(i)) <= sum_views(s),
    decreases s.len() - i,
{
    if i == s.len() {
        assert(s.take(i) =~= s);
    } else {
        let t = s.take(i + 1);
        assert(t.drop_last() =~= s.take(i));
        t.last().spec_duration().lemma_view_bounds();
        lemma_sum_views_prefix(s, i + 1);
    }
}

impl FromStr for DurationString {
    type Err = Error;

    /// Parses duration text, as [`DurationString::parse_text`] does.
    fn from_str(s: &str) -> Result<DurationString, Error> {
        DurationString::parse_text(s)
    }
}

impl From<Duration> for DurationString {
    /// Wraps a duration, as [`DurationString::new`] does.
    fn from(duration: Duration) -> (r: DurationString) {
        DurationString { duration: duration }
    }
}

impl vstd::std_specs::convert::FromSpecImpl<Duration> for DurationString {
    open spec fn obeys_from_spec() -> bool {
        true
    }

    open spec fn from_spec(t: Duration) -> DurationString {
        DurationString { duration: t }
    }
}

impl From<DurationString> for Duration {
    /// Unwraps the duration, as [`DurationString::as_duration`] does.
    fn from(value: DurationString) -> (r: Duration) {
        value.duration
    }
}

impl vstd::std_specs::convert::FromSpecImpl<DurationString> for Duration {
    open spec fn obeys_from_spec() -> bool {
        true
    }

    open spec fn from_spec(t: DurationString) -> Duration {
        t.spec_duration()
    }
}

impl Default for DurationString {
    /// The zero-length duration.
    fn default() -> (r: DurationString)
        ensures
            r.wf(),
            r@ == 0,
    {
        DurationString { duration: Duration::zero() }
    }
}

} // verus!
