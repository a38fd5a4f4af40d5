//! Bounds on the length of a run and on the period of sampling.

use vstd::prelude::*;
use crate::numeral::{decimal_u64_value, parse_decimal_u64};
use crate::text::chars_of;

verus! {

/// Nanoseconds in one second.
pub const NANOS_PER_SEC: u64 = 1_000_000_000;

/// A span of time: whole seconds and the nanoseconds beyond them.
#[derive(Clone, Copy, Debug, PartialEq, Eq, Structural)]
pub struct TimeSpan {
    pub secs: u64,
    pub nanos: u32,
}

impl TimeSpan {
    /// The span in nanoseconds.
    pub open spec fn total_nanos(self) -> nat {
        (self.secs as nat) * (NANOS_PER_SEC as nat) + (self.nanos as nat)
    }

    /// The span of `nanos` nanoseconds.
    pub fn from_nanos(nanos: u64) -> (span: TimeSpan)
        ensures
            span.total_nanos() == nanos,
            span.nanos < NANOS_PER_SEC,
    {
        TimeSpan { secs: nanos / NANOS_PER_SEC, nanos: (nanos % NANOS_PER_SEC) as u32 }
    }

    /// The span in nanoseconds.
    pub fn as_nanos(&self) -> (n: u128)
        ensures
            n == self.total_nanos(),
    {
        assert((self.secs as nat) * (NANOS_PER_SEC as nat) <= u64::MAX * NANOS_PER_SEC)
            by (nonlinear_arith);
        (self.secs as u128) * (NANOS_PER_SEC as u128) + (self.nanos as u128)
    }

    /// The span in nanoseconds, or the largest 64-bit number where it is longer than that.
    pub fn saturating_nanos(&self) -> (n: u64)
        ensures
            n == if self.total_nanos() <= u64::MAX { self.total_nanos() } else { u64::MAX as nat },
    {
        let n = self.as_nanos();
        if n > u64::MAX as u128 {
            u64::MAX
        } else {
            n as u64
        }
    }

    /// Whether the span is empty.
    pub fn is_zero(&self) -> (r: bool)
        ensures
            r == (self.total_nanos() == 0),
    {
        let n = self.as_nanos();
        n == 0
    }
}

/// How long a run lasts, or how often it is sampled: a number of cycles, a span of time, or
/// without end.
#[derive(Clone, Copy, Debug, PartialEq, Eq, Structural)]
pub enum Interval {
    /// This many cycles.
    Count(u64),
    /// This much time.
    Time(TimeSpan),
    /// Without end.
    Unbounded,
}

impl Interval {
    /// Whether the interval asks for any work at all: it is bounded, and its bound is above
    /// zero.
    pub open spec fn not_zero(self) -> bool {
        match self {
            Interval::Count(n) => n > 0,
            Interval::Time(d) => d.total_nanos() > 0,
            Interval::Unbounded => false,
        }
    }

    /// Whether a run that has produced `cycles` cycles and lasted `elapsed` nanoseconds has
    /// reached the interval. An interval without end is never reached; a count of zero and
    /// an empty span are reached at once.
    pub open spec fn reached(self, cycles: nat, elapsed: nat) -> bool {
        match self {
            Interval::Count(n) => cycles >= n,
            Interval::Time(d) => elapsed >= d.total_nanos(),
            Interval::Unbounded => false,
        }
    }

    /// Whether the interval asks for any work at all. A warm-up of an interval that does
    /// not is left out.
    pub fn is_not_zero(&self) -> (r: bool)
        ensures
            r == self.not_zero(),
    {
        match self {
            Interval::Count(cnt) => *cnt > 0,
            Interval::Time(d) => !d.is_zero(),
            Interval::Unbounded => false,
        }
    }

    /// Whether the interval has an end.
    pub fn is_bounded(&self) -> (r: bool)
        ensures
            r == !(*self is Unbounded),
    {
        match self {
            Interval::Unbounded => false,
            _ => true,
        }
    }

    /// The number of cycles of the interval, where it is a number of cycles.
    pub fn count(&self) -> (r: Option<u64>)
        ensures
            r == match *self {
                Interval::Count(c) => Some(c),
                _ => None::<u64>,
            },
    {
        match self {
            Interval::Count(c) => Some(*c),
            _ => None,
        }
    }

    /// Whether the interval is reached after `cycles` cycles and `elapsed` nanoseconds.
    pub fn is_reached(&self, cycles: u64, elapsed: u64) -> (r: bool)
        ensures
            r == self.reached(cycles as nat, elapsed as nat),
    {
        match self {
            Interval::Count(n) => cycles >= *n,
            Interval::Time(d) => elapsed as u128 >= d.as_nanos(),
            Interval::Unbounded => false,
        }
    }
}

/// The error for a text that is neither a number of cycles nor a span of time.
pub const INVALID_INTERVAL: &'static str = "Required integer number of cycles or time duration";

/// The span of time that `parse_duration::parse` reads from a text, as whole seconds and the
/// nanoseconds beyond them; `None` where it refuses the text.
pub uninterp spec fn parsed_duration(text: Seq<char>) -> Option<(u64, u32)>;

/// How many digits stand in `s` one after another from position `from` on.
pub open spec fn digit_run(s: Seq<char>, from: int) -> nat
    decreases s.len() - from,
{
    if 0 <= from < s.len() && '0' <= s[from] <= '9' {
        1 + digit_run(s, from + 1)
    } else {
        0
    }
}

/// How many digits the power of ten has that `s` may hold at position `i`: those after an
/// `e` there and a sign that may follow it. Zero where there is no `e`.
pub open spec fn exponent_digits(s: Seq<char>, i: int) -> nat {
    if 0 <= i < s.len() && (s[i] == 'e' || s[i] == 'E') {
        if i + 1 < s.len() && (s[i + 1] == '+' || s[i + 1] == '-') {
            digit_run(s, i + 2)
        } else {
            digit_run(s, i + 1)
        }
    } else {
        0
    }
}

/// No power of ten in `s` is written with more than three digits. The work of reading a
/// span of time grows with the power itself, so a text with a longer one is not read.
pub open spec fn exponents_are_short(s: Seq<char>) -> bool {
    forall|i: int| 0 <= i < s.len() ==> #[trigger] exponent_digits(s, i) <= 3
}

/// `parse_duration::parse`, on a text without a long power of ten: the span that the text
/// spells, as whole seconds and nanoseconds.
#[verifier::external_body]
fn read_duration(text: &str) -> (r: Option<(u64, u32)>)
    requires
        exponents_are_short(text@),
    ensures
        r == parsed_duration(text@),
{
    match parse_duration::parse(text) {
        Ok(duration) => Some((duration.as_secs(), duration.subsec_nanos())),
        Err(_) => None,
    }
}

/// How many digits stand in `v` one after another from position `from` on, counted up to
/// four.
fn count_digits(v: &Vec<char>, from: usize) -> (n: usize)
    ensures
        n <= 4,
        n < 4 ==> n == digit_run(v@, from as int),
        n == 4 ==> digit_run(v@, from as int) >= 4,
{
    let mut n: usize = 0;
    while n < 4 && from < v.len() && n < v.len() - from && v[from + n] >= '0' && v[from + n] <= '9'
        invariant
            n <= 4,
            digit_run(v@, from as int) == n + digit_run(v@, from + n),
        decreases 4 - n,
    {
        n = n + 1;
    }
    n
}

/// Whether no power of ten in `v` is written with more than three digits.
pub fn has_short_exponents(v: &Vec<char>) -> (r: bool)
    ensures
        r == exponents_are_short(v@),
{
    let mut i: usize = 0;
    while i < v.len()
        invariant
            i <= v.len(),
            forall|k: int| 0 <= k < i ==> #[trigger] exponent_digits(v@, k) <= 3,
        decreases v.len() - i,
    {
        if v[i] == 'e' || v[i] == 'E' {
            let after = if i + 1 < v.len() && (v[i + 1] == '+' || v[i + 1] == '-') {
                i + 2
            } else {
                i + 1
            };
            if count_digits(v, after) > 3 {
                assert(exponent_digits(v@, i as int) > 3);
                return false;
            }
        }
        i = i + 1;
    }
    true
}

/// The interval that `text` spells: a number of cycles where it is a number in base 10,
/// else the span of time that it spells, if it spells one and holds no long power of ten.
pub open spec fn interval_of(text: Seq<char>) -> Option<Interval> {
    match decimal_u64_value(text) {
        Some(n) => Some(Interval::Count(n as u64)),
        None => if exponents_are_short(text) {
            match parsed_duration(text) {
                Some((secs, nanos)) => Some(Interval::Time(TimeSpan { secs, nanos })),
                None => None,
            }
        } else {
            None
        },
    }
}

impl Interval {
    /// The interval for a text that was read as the number `count`, where it is a number,
    /// and as the span `duration`, where it is a span: the number goes first.
    pub fn from_readings(count: Option<u64>, duration: Option<(u64, u32)>) -> (r: Result<
        Interval,
        String,
    >)
        ensures
            match (count, duration) {
                (Some(n), _) => r == Ok::<Interval, String>(Interval::Count(n)),
                (None, Some((secs, nanos))) => r == Ok::<Interval, String>(
                    Interval::Time(TimeSpan { secs, nanos }),
                ),
                (None, None) => r matches Err(e) && e@ == INVALID_INTERVAL@,
            },
    {
        match count {
            Some(n) => Ok(Interval::Count(n)),
            None => match duration {
                Some((secs, nanos)) => Ok(Interval::Time(TimeSpan { secs, nanos })),
                None => Err(INVALID_INTERVAL.to_owned()),
            },
        }
    }

    /// Reads an interval: a number of cycles such as `1000`, or a span of time such as
    /// `60s`.
    pub fn parse(text: &str) -> (r: Result<Interval, String>)
        ensures
            match interval_of(text@) {
                Some(interval) => r == Ok::<Interval, String>(interval),
                None => r matches Err(e) && e@ == INVALID_INTERVAL@,
            },
    {
        let chars = chars_of(text);
        let count = parse_decimal_u64(&chars);
        let duration = if count.is_none() && has_short_exponents(&chars) {
            read_duration(text)
        } else {
            None
        };
        Interval::from_readings(count, duration)
    }
}

impl std::str::FromStr for Interval {
    type Err = String;

    /// Reads an interval as `Interval::parse` does: a number of cycles where the text is a
    /// number in base 10, else the span of time that it spells, else an error.
    fn from_str(s: &str) -> (r: Result<Self, String>)
        ensures
            match interval_of(s@) {
                Some(interval) => r == Ok::<Interval, String>(interval),
                None => r matches Err(e) && e@ == INVALID_INTERVAL@,
            },
    {
        Interval::parse(s)
    }
}

} // verus!
