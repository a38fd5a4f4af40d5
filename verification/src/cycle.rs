//! The pacing of a run: which cycle is dispatched next, when at the earliest, and when the
//! run has reached its bound.

use vstd::prelude::*;
use crate::interval::{Interval, TimeSpan};

verus! {

/// The time between two cycles, in nanoseconds, that gives `rate` cycles each second: the
/// whole nanoseconds of that time but at least one, and no cycle at all within reach at a
/// rate of zero.
pub open spec fn period_of_rate(rate: u64) -> u64 {
    if rate == 0 {
        u64::MAX
    } else if rate > 1_000_000_000 {
        1
    } else {
        (1_000_000_000int / rate as int) as u64
    }
}

/// The time between two cycles, in nanoseconds, that gives `rate` cycles each second.
pub fn period_for_rate(rate: u64) -> (period: u64)
    ensures
        period == period_of_rate(rate),
        period >= 1,
{
    if rate == 0 {
        u64::MAX
    } else if rate > 1_000_000_000 {
        1
    } else {
        assert(1_000_000_000int / rate as int >= 1) by (nonlinear_arith)
            requires
                0 < rate <= 1_000_000_000,
        ;
        1_000_000_000 / rate
    }
}

/// `a + b`, or the largest 64-bit number where the sum is above it.
pub open spec fn saturating_sum(a: u64, b: u64) -> u64 {
    if a + b > u64::MAX {
        u64::MAX
    } else {
        (a + b) as u64
    }
}

/// What is observable of a cycle counter.
pub struct CounterView {
    /// The bound of the run.
    pub bound: Interval,
    /// The time between two cycles in each stage of the run, in nanoseconds. Without a
    /// period the cycles are not paced.
    pub periods: Seq<u64>,
    /// When the run started, in nanoseconds on the run's clock.
    pub start: u64,
    /// The number of the next cycle.
    pub next_cycle: u64,
    /// When the next cycle may start at the earliest.
    pub next_start: u64,
}

impl CounterView {
    /// No cycle may start before the run.
    pub open spec fn wf(self) -> bool {
        self.start <= self.next_start
    }

    /// When the next cycle is dispatched if it is asked for at `now`: when it may start,
    /// but not before `now`.
    pub open spec fn dispatch_time(self, now: u64) -> u64 {
        if now > self.next_start {
            now
        } else {
            self.next_start
        }
    }

    /// Whether no further cycle is handed out at `now`: the bound of the run is reached at
    /// the time of dispatch, or the numbers of cycles are used up.
    pub open spec fn reached(self, now: u64) -> bool {
        self.next_cycle == u64::MAX || self.bound.reached(
            self.next_cycle as nat,
            (self.dispatch_time(now) - self.start) as nat,
        )
    }

    /// The stage that the next cycle belongs to. The stages divide the bound of the run in
    /// equal parts: its cycles where it is a number of cycles, its time where it is a span
    /// of time. A run without end stays in the first stage.
    pub open spec fn stage(self) -> int {
        let stages = self.periods.len() as int;
        let part = match self.bound {
            Interval::Count(n) => if n == 0 {
                0
            } else {
                (self.next_cycle * stages) / (n as int)
            },
            Interval::Time(d) => if d.total_nanos() == 0 {
                0
            } else {
                ((self.next_start - self.start) * stages) / (d.total_nanos() as int)
            },
            Interval::Unbounded => 0,
        };
        if part >= stages {
            stages - 1
        } else {
            part
        }
    }

    /// The time from the start of the next cycle to the start of the one after it.
    pub open spec fn period(self) -> u64 {
        if self.periods.len() == 0 {
            0
        } else {
            self.periods[self.stage()]
        }
    }

    /// The counter after it has handed out its next cycle.
    pub open spec fn issued(self) -> CounterView {
        CounterView {
            next_cycle: (self.next_cycle + 1) as u64,
            next_start: saturating_sum(self.next_start, self.period()),
            ..self
        }
    }

    /// What the counter hands out when it is asked at `now`, and the counter after that:
    /// nothing where the bound is reached, else the number of the next cycle and the time
    /// before which it may not start.
    pub open spec fn step(self, now: u64) -> (Option<(u64, u64)>, CounterView) {
        if self.reached(now) {
            (None, self)
        } else {
            (Some((self.next_cycle, self.next_start)), self.issued())
        }
    }

    /// The counter after it has been asked at each of the times `nows`, in that order.
    pub open spec fn after(self, nows: Seq<u64>) -> CounterView
        decreases nows.len(),
    {
        if nows.len() == 0 {
            self
        } else {
            self.after(nows.drop_last()).step(nows.last()).1
        }
    }

    /// What the counter hands out at the last of the times `nows`, after it has been asked
    /// at those before it.
    pub open spec fn answer(self, nows: Seq<u64>) -> Option<(u64, u64)>
        recommends
            nows.len() > 0,
    {
        self.after(nows.drop_last()).step(nows.last()).0
    }

    /// A counter that has handed out nothing yet.
    pub open spec fn fresh(bound: Interval, periods: Seq<u64>, start: u64) -> CounterView {
        CounterView { bound, periods, start, next_cycle: 0, next_start: start }
    }
}

/// The source of the cycles of a run. It hands out the numbers of the cycles one by one,
/// each with the time before which the cycle may not start, until the run has reached its
/// bound.
#[derive(Debug)]
pub struct CycleCounter {
    bound: Interval,
    periods: Vec<u64>,
    start: u64,
    next_cycle: u64,
    next_start: u64,
}

impl View for CycleCounter {
    type V = CounterView;

    closed spec fn view(&self) -> CounterView {
        CounterView {
            bound: self.bound,
            periods: self.periods@,
            start: self.start,
            next_cycle: self.next_cycle,
            next_start: self.next_start,
        }
    }
}

impl CycleCounter {
    #[verifier::type_invariant]
    spec fn inv(self) -> bool {
        self.start <= self.next_start
    }

    /// A counter for a run that starts at `start` with the bound `bound`. The cycles of
    /// stage `i` of the run start `periods[i]` nanoseconds one after another; without a
    /// period they are not paced.
    pub fn new(bound: Interval, periods: Vec<u64>, start: u64) -> (counter: CycleCounter)
        ensures
            counter@ == CounterView::fresh(bound, periods@, start),
            counter@.wf(),
    {
        CycleCounter { bound, periods, start, next_cycle: 0, next_start: start }
    }

    /// The stage that the next cycle belongs to.
    fn stage(&self) -> (stage: usize)
        requires
            self.periods.len() > 0,
        ensures
            stage == self@.stage(),
            stage < self.periods.len(),
    {
        proof {
            use_type_invariant(self);
        }
        let stages = self.periods.len() as u128;
        assert(self.next_cycle * stages <= u64::MAX * u64::MAX) by (nonlinear_arith)
            requires
                self.next_cycle <= u64::MAX,
                stages <= u64::MAX,
        ;
        assert((self.next_start - self.start) * stages <= u64::MAX * u64::MAX)
            by (nonlinear_arith)
            requires
                self.next_start - self.start <= u64::MAX,
                0 <= self.next_start - self.start,
                stages <= u64::MAX,
        ;
        let part: u128 = match self.bound {
            Interval::Count(n) => if n == 0 {
                0
            } else {
                (self.next_cycle as u128 * stages) / (n as u128)
            },
            Interval::Time(d) => {
                let span = d.as_nanos();
                if span == 0 {
                    0
                } else {
                    ((self.next_start - self.start) as u128 * stages) / span
                }
            },
            Interval::Unbounded => 0,
        };
        if part >= stages {
            self.periods.len() - 1
        } else {
            part as usize
        }
    }

    /// Hands out the next cycle: its number, and the time before which it may not start.
    /// Hands out nothing once the run has reached its bound.
    pub fn next(&mut self, now: u64) -> (r: Option<(u64, u64)>)
        ensures
            (r, final(self)@) == old(self)@.step(now),
            final(self)@.wf(),
    {
        proof {
            use_type_invariant(&*self);
        }
        let at = if now > self.next_start {
            now
        } else {
            self.next_start
        };
        if self.next_cycle == u64::MAX || self.bound.is_reached(self.next_cycle, at - self.start) {
            return None;
        }
        let period = if self.periods.len() == 0 {
            0
        } else {
            self.periods[self.stage()]
        };
        let ticket = (self.next_cycle, self.next_start);
        let next_start = self.next_start.saturating_add(period);
        self.next_cycle = self.next_cycle + 1;
        self.next_start = next_start;
        Some(ticket)
    }

    /// The bound of the run.
    pub fn bound(&self) -> (bound: Interval)
        ensures
            bound == self@.bound,
    {
        self.bound
    }
}

/// A counter with one period is always in its first stage.
pub proof fn lemma_single_stage(counter: CounterView)
    requires
        counter.periods.len() == 1,
        counter.wf(),
    ensures
        counter.stage() == 0,
        counter.period() == counter.periods[0],
{
    match counter.bound {
        Interval::Count(n) => {
            if n != 0 {
                assert((counter.next_cycle * 1) / (n as int) >= 0) by (nonlinear_arith)
                    requires
                        counter.next_cycle >= 0,
                        n > 0,
                ;
            }
        },
        Interval::Time(d) => {
            if d.total_nanos() != 0 {
                assert(((counter.next_start - counter.start) * 1) / (d.total_nanos() as int) >= 0)
                    by (nonlinear_arith)
                    requires
                        counter.next_start - counter.start >= 0,
                        d.total_nanos() > 0,
                ;
            }
        },
        Interval::Unbounded => {},
    }
}

/// Where a paced run of `count` cycles stands after it was asked `nows.len()` times: it
/// has handed out one cycle each time until the count was full, each one period after the
/// one before.
proof fn lemma_paced_count_after(count: u64, period: u64, start: u64, nows: Seq<u64>)
    requires
        start + count * period <= u64::MAX,
    ensures
        ({
            let counter = CounterView::fresh(Interval::Count(count), seq![period], start);
            let handed = if nows.len() <= count {
                nows.len()
            } else {
                count as nat
            };
            counter.after(nows) == (CounterView {
                next_cycle: handed as u64,
                next_start: (start + handed * period) as u64,
                ..counter
            })
        }),
    decreases nows.len(),
{
    let counter = CounterView::fresh(Interval::Count(count), seq![period], start);
    if nows.len() > 0 {
        let earlier = nows.drop_last();
        lemma_paced_count_after(count, period, start, earlier);
        let before = counter.after(earlier);
        let handed: nat = if earlier.len() <= count {
            earlier.len()
        } else {
            count as nat
        };
        assert(start + handed * period <= start + count * period) by (nonlinear_arith)
            requires
                handed <= count,
                period >= 0,
        ;
        assert(before.wf());
        lemma_single_stage(before);
        if earlier.len() < count {
            assert(start + (handed + 1) * period <= start + count * period) by (nonlinear_arith)
                requires
                    handed + 1 <= count,
                    period >= 0,
            ;
            assert((handed + 1) * period == handed * period + period) by (nonlinear_arith);
        }
    } else {
        assert(0 * period == 0) by (nonlinear_arith);
    }
}

/// A run that is paced with one period and bounded by a number of cycles hands out
/// exactly that many cycles, numbered from zero without a gap or a repetition, each to
/// start one period after the one before; then it hands out nothing. This holds whenever
/// the counter is asked, as long as the last start is within the range of the clock.
pub proof fn lemma_paced_count(count: u64, period: u64, start: u64, nows: Seq<u64>)
    requires
        nows.len() > 0,
        start + count * period <= u64::MAX,
    ensures
        CounterView::fresh(Interval::Count(count), seq![period], start).answer(nows) == if nows.len()
            <= count {
            Some(((nows.len() - 1) as u64, (start + (nows.len() - 1) * period) as u64))
        } else {
            None
        },
{
    let earlier = nows.drop_last();
    lemma_paced_count_after(count, period, start, earlier);
    let handed: nat = if earlier.len() <= count {
        earlier.len()
    } else {
        count as nat
    };
    assert(start + handed * period <= start + count * period) by (nonlinear_arith)
        requires
            handed <= count,
            period >= 0,
    ;
}

/// Where a run without pacing stands after it was asked `nows.len()` times: no cycle has
/// to wait, and no more cycles are handed out than were asked for.
proof fn lemma_unpaced_after(bound: Interval, start: u64, nows: Seq<u64>)
    ensures
        ({
            let counter = CounterView::fresh(bound, Seq::empty(), start);
            &&& counter.after(nows).next_start == start
            &&& counter.after(nows).next_cycle <= nows.len()
            &&& counter.after(nows).start == start
            &&& counter.after(nows).bound == bound
            &&& counter.after(nows).periods == Seq::<u64>::empty()
        }),
    decreases nows.len(),
{
    if nows.len() > 0 {
        lemma_unpaced_after(bound, start, nows.drop_last());
    }
}

/// A run that is bounded by a span of time and not paced stops handing out cycles once
/// that span has passed since its start, and not before: asked at a time `now` it hands
/// out nothing if and only if `now` is the span or more after the start.
pub proof fn lemma_time_bound(span: TimeSpan, start: u64, nows: Seq<u64>)
    requires
        0 < nows.len() < u64::MAX,
        nows.last() >= start,
    ensures
        CounterView::fresh(Interval::Time(span), Seq::empty(), start).answer(nows) is None <==> nows.last()
            - start >= span.total_nanos(),
{
    lemma_unpaced_after(Interval::Time(span), start, nows.drop_last());
}

/// A counter that hands out nothing at one time hands out nothing at any later time.
pub proof fn lemma_stop_is_final(counter: CounterView, now: u64, later: u64)
    requires
        counter.wf(),
        counter.step(now).0 is None,
        now <= later,
    ensures
        counter.step(now).1 == counter,
        counter.step(later).0 is None,
{
}

/// The numbers and the starts of the cycles never fall as a counter is asked again and
/// again, and the counter stays well formed.
pub proof fn lemma_counter_moves_forward(counter: CounterView, nows: Seq<u64>, k: int)
    requires
        counter.wf(),
        0 <= k <= nows.len(),
    ensures
        counter.after(nows).wf(),
        counter.after(nows.take(k)).next_cycle <= counter.after(nows).next_cycle,
        counter.after(nows.take(k)).next_start <= counter.after(nows).next_start,
    decreases nows.len(),
{
    if k == nows.len() {
        assert(nows.take(k) =~= nows);
        if nows.len() > 0 {
            lemma_counter_moves_forward(counter, nows.drop_last(), 0);
        }
    } else {
        assert(nows.drop_last().take(k) =~= nows.take(k));
        lemma_counter_moves_forward(counter, nows.drop_last(), k);
    }
}

/// No cycle is handed out twice, whoever asks and whenever: of two cycles that a counter
/// hands out, the later one has the greater number, and may not start before the earlier
/// one.
pub proof fn lemma_cycle_numbers_rise(counter: CounterView, nows: Seq<u64>, k: int)
    requires
        counter.wf(),
        0 < k < nows.len(),
        counter.answer(nows.take(k)) is Some,
        counter.answer(nows) is Some,
    ensures
        ({
            let first = counter.answer(nows.take(k))->0;
            let second = counter.answer(nows)->0;
            first.0 < second.0 && first.1 <= second.1
        }),
{
    let earlier = nows.take(k);
    assert(nows.drop_last().take(k) =~= earlier);
    assert(nows.drop_last().take(k - 1) =~= earlier.drop_last());
    lemma_counter_moves_forward(counter, nows.drop_last(), k);
    lemma_counter_moves_forward(counter, nows.drop_last(), k - 1);
    lemma_counter_moves_forward(counter, earlier.drop_last(), 0);
}

} // verus!
