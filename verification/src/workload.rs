//! The unit of repeatable work, and the statistics that it gathers.

use vstd::prelude::*;
use vstd::multiset::Multiset;
use rand::seq::SliceRandom;
use crate::config::RpcCommand;
use crate::histogram::{saturated, Histogram};
use crate::interval::TimeSpan;

verus! {

/// The latency that is recorded for a span of `nanos` nanoseconds: the span itself, but at
/// least one nanosecond and at most the largest 64-bit number.
pub open spec fn clamped_nanos(nanos: nat) -> u64 {
    if nanos == 0 {
        1
    } else if nanos > u64::MAX {
        u64::MAX
    } else {
        nanos as u64
    }
}

/// The latency that is recorded for `span`.
pub fn clamp_span(span: &TimeSpan) -> (n: u64)
    ensures
        n == clamped_nanos(span.total_nanos()),
{
    let n = span.saturating_nanos();
    if n == 0 {
        1
    } else {
        n
    }
}

/// The statistics of the cycles of a workload: how many were completed, and how long each
/// took.
#[derive(Debug)]
pub struct FnStats {
    /// The number of cycles completed.
    pub workload_count: u64,
    /// The latencies of the cycles completed, in nanoseconds.
    pub workload_times_ns: Histogram,
}

impl FnStats {
    /// The count is the number of latencies recorded.
    pub open spec fn wf(self) -> bool {
        self.workload_count == saturated(self.times().len())
    }

    /// The latencies of the cycles completed, in nanoseconds.
    pub open spec fn times(self) -> Multiset<u64> {
        self.workload_times_ns.samples()
    }

    /// Counts one cycle that took `duration`.
    pub fn operation_completed(&mut self, duration: TimeSpan)
        requires
            old(self).wf(),
        ensures
            final(self).wf(),
            final(self).times() == old(self).times().insert(clamped_nanos(duration.total_nanos())),
    {
        let nanos = clamp_span(&duration);
        self.workload_count = self.workload_count.saturating_add(1);
        self.workload_times_ns.record(nanos);
    }
}

impl Default for FnStats {
    fn default() -> (stats: Self)
        ensures
            stats.wf(),
            stats.times() == Multiset::<u64>::empty(),
    {
        FnStats { workload_count: 0, workload_times_ns: Histogram::new() }
    }
}

impl Clone for FnStats {
    fn clone(&self) -> (stats: Self)
        ensures
            stats.workload_count == self.workload_count,
            stats.times() == self.times(),
    {
        FnStats {
            workload_count: self.workload_count,
            workload_times_ns: self.workload_times_ns.clone(),
        }
    }
}

/// How one call ended: how long it took, and whether it succeeded.
#[derive(Clone, Copy, Debug, PartialEq, Eq, Structural)]
pub struct CallOutcome {
    pub duration: TimeSpan,
    pub ok: bool,
}

/// The statistics of the calls made through one context: how many were made, how many
/// failed, and how long each took.
#[derive(Debug)]
pub struct SessionStats {
    /// The number of calls completed, failed ones among them.
    pub req_count: u64,
    /// The number of calls that failed.
    pub req_error_count: u64,
    /// The latencies of the calls completed, in nanoseconds.
    pub resp_times_ns: Histogram,
}

/// `count` grown by one, which stops at the largest 64-bit number.
pub open spec fn one_more(count: u64) -> u64 {
    if count < u64::MAX {
        (count + 1) as u64
    } else {
        count
    }
}

impl SessionStats {
    /// The count is the number of latencies recorded, and no more calls failed than were
    /// made.
    pub open spec fn wf(self) -> bool {
        &&& self.req_count == saturated(self.times().len())
        &&& self.req_error_count <= self.req_count
    }

    /// The latencies of the calls completed, in nanoseconds.
    pub open spec fn times(self) -> Multiset<u64> {
        self.resp_times_ns.samples()
    }

    /// Statistics of no call at all.
    pub fn new() -> (stats: SessionStats)
        ensures
            stats.wf(),
            stats.times() == Multiset::<u64>::empty(),
            stats.req_error_count == 0,
    {
        SessionStats { req_count: 0, req_error_count: 0, resp_times_ns: Histogram::new() }
    }

    /// Counts one call that took `duration` and succeeded (`ok`) or failed.
    pub fn complete_request(&mut self, duration: TimeSpan, ok: bool)
        requires
            old(self).wf(),
        ensures
            final(self).wf(),
            final(self).times() == old(self).times().insert(clamped_nanos(duration.total_nanos())),
            final(self).req_error_count == if ok {
                old(self).req_error_count
            } else {
                one_more(old(self).req_error_count)
            },
    {
        let nanos = clamp_span(&duration);
        self.resp_times_ns.record(nanos);
        self.req_count = self.req_count.saturating_add(1);
        if !ok {
            self.req_error_count = self.req_error_count.saturating_add(1);
        }
    }
}

impl Clone for SessionStats {
    fn clone(&self) -> (stats: Self)
        ensures
            stats.req_count == self.req_count,
            stats.req_error_count == self.req_error_count,
            stats.times() == self.times(),
    {
        SessionStats {
            req_count: self.req_count,
            req_error_count: self.req_error_count,
            resp_times_ns: self.resp_times_ns.clone(),
        }
    }
}

/// What a workload knows of the session that its calls go through: the statistics of those
/// calls.
#[derive(Debug)]
pub struct Context {
    pub stats: SessionStats,
}

impl Context {
    /// A context that has seen no call.
    pub fn new() -> (context: Context)
        ensures
            context.stats.wf(),
            context.stats.times() == Multiset::<u64>::empty(),
            context.stats.req_error_count == 0,
    {
        Context { stats: SessionStats::new() }
    }

    /// Forgets the calls seen so far.
    pub fn reset_session_stats(&mut self)
        ensures
            final(self).stats.wf(),
            final(self).stats.times() == Multiset::<u64>::empty(),
            final(self).stats.req_error_count == 0,
    {
        self.stats = SessionStats::new();
    }

    /// Hands out the statistics of the calls seen so far, and forgets them.
    pub fn take_session_stats(&mut self) -> (stats: SessionStats)
        ensures
            stats == old(self).stats,
            final(self).stats.wf(),
            final(self).stats.times() == Multiset::<u64>::empty(),
            final(self).stats.req_error_count == 0,
    {
        let mut taken = SessionStats::new();
        std::mem::swap(&mut self.stats, &mut taken);
        taken
    }
}

/// The statistics of one phase of a workload, between `start_time` and `end_time` on the
/// run's clock, in nanoseconds.
#[derive(Debug)]
pub struct WorkloadStats {
    pub start_time: u64,
    pub end_time: u64,
    pub workload_stats: FnStats,
    pub session_stats: SessionStats,
}

/// The part of a workload that changes as it runs.
#[derive(Debug)]
pub struct WorkloadState {
    pub start_time: u64,
    pub fn_stats: FnStats,
}

impl WorkloadState {
    /// A state that starts at `start_time` and has seen no cycle.
    pub fn new(start_time: u64) -> (state: WorkloadState)
        ensures
            state.start_time == start_time,
            state.fn_stats.wf(),
            state.fn_stats.times() == Multiset::<u64>::empty(),
    {
        WorkloadState { start_time, fn_stats: FnStats::default() }
    }
}

/// `Vec::shuffle` of `rand`, with the thread's generator: the vector holds afterwards what
/// it held before, in some order.
#[verifier::external_body]
fn shuffle_all(order: &mut Vec<usize>)
    ensures
        final(order)@.to_multiset() == old(order)@.to_multiset(),
{
    order.shuffle(&mut rand::thread_rng())
}

/// `Vec::choose` of `rand`, with the thread's generator: one of the items, or nothing where
/// there is none.
#[verifier::external_body]
fn pick_one(order: &Vec<usize>) -> (r: Option<usize>)
    ensures
        order@.len() == 0 <==> r is None,
        r matches Some(item) ==> order@.contains(item),
{
    order.choose(&mut rand::thread_rng()).copied()
}

/// The positions `0`, `1`, up to but not including `n`, in order.
pub open spec fn positions(n: nat) -> Seq<usize> {
    Seq::new(n, |i: int| i as usize)
}

/// The positions below `n` in rising order.
pub fn positions_below(n: usize) -> (order: Vec<usize>)
    ensures
        order@ == positions(n as nat),
{
    let mut order: Vec<usize> = Vec::new();
    let mut i: usize = 0;
    while i < n
        invariant
            i <= n,
            order@ == positions(i as nat),
        decreases n - i,
    {
        order.push(i);
        assert(order@ =~= positions((i + 1) as nat));
        i = i + 1;
    }
    order
}

/// Whether `order` is what a workload of `requests` calls may send in one cycle: every call
/// once in a random order where `random` is set; else one call where `choose` is set and
/// there is a call at all; else every call once in the order given.
pub open spec fn is_cycle_order(order: Seq<usize>, requests: nat, random: bool, choose: bool) -> bool {
    if random {
        order.to_multiset() == positions(requests).to_multiset()
    } else if choose {
        if requests == 0 {
            order.len() == 0
        } else {
            order.len() == 1 && order[0] < requests
        }
    } else {
        order == positions(requests)
    }
}

/// What is observable of a workload.
pub struct WorkloadView {
    /// The number of calls of one cycle.
    pub requests: nat,
    /// Whether the calls of a cycle are sent in a random order.
    pub random: bool,
    /// Whether a cycle sends one call, picked at random.
    pub choose: bool,
    /// When the phase started, in nanoseconds on the run's clock.
    pub start_time: u64,
    /// The latencies of the cycles of this phase.
    pub cycle_times: Multiset<u64>,
    /// The latencies of the calls of this phase.
    pub call_times: Multiset<u64>,
    /// The number of calls of this phase that failed.
    pub call_errors: u64,
}

/// What is observable of the statistics of one phase.
pub struct StatsView {
    pub start_time: u64,
    pub end_time: u64,
    pub cycle_times: Multiset<u64>,
    pub call_times: Multiset<u64>,
    pub call_errors: u64,
}

impl WorkloadView {
    /// The workload after one call that ended as `outcome` says.
    pub open spec fn call_completed(self, outcome: CallOutcome) -> WorkloadView {
        WorkloadView {
            call_times: self.call_times.insert(clamped_nanos(outcome.duration.total_nanos())),
            call_errors: if outcome.ok {
                self.call_errors
            } else {
                one_more(self.call_errors)
            },
            ..self
        }
    }

    /// The workload after the calls that ended as `outcomes` say, in that order.
    pub open spec fn calls_completed(self, outcomes: Seq<CallOutcome>) -> WorkloadView
        decreases outcomes.len(),
    {
        if outcomes.len() == 0 {
            self
        } else {
            self.calls_completed(outcomes.drop_last()).call_completed(outcomes.last())
        }
    }

    /// The workload after one cycle that started at `start_time` and ended at `end_time`. A
    /// cycle that ended before it started counts as one of no length.
    pub open spec fn cycle_completed(self, start_time: u64, end_time: u64) -> WorkloadView {
        let elapsed: nat = if end_time >= start_time {
            (end_time - start_time) as nat
        } else {
            0
        };
        WorkloadView { cycle_times: self.cycle_times.insert(clamped_nanos(elapsed)), ..self }
    }

    /// The workload after the cycles whose starts and ends `cycles` holds, in that order.
    pub open spec fn cycles_completed(self, cycles: Seq<(u64, u64)>) -> WorkloadView
        decreases cycles.len(),
    {
        if cycles.len() == 0 {
            self
        } else {
            self.cycles_completed(cycles.drop_last()).cycle_completed(
                cycles.last().0,
                cycles.last().1,
            )
        }
    }

    /// The workload with its counters emptied, at the start of a phase.
    pub open spec fn reset(self, start_time: u64) -> WorkloadView {
        WorkloadView {
            start_time,
            cycle_times: Multiset::empty(),
            call_times: Multiset::empty(),
            call_errors: 0,
            ..self
        }
    }

    /// The statistics of the phase that ends at `end_time`.
    pub open spec fn stats(self, end_time: u64) -> StatsView {
        StatsView {
            start_time: self.start_time,
            end_time,
            cycle_times: self.cycle_times,
            call_times: self.call_times,
            call_errors: self.call_errors,
        }
    }
}

impl WorkloadStats {
    /// The counts are the numbers of latencies recorded.
    pub open spec fn wf(self) -> bool {
        self.workload_stats.wf() && self.session_stats.wf()
    }
}

impl View for WorkloadStats {
    type V = StatsView;

    open spec fn view(&self) -> StatsView {
        StatsView {
            start_time: self.start_time,
            end_time: self.end_time,
            cycle_times: self.workload_stats.times(),
            call_times: self.session_stats.times(),
            call_errors: self.session_stats.req_error_count,
        }
    }
}

/// The unit of repeatable work: a list of calls that one cycle sends, and the statistics of
/// the cycles and calls of the phase that is under way.
#[derive(Debug)]
pub struct Workload {
    context: Context,
    state: WorkloadState,
    requests: usize,
    random: bool,
    choose: bool,
}

impl View for Workload {
    type V = WorkloadView;

    closed spec fn view(&self) -> WorkloadView {
        WorkloadView {
            requests: self.requests as nat,
            random: self.random,
            choose: self.choose,
            start_time: self.state.start_time,
            cycle_times: self.state.fn_stats.times(),
            call_times: self.context.stats.times(),
            call_errors: self.context.stats.req_error_count,
        }
    }
}

impl Workload {
    /// The counts of the workload are the numbers of latencies that it has recorded.
    pub closed spec fn wf(self) -> bool {
        self.context.stats.wf() && self.state.fn_stats.wf()
    }

    /// A workload of `requests` calls in a cycle, with the order of sending that `conf`
    /// asks for. Its phase starts at zero on the run's clock.
    pub fn new(context: Context, requests: usize, conf: &RpcCommand) -> (workload: Workload)
        requires
            context.stats.wf(),
        ensures
            workload.wf(),
            workload@ == (WorkloadView {
                requests: requests as nat,
                random: conf.random,
                choose: conf.choose,
                start_time: 0,
                cycle_times: Multiset::empty(),
                call_times: context.stats.times(),
                call_errors: context.stats.req_error_count,
            }),
    {
        Workload {
            context,
            state: WorkloadState::new(0),
            requests,
            random: conf.random,
            choose: conf.choose,
        }
    }

    /// A workload of the same calls and the same order of sending, with counters of its
    /// own that start empty.
    pub fn clone(&self) -> (workload: Workload)
        ensures
            workload.wf(),
            workload@ == self@.reset(0),
    {
        Workload {
            context: Context::new(),
            state: WorkloadState::new(0),
            requests: self.requests,
            random: self.random,
            choose: self.choose,
        }
    }

    /// The calls that the next cycle sends, as positions in the list of calls, in the
    /// order of sending.
    pub fn cycle_order(&self) -> (order: Vec<usize>)
        ensures
            is_cycle_order(order@, self@.requests, self@.random, self@.choose),
    {
        let mut order = positions_below(self.requests);
        if self.random {
            shuffle_all(&mut order);
            order
        } else if self.choose {
            match pick_one(&order) {
                Some(position) => {
                    let picked: Vec<usize> = vec![position];
                    picked
                },
                None => Vec::new(),
            }
        } else {
            order
        }
    }

    /// Counts the calls of a cycle, which ended as `outcomes` say, in that order.
    pub fn call(&mut self, outcomes: &Vec<CallOutcome>)
        requires
            old(self).wf(),
        ensures
            final(self).wf(),
            final(self)@ == old(self)@.calls_completed(outcomes@),
    {
        let mut i: usize = 0;
        while i < outcomes.len()
            invariant
                i <= outcomes.len(),
                self.wf(),
                self@ == old(self)@.calls_completed(outcomes@.take(i as int)),
            decreases outcomes.len() - i,
        {
            proof {
                assert(outcomes@.take(i + 1).drop_last() =~= outcomes@.take(i as int));
            }
            let outcome = outcomes[i];
            self.context.stats.complete_request(outcome.duration, outcome.ok);
            i = i + 1;
        }
        assert(outcomes@.take(outcomes@.len() as int) =~= outcomes@);
    }

    /// Counts cycle number `cycle`, which started at `start_time` and ended at `end_time`,
    /// and hands back the number and the end.
    pub fn run(&mut self, cycle: u64, start_time: u64, end_time: u64) -> (r: (u64, u64))
        requires
            old(self).wf(),
        ensures
            final(self).wf(),
            r == (cycle, end_time),
            final(self)@ == old(self)@.cycle_completed(start_time, end_time),
    {
        let elapsed = if end_time >= start_time {
            end_time - start_time
        } else {
            0
        };
        self.state.fn_stats.operation_completed(TimeSpan::from_nanos(elapsed));
        (cycle, end_time)
    }

    /// The context of the workload, with the statistics of its calls.
    pub fn context(&self) -> (context: &Context)
        ensures
            self.wf() ==> context.stats.wf(),
            context.stats.times() == self@.call_times,
            context.stats.req_error_count == self@.call_errors,
    {
        &self.context
    }

    /// Starts a phase at `start_time`, with empty counters.
    pub fn reset(&mut self, start_time: u64)
        ensures
            final(self).wf(),
            final(self)@ == old(self)@.reset(start_time),
    {
        self.state = WorkloadState::new(start_time);
        self.context.reset_session_stats();
    }

    /// Ends the phase at `end_time`: hands out its statistics, and starts the next phase
    /// there with empty counters.
    pub fn take_stats(&mut self, end_time: u64) -> (stats: WorkloadStats)
        requires
            old(self).wf(),
        ensures
            final(self).wf(),
            stats.wf(),
            stats@ == old(self)@.stats(end_time),
            final(self)@ == old(self)@.reset(end_time),
    {
        let mut state = WorkloadState::new(end_time);
        std::mem::swap(&mut self.state, &mut state);
        let result = WorkloadStats {
            start_time: state.start_time,
            end_time,
            workload_stats: state.fn_stats,
            session_stats: self.context.take_session_stats(),
        };
        result
    }
}

/// Every cycle that is completed adds one latency to those of the phase, and changes
/// nothing else.
pub proof fn lemma_cycles_are_counted(workload: WorkloadView, cycles: Seq<(u64, u64)>)
    ensures
        workload.cycles_completed(cycles).cycle_times.len() == workload.cycle_times.len()
            + cycles.len(),
        workload.cycles_completed(cycles).start_time == workload.start_time,
        workload.cycles_completed(cycles).call_times == workload.call_times,
        workload.cycles_completed(cycles).call_errors == workload.call_errors,
    decreases cycles.len(),
{
    if cycles.len() > 0 {
        lemma_cycles_are_counted(workload, cycles.drop_last());
    }
}

/// A reset discards what was counted before it: statistics that are taken right after a
/// reset report no cycle and no call, whatever the workload had counted.
pub proof fn lemma_reset_discards(workload: WorkloadView, start_time: u64, end_time: u64)
    ensures
        workload.reset(start_time).stats(end_time).cycle_times.len() == 0,
        workload.reset(start_time).stats(end_time).call_times.len() == 0,
        workload.reset(start_time).stats(end_time).call_errors == 0,
        workload.reset(start_time).stats(end_time).start_time == start_time,
        workload.reset(start_time).stats(end_time).end_time == end_time,
{
}

/// The statistics of a phase report exactly the cycles completed since the reset that
/// started it, between the time of that reset and the time they are taken at; and taking
/// them leaves counters that start empty at that time.
pub proof fn lemma_stats_report_the_phase(
    workload: WorkloadView,
    start_time: u64,
    cycles: Seq<(u64, u64)>,
    end_time: u64,
)
    ensures
        ({
            let phase = workload.reset(start_time).cycles_completed(cycles);
            &&& phase.stats(end_time).cycle_times.len() == cycles.len()
            &&& phase.stats(end_time).start_time == start_time
            &&& phase.stats(end_time).end_time == end_time
            &&& phase.reset(end_time).cycle_times.len() == 0
            &&& phase.reset(end_time).start_time == end_time
        }),
{
    lemma_cycles_are_counted(workload.reset(start_time), cycles);
}

} // verus!
