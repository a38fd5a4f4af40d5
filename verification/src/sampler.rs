//! The time series of a run: at every tick of the sampling period the statistics of the
//! window that ends there are taken from the workload and appended to the series.

use vstd::prelude::*;
use vstd::multiset::Multiset;
use crate::cycle::saturating_sum;
use crate::histogram::{saturated, Histogram};
use crate::interval::Interval;
use crate::workload::{one_more, StatsView, Workload, WorkloadStats, WorkloadView};

verus! {

/// One entry of the time series of a run: the statistics of one window of time.
#[derive(Debug)]
pub struct Sample {
    /// How long after the start of the run the window started, in nanoseconds.
    pub time: u64,
    /// How long the window lasted, in nanoseconds.
    pub duration: u64,
    /// The number of cycles completed in the window.
    pub cycle_count: u64,
    /// The number of calls completed in the window, failed ones among them.
    pub request_count: u64,
    /// The number of calls that failed in the window.
    pub error_count: u64,
    /// The latencies of the cycles of the window, in nanoseconds.
    pub cycle_times_ns: Histogram,
    /// The latencies of the calls of the window, in nanoseconds.
    pub resp_times_ns: Histogram,
}

/// What is observable of a sample.
pub struct SampleView {
    pub time: u64,
    pub duration: u64,
    pub cycle_times: Multiset<u64>,
    pub call_times: Multiset<u64>,
    pub call_errors: u64,
}

/// `later - earlier`, or zero where `later` is the earlier of the two.
pub open spec fn time_between(earlier: u64, later: u64) -> u64 {
    if later >= earlier {
        (later - earlier) as u64
    } else {
        0
    }
}

/// The sample that the statistics `stats` of a window make in a run that started at
/// `run_start`.
pub open spec fn sample_of(run_start: u64, stats: StatsView) -> SampleView {
    SampleView {
        time: time_between(run_start, stats.start_time),
        duration: time_between(stats.start_time, stats.end_time),
        cycle_times: stats.cycle_times,
        call_times: stats.call_times,
        call_errors: stats.call_errors,
    }
}

impl View for Sample {
    type V = SampleView;

    open spec fn view(&self) -> SampleView {
        SampleView {
            time: self.time,
            duration: self.duration,
            cycle_times: self.cycle_times_ns.samples(),
            call_times: self.resp_times_ns.samples(),
            call_errors: self.error_count,
        }
    }
}

impl Sample {
    /// The counts are the numbers of latencies that the sample holds, and no more calls
    /// failed than were made.
    pub open spec fn wf(self) -> bool {
        &&& self.cycle_count == saturated(self.cycle_times_ns.samples().len())
        &&& self.request_count == saturated(self.resp_times_ns.samples().len())
        &&& self.error_count <= self.request_count
    }

    /// The sample of the window whose statistics are `stats`, in a run that started at
    /// `run_start`.
    pub fn new(run_start: u64, stats: WorkloadStats) -> (sample: Sample)
        requires
            stats.wf(),
        ensures
            sample.wf(),
            sample@ == sample_of(run_start, stats@),
    {
        Sample {
            time: if stats.start_time >= run_start {
                stats.start_time - run_start
            } else {
                0
            },
            duration: if stats.end_time >= stats.start_time {
                stats.end_time - stats.start_time
            } else {
                0
            },
            cycle_count: stats.workload_stats.workload_count,
            request_count: stats.session_stats.req_count,
            error_count: stats.session_stats.req_error_count,
            cycle_times_ns: stats.workload_stats.workload_times_ns,
            resp_times_ns: stats.session_stats.resp_times_ns,
        }
    }

    /// The number of calls of the window that succeeded.
    pub fn success_count(&self) -> (n: u64)
        requires
            self.wf(),
        ensures
            n == self.request_count - self.error_count,
    {
        self.request_count - self.error_count
    }
}

/// What is observable of a sampler.
pub struct SamplerView {
    /// The period of sampling.
    pub period: Interval,
    /// When the run started, in nanoseconds on the run's clock.
    pub run_start: u64,
    /// The time of the last tick.
    pub last_tick: u64,
    /// The number of cycles completed since the last tick.
    pub cycles: u64,
    /// The samples taken so far, in the order in which they were taken.
    pub samples: Seq<SampleView>,
}

/// The span of `period` in nanoseconds, where it is a span of time that the clock can hold.
pub open spec fn period_nanos(period: Interval) -> u64 {
    match period {
        Interval::Time(d) => if d.total_nanos() <= u64::MAX {
            d.total_nanos() as u64
        } else {
            u64::MAX
        },
        _ => 0,
    }
}

/// All the latencies of cycles that the samples hold.
pub open spec fn sampled_cycles(samples: Seq<SampleView>) -> Multiset<u64>
    decreases samples.len(),
{
    if samples.len() == 0 {
        Multiset::empty()
    } else {
        sampled_cycles(samples.drop_last()).add(samples.last().cycle_times)
    }
}

/// All the latencies of calls that the samples hold.
pub open spec fn sampled_calls(samples: Seq<SampleView>) -> Multiset<u64>
    decreases samples.len(),
{
    if samples.len() == 0 {
        Multiset::empty()
    } else {
        sampled_calls(samples.drop_last()).add(samples.last().call_times)
    }
}

impl SamplerView {
    /// A sampler that has taken no sample, for a run that starts at `start`; its first
    /// window starts there.
    pub open spec fn fresh(period: Interval, start: u64) -> SamplerView {
        SamplerView { period, run_start: start, last_tick: start, cycles: 0, samples: Seq::empty() }
    }

    /// Whether a sample is due when a cycle is completed at `now`: the period is a number
    /// of cycles and that many are completed since the last tick, this one among them; or
    /// it is a span of time and that much time has passed since the last tick. No sample
    /// is ever due where the period is without end.
    pub open spec fn is_due(self, now: u64) -> bool {
        match self.period {
            Interval::Count(n) => one_more(self.cycles) >= n,
            Interval::Time(d) => now >= self.last_tick && now - self.last_tick >= d.total_nanos(),
            Interval::Unbounded => false,
        }
    }

    /// The time of the tick for a sample that is taken at `now`: one period after the last
    /// tick where the period is a span of time, else `now`.
    pub open spec fn tick(self, now: u64) -> u64 {
        match self.period {
            Interval::Time(_) => saturating_sum(self.last_tick, period_nanos(self.period)),
            _ => now,
        }
    }

    /// The sampler and the workload after a cycle of the workload is completed at `now`:
    /// where a sample is due, the statistics of the workload up to `now` join the series,
    /// and the workload starts its next window there with empty counters.
    pub open spec fn cycle_completed(self, workload: WorkloadView, now: u64) -> (
        SamplerView,
        WorkloadView,
    ) {
        if self.is_due(now) {
            (
                SamplerView {
                    last_tick: self.tick(now),
                    cycles: 0,
                    samples: self.samples.push(sample_of(self.run_start, workload.stats(now))),
                    ..self
                },
                workload.reset(now),
            )
        } else {
            (SamplerView { cycles: one_more(self.cycles), ..self }, workload)
        }
    }

    /// The series at the end of the run at `now`: the samples taken so far, and the sample
    /// of the last window.
    pub open spec fn finished(self, workload: WorkloadView, now: u64) -> Seq<SampleView> {
        self.samples.push(sample_of(self.run_start, workload.stats(now)))
    }
}

/// The views of a list of samples.
pub open spec fn series_of(samples: Seq<Sample>) -> Seq<SampleView> {
    samples.map_values(|s: Sample| s@)
}

/// The counts of every entry of a series are the numbers of latencies that it holds.
pub open spec fn series_wf(samples: Seq<Sample>) -> bool {
    forall|i: int| 0 <= i < samples.len() ==> #[trigger] samples[i].wf()
}

/// The taker of the samples of a run.
#[derive(Debug)]
pub struct Sampler {
    period: Interval,
    run_start: u64,
    last_tick: u64,
    cycles: u64,
    samples: Vec<Sample>,
}

impl View for Sampler {
    type V = SamplerView;

    closed spec fn view(&self) -> SamplerView {
        SamplerView {
            period: self.period,
            run_start: self.run_start,
            last_tick: self.last_tick,
            cycles: self.cycles,
            samples: series_of(self.samples@),
        }
    }
}

impl Sampler {
    /// The counts of every sample are the numbers of latencies that it holds.
    pub closed spec fn wf(self) -> bool {
        series_wf(self.samples@)
    }

    /// A sampler with the period `period`, for a run that starts at `start`.
    pub fn new(period: Interval, start: u64) -> (sampler: Sampler)
        ensures
            sampler.wf(),
            sampler@ == SamplerView::fresh(period, start),
    {
        let sampler = Sampler {
            period,
            run_start: start,
            last_tick: start,
            cycles: 0,
            samples: Vec::new(),
        };
        assert(series_of(sampler.samples@) =~= Seq::empty());
        sampler
    }

    /// Whether a sample is due when a cycle is completed at `now`.
    pub fn is_due(&self, now: u64) -> (due: bool)
        ensures
            due == self@.is_due(now),
    {
        match self.period {
            Interval::Count(n) => self.cycles.saturating_add(1) >= n,
            Interval::Time(d) => now >= self.last_tick && (now - self.last_tick) as u128
                >= d.as_nanos(),
            Interval::Unbounded => false,
        }
    }

    /// Takes note that a cycle of `workload` is completed at `now`, and takes a sample
    /// where one is due.
    pub fn cycle_completed(&mut self, workload: &mut Workload, now: u64)
        requires
            old(self).wf(),
            old(workload).wf(),
        ensures
            final(self).wf(),
            final(workload).wf(),
            (final(self)@, final(workload)@) == old(self)@.cycle_completed(old(workload)@, now),
    {
        if self.is_due(now) {
            let sample = Sample::new(self.run_start, workload.take_stats(now));
            let ghost before = series_of(self.samples@);
            self.samples.push(sample);
            assert(series_of(self.samples@) =~= before.push(sample@));
            self.last_tick = match self.period {
                Interval::Time(d) => self.last_tick.saturating_add(d.saturating_nanos()),
                _ => now,
            };
            self.cycles = 0;
        } else {
            self.cycles = self.cycles.saturating_add(1);
        }
    }

    /// Ends the run at `now`: takes the sample of the last window of `workload`, and hands
    /// out the whole series.
    pub fn finish(self, workload: &mut Workload, now: u64) -> (series: Vec<Sample>)
        requires
            self.wf(),
            old(workload).wf(),
        ensures
            final(workload).wf(),
            final(workload)@ == old(workload)@.reset(now),
            series_wf(series@),
            series_of(series@) == self@.finished(old(workload)@, now),
    {
        let sample = Sample::new(self.run_start, workload.take_stats(now));
        let mut series = self.samples;
        let ghost before = series_of(series@);
        series.push(sample);
        assert(series_of(series@) =~= before.push(sample@));
        series
    }

    /// The number of samples taken so far.
    pub fn len(&self) -> (n: usize)
        ensures
            n == self@.samples.len(),
    {
        self.samples.len()
    }
}

/// The series only grows, and by one sample at most: a sample that was taken stays what it
/// was and where it was.
pub proof fn lemma_series_is_append_only(sampler: SamplerView, workload: WorkloadView, now: u64)
    ensures
        ({
            let after = sampler.cycle_completed(workload, now).0;
            &&& after.samples.len() == sampler.samples.len() + if sampler.is_due(now) {
                1nat
            } else {
                0nat
            }
            &&& after.samples.take(sampler.samples.len() as int) == sampler.samples
        }),
{
    let after = sampler.cycle_completed(workload, now).0;
    assert(after.samples.take(sampler.samples.len() as int) =~= sampler.samples);
}

/// Taking a sample loses no measurement and counts none twice: the latencies that the
/// series and the workload hold together are the same before and after.
pub proof fn lemma_sampling_conserves(sampler: SamplerView, workload: WorkloadView, now: u64)
    ensures
        ({
            let (after, rest) = sampler.cycle_completed(workload, now);
            &&& sampled_cycles(after.samples).add(rest.cycle_times) == sampled_cycles(
                sampler.samples,
            ).add(workload.cycle_times)
            &&& sampled_calls(after.samples).add(rest.call_times) == sampled_calls(
                sampler.samples,
            ).add(workload.call_times)
        }),
{
    let (after, rest) = sampler.cycle_completed(workload, now);
    if sampler.is_due(now) {
        assert(after.samples.drop_last() =~= sampler.samples);
        assert(sampled_cycles(after.samples).add(rest.cycle_times) =~= sampled_cycles(
            sampler.samples,
        ).add(workload.cycle_times));
        assert(sampled_calls(after.samples).add(rest.call_times) =~= sampled_calls(
            sampler.samples,
        ).add(workload.call_times));
    }
}

/// Without a sampling period no sample is taken before the end of the run: the series
/// then holds the statistics of the whole run and nothing else.
pub proof fn lemma_unbounded_period_takes_no_sample(
    sampler: SamplerView,
    workload: WorkloadView,
    now: u64,
)
    requires
        sampler.period is Unbounded,
    ensures
        sampler.cycle_completed(workload, now).0.samples == sampler.samples,
        sampler.cycle_completed(workload, now).1 == workload,
{
}

} // verus!
