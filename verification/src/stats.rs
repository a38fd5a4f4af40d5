//! The folding of the samples of a run into its final statistics.

use vstd::prelude::*;
use crate::cycle::saturating_sum;
use crate::exec::RunEnd;
use crate::histogram::{saturated, Histogram};
use crate::sampler::{sampled_calls, sampled_cycles, series_of, series_wf, Sample, SampleView};

verus! {

/// The number of calls that failed in all the samples, which stops at the largest 64-bit
/// number.
pub open spec fn sampled_errors(samples: Seq<SampleView>) -> u64
    decreases samples.len(),
{
    if samples.len() == 0 {
        0
    } else {
        saturating_sum(sampled_errors(samples.drop_last()), samples.last().call_errors)
    }
}

/// The final statistics of a run.
#[derive(Debug)]
pub struct BenchmarkStats {
    /// When the run started, in nanoseconds on the run's clock.
    pub start_time: u64,
    /// When the run ended.
    pub end_time: u64,
    /// How the run ended.
    pub end: RunEnd,
    /// The number of cycles completed.
    pub cycle_count: u64,
    /// The number of calls completed, failed ones among them.
    pub request_count: u64,
    /// The number of calls that failed.
    pub error_count: u64,
    /// The latencies of all cycles, in nanoseconds.
    pub cycle_times_ns: Histogram,
    /// The latencies of all calls, in nanoseconds.
    pub resp_times_ns: Histogram,
    /// The samples of the run, in the order in which they were recorded.
    pub log: Vec<Sample>,
}

impl BenchmarkStats {
    /// The statistics are those of their samples: the histograms hold the latencies of all
    /// samples, and the counts are the numbers of those latencies and of the failures.
    pub open spec fn wf(self) -> bool {
        &&& series_wf(self.log@)
        &&& self.cycle_times_ns.samples() == sampled_cycles(series_of(self.log@))
        &&& self.resp_times_ns.samples() == sampled_calls(series_of(self.log@))
        &&& self.cycle_count == saturated(self.cycle_times_ns.samples().len())
        &&& self.request_count == saturated(self.resp_times_ns.samples().len())
        &&& self.error_count == sampled_errors(series_of(self.log@))
    }

    /// The length of the run in nanoseconds; zero where it ended before it started.
    pub fn elapsed(&self) -> (nanos: u64)
        ensures
            nanos == if self.end_time >= self.start_time {
                self.end_time - self.start_time
            } else {
                0
            },
    {
        if self.end_time >= self.start_time {
            self.end_time - self.start_time
        } else {
            0
        }
    }

    /// The whole number of cycles that the run completed each second; `None` for a run of
    /// no length.
    pub fn cycle_throughput(&self) -> (r: Option<u64>)
        ensures
            r == throughput(self.cycle_count, self.elapsed_nanos()),
    {
        whole_rate(self.cycle_count, self.elapsed())
    }

    /// The whole number of calls that the run completed each second; `None` for a run of no
    /// length.
    pub fn request_throughput(&self) -> (r: Option<u64>)
        ensures
            r == throughput(self.request_count, self.elapsed_nanos()),
    {
        whole_rate(self.request_count, self.elapsed())
    }

    /// The length of the run in nanoseconds; zero where it ended before it started.
    pub open spec fn elapsed_nanos(self) -> u64 {
        if self.end_time >= self.start_time {
            (self.end_time - self.start_time) as u64
        } else {
            0
        }
    }
}

/// The whole number of events each second that `count` events in `nanos` nanoseconds come
/// to, which stops at the largest 64-bit number; `None` where `nanos` is zero.
pub open spec fn throughput(count: u64, nanos: u64) -> Option<u64> {
    if nanos == 0 {
        None
    } else {
        Some(saturated(((count * 1_000_000_000) / (nanos as int)) as nat))
    }
}

/// The whole number of events each second that `count` events in `nanos` nanoseconds come
/// to.
pub fn whole_rate(count: u64, nanos: u64) -> (r: Option<u64>)
    ensures
        r == throughput(count, nanos),
{
    if nanos == 0 {
        None
    } else {
        let rate: u128 = (count as u128 * 1_000_000_000) / (nanos as u128);
        assert((count * 1_000_000_000) / (nanos as int) >= 0) by (nonlinear_arith)
            requires
                count >= 0,
                nanos > 0,
        ;
        if rate > u64::MAX as u128 {
            Some(u64::MAX)
        } else {
            Some(rate as u64)
        }
    }
}

/// The folder of the samples of a run.
#[derive(Debug)]
pub struct Recorder {
    start_time: u64,
    error_count: u64,
    cycle_times_ns: Histogram,
    resp_times_ns: Histogram,
    log: Vec<Sample>,
}

impl Recorder {
    /// The recorder holds the latencies and the failures of the samples that it was given.
    pub closed spec fn wf(self) -> bool {
        &&& series_wf(self.log@)
        &&& self.cycle_times_ns.samples() == sampled_cycles(series_of(self.log@))
        &&& self.resp_times_ns.samples() == sampled_calls(series_of(self.log@))
        &&& self.error_count == sampled_errors(series_of(self.log@))
    }

    /// The samples recorded so far, in the order in which they were recorded.
    pub closed spec fn samples(self) -> Seq<SampleView> {
        series_of(self.log@)
    }

    /// When the run started.
    pub closed spec fn started(self) -> u64 {
        self.start_time
    }

    /// A recorder for a run that starts at `start_time`.
    pub fn start(start_time: u64) -> (recorder: Recorder)
        ensures
            recorder.wf(),
            recorder.samples() == Seq::<SampleView>::empty(),
            recorder.started() == start_time,
    {
        let recorder = Recorder {
            start_time,
            error_count: 0,
            cycle_times_ns: Histogram::new(),
            resp_times_ns: Histogram::new(),
            log: Vec::new(),
        };
        assert(series_of(recorder.log@) =~= Seq::empty());
        recorder
    }

    /// Adds one sample to the series, and its latencies and failures to the totals.
    pub fn record(&mut self, sample: Sample)
        requires
            old(self).wf(),
            sample.wf(),
        ensures
            final(self).wf(),
            final(self).samples() == old(self).samples().push(sample@),
            final(self).started() == old(self).started(),
    {
        self.cycle_times_ns.merge(&sample.cycle_times_ns);
        self.resp_times_ns.merge(&sample.resp_times_ns);
        self.error_count = self.error_count.saturating_add(sample.error_count);
        let ghost before = series_of(self.log@);
        self.log.push(sample);
        proof {
            assert(series_of(self.log@) =~= before.push(sample@));
            assert(series_of(self.log@).drop_last() =~= before);
        }
    }

    /// Ends the run at `end_time`, and hands out its statistics. `end` says how the run
    /// ended.
    pub fn finish(self, end_time: u64, end: RunEnd) -> (stats: BenchmarkStats)
        requires
            self.wf(),
        ensures
            stats.wf(),
            series_of(stats.log@) == self.samples(),
            stats.start_time == self.started(),
            stats.end_time == end_time,
            stats.end == end,
    {
        let cycle_count = self.cycle_times_ns.len();
        let request_count = self.resp_times_ns.len();
        BenchmarkStats {
            start_time: self.start_time,
            end_time,
            end,
            cycle_count,
            request_count,
            error_count: self.error_count,
            cycle_times_ns: self.cycle_times_ns,
            resp_times_ns: self.resp_times_ns,
            log: self.log,
        }
    }
}

/// The statistics of a run count every cycle of every sample once: the number of cycles
/// is the sum of the numbers of cycles of the samples.
pub proof fn lemma_samples_add_up(samples: Seq<SampleView>, sample: SampleView)
    ensures
        sampled_cycles(samples.push(sample)).len() == sampled_cycles(samples).len()
            + sample.cycle_times.len(),
        sampled_calls(samples.push(sample)).len() == sampled_calls(samples).len()
            + sample.call_times.len(),
{
    assert(samples.push(sample).drop_last() =~= samples);
}

/// The totals of two samples do not depend on the order in which the samples are
/// recorded.
pub proof fn lemma_order_of_samples(samples: Seq<SampleView>, first: SampleView, second: SampleView)
    ensures
        sampled_cycles(samples.push(first).push(second)) == sampled_cycles(
            samples.push(second).push(first),
        ),
        sampled_calls(samples.push(first).push(second)) == sampled_calls(
            samples.push(second).push(first),
        ),
{
    assert(samples.push(first).push(second).drop_last() =~= samples.push(first));
    assert(samples.push(second).push(first).drop_last() =~= samples.push(second));
    assert(samples.push(first).drop_last() =~= samples);
    assert(samples.push(second).drop_last() =~= samples);
    let cycles = sampled_cycles(samples);
    let calls = sampled_calls(samples);
    assert(sampled_cycles(samples.push(first)) == cycles.add(first.cycle_times));
    assert(sampled_cycles(samples.push(second)) == cycles.add(second.cycle_times));
    assert(sampled_cycles(samples.push(first).push(second)) == cycles.add(first.cycle_times).add(
        second.cycle_times,
    ));
    assert(sampled_cycles(samples.push(second).push(first)) == cycles.add(second.cycle_times).add(
        first.cycle_times,
    ));
    assert(sampled_calls(samples.push(first)) == calls.add(first.call_times));
    assert(sampled_calls(samples.push(second)) == calls.add(second.call_times));
    assert(sampled_calls(samples.push(first).push(second)) == calls.add(first.call_times).add(
        second.call_times,
    ));
    assert(sampled_calls(samples.push(second).push(first)) == calls.add(second.call_times).add(
        first.call_times,
    ));
    assert(sampled_cycles(samples.push(first).push(second)) =~= sampled_cycles(
        samples.push(second).push(first),
    ));
    assert(sampled_calls(samples.push(first).push(second)) =~= sampled_calls(
        samples.push(second).push(first),
    ));
}

/// Nanoseconds in one millisecond.
pub const NANOS_PER_MILLI: u64 = 1_000_000;

/// The whole milliseconds in `nanos` nanoseconds: the unit in which an interval log holds
/// the start and the length of a window.
pub fn whole_millis(nanos: u64) -> (millis: u64)
    ensures
        millis == nanos / NANOS_PER_MILLI,
{
    nanos / NANOS_PER_MILLI
}

/// The share of `whole` that `part` is, in whole parts per million, which stops at the
/// largest 64-bit number; `None` where `whole` is zero.
pub open spec fn share(part: u64, whole: u64) -> Option<u64> {
    if whole == 0 {
        None
    } else {
        Some(saturated(((part * 1_000_000) / (whole as int)) as nat))
    }
}

/// The share of `whole` that `part` is, in whole parts per million.
pub fn share_per_million(part: u64, whole: u64) -> (r: Option<u64>)
    ensures
        r == share(part, whole),
{
    if whole == 0 {
        None
    } else {
        let parts: u128 = (part as u128 * 1_000_000) / (whole as u128);
        assert((part * 1_000_000) / (whole as int) >= 0) by (nonlinear_arith)
            requires
                part >= 0,
                whole > 0,
        ;
        if parts > u64::MAX as u128 {
            Some(u64::MAX)
        } else {
            Some(parts as u64)
        }
    }
}

/// The change from `baseline` to `current` as a share of `baseline`, in whole parts per
/// million: above zero for a rise, below zero for a fall, and cut off towards zero. It
/// stops at the largest 63-bit number. `None` where `baseline` is zero.
pub open spec fn change(current: u64, baseline: u64) -> Option<i64> {
    if baseline == 0 {
        None
    } else if current >= baseline {
        let rise = ((current - baseline) * 1_000_000) / (baseline as int);
        Some(
            if rise > i64::MAX {
                i64::MAX
            } else {
                rise as i64
            },
        )
    } else {
        Some((-(((baseline - current) * 1_000_000) / (baseline as int))) as i64)
    }
}

/// The change from `baseline` to `current` as a share of `baseline`, in whole parts per
/// million.
pub fn relative_change(current: u64, baseline: u64) -> (r: Option<i64>)
    ensures
        r == change(current, baseline),
{
    if baseline == 0 {
        None
    } else if current >= baseline {
        let rise: u128 = ((current - baseline) as u128 * 1_000_000) / (baseline as u128);
        if rise > i64::MAX as u128 {
            Some(i64::MAX)
        } else {
            Some(rise as i64)
        }
    } else {
        let gap = baseline - current;
        assert((gap * 1_000_000) / (baseline as int) <= 1_000_000 && (gap * 1_000_000) / (
        baseline as int) >= 0) by (nonlinear_arith)
            requires
                0 <= gap <= baseline,
                baseline > 0,
        ;
        let fall: u128 = (gap as u128 * 1_000_000) / (baseline as u128);
        Some(0 - (fall as i64))
    }
}

impl BenchmarkStats {
    /// The share of the calls that failed, in whole parts per million; `None` for a run
    /// without a call.
    pub fn error_share(&self) -> (r: Option<u64>)
        ensures
            r == share(self.error_count, self.request_count),
    {
        share_per_million(self.error_count, self.request_count)
    }
}

} // verus!
