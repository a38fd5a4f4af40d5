use flood::config::RpcCommand;
use flood::cycle::CycleCounter;
use flood::exec::{Action, ConfigError, ExecutionOptions, Phase, RunEnd, Worker};
use flood::interval::{Interval, TimeSpan};
use flood::sampler::{Sample, Sampler};
use flood::stats::{relative_change, share_per_million, whole_millis, Recorder};
use flood::workload::{CallOutcome, Context, Workload};

fn settings() -> RpcCommand {
    RpcCommand {
        method: Some("eth_blockNumber".to_string()),
        params: Some(Vec::new()),
        raw: false,
        warmup_duration: Interval::Count(1),
        run_duration: Interval::Count(100),
        threads: 1,
        concurrency: 4,
        sampling_interval: Interval::Unbounded,
        tags: Vec::new(),
        input: None,
        output: None,
        baseline: None,
        quiet: true,
        random: false,
        choose: false,
        rpc_url: Vec::new(),
        exp_ramp: false,
        timestamp: None,
        num_req: None,
        cluster_name: None,
        chain_id: None,
    }
}

fn options(threads: usize, concurrency: usize) -> ExecutionOptions {
    ExecutionOptions { duration: Interval::Count(1), periods: Vec::new(), threads, concurrency }
}

/// One worker of a simulated run: a transport that answers every call after `latency`
/// nanoseconds, on a clock that the test moves.
struct Simulated {
    worker: Worker,
    workload: Workload,
    sampler: Sampler,
    flights: Vec<(u64, u64, u64)>,
    most_in_flight: usize,
    dispatched: Vec<u64>,
    finished: Option<RunEnd>,
}

impl Simulated {
    fn new(concurrency: usize, sampling: Interval) -> Simulated {
        Simulated {
            worker: Worker::new(concurrency).unwrap(),
            workload: Workload::new(Context::new(), 1, &settings()),
            sampler: Sampler::new(sampling, 0),
            flights: Vec::new(),
            most_in_flight: 0,
            dispatched: Vec::new(),
            finished: None,
        }
    }

    fn complete_due(&mut self, now: u64, latency: u64, ok: bool) {
        self.flights.sort_by_key(|f| f.2);
        while !self.flights.is_empty() && self.flights[0].2 <= now {
            let (cycle, started, ended) = self.flights.remove(0);
            let outcome = CallOutcome { duration: TimeSpan::from_nanos(latency), ok };
            self.workload.call(&vec![outcome]);
            assert_eq!(self.workload.run(cycle, started, ended), (cycle, ended));
            self.sampler.cycle_completed(&mut self.workload, ended);
            self.worker.complete();
        }
    }

    /// Lets the worker act at `now` until it has to wait. Gives the time that it waits for.
    fn act(&mut self, counter: &mut CycleCounter, now: u64, latency: u64, interrupted: bool) -> Option<u64> {
        loop {
            match self.worker.poll(counter, now, interrupted) {
                Action::Dispatch { cycle } => {
                    assert_eq!(self.workload.cycle_order(), vec![0]);
                    self.flights.push((cycle, now, now + latency));
                    self.dispatched.push(cycle);
                    self.most_in_flight = self.most_in_flight.max(self.flights.len());
                    assert_eq!(self.worker.in_flight(), self.flights.len());
                }
                Action::WaitUntil { time } => {
                    let next = self.flights.iter().map(|f| f.2).min();
                    return Some(next.map_or(time, |t| t.min(time)));
                }
                Action::AwaitCompletion => {
                    return Some(self.flights.iter().map(|f| f.2).min().unwrap());
                }
                Action::Finish { end } => {
                    assert!(self.flights.is_empty());
                    self.finished = Some(end);
                    return None;
                }
            }
        }
    }
}

#[test]
fn run_without_threads_or_concurrency_is_refused() {
    assert_eq!(options(0, 4).validate(), Err(ConfigError::NoThreads));
    assert_eq!(options(2, 0).validate(), Err(ConfigError::NoConcurrency));
    assert_eq!(options(0, 0).validate(), Err(ConfigError::NoThreads));
    assert_eq!(options(1, 1).validate(), Ok(()));
    assert!(Worker::new(0).is_none());
}

#[test]
fn worker_fills_its_window_and_waits() {
    let mut counter = CycleCounter::new(Interval::Count(10), Vec::new(), 0);
    let mut worker = Worker::new(2).unwrap();
    assert_eq!(worker.phase(), Phase::Starting);
    assert_eq!(worker.poll(&mut counter, 0, false), Action::Dispatch { cycle: 0 });
    assert_eq!(worker.phase(), Phase::Running);
    assert_eq!(worker.poll(&mut counter, 0, false), Action::Dispatch { cycle: 1 });
    assert_eq!(worker.poll(&mut counter, 0, false), Action::AwaitCompletion);
    assert_eq!(worker.in_flight(), 2);
    worker.complete();
    assert_eq!(worker.poll(&mut counter, 5, false), Action::Dispatch { cycle: 2 });
    assert_eq!(worker.poll(&mut counter, 5, false), Action::AwaitCompletion);
}

#[test]
fn worker_waits_for_the_time_of_a_paced_cycle() {
    let mut counter = CycleCounter::new(Interval::Count(3), vec![100], 0);
    let mut worker = Worker::new(8).unwrap();
    assert_eq!(worker.poll(&mut counter, 0, false), Action::Dispatch { cycle: 0 });
    assert_eq!(worker.poll(&mut counter, 0, false), Action::WaitUntil { time: 100 });
    assert_eq!(worker.poll(&mut counter, 50, false), Action::WaitUntil { time: 100 });
    assert_eq!(worker.poll(&mut counter, 100, false), Action::Dispatch { cycle: 1 });
    assert_eq!(worker.poll(&mut counter, 250, false), Action::Dispatch { cycle: 2 });
    assert_eq!(worker.poll(&mut counter, 250, false), Action::AwaitCompletion);
    assert_eq!(worker.phase(), Phase::Draining);
    worker.complete();
    worker.complete();
    assert_eq!(worker.poll(&mut counter, 300, false), Action::AwaitCompletion);
    worker.complete();
    assert_eq!(worker.poll(&mut counter, 300, false), Action::Finish { end: RunEnd::Completed });
    assert_eq!(worker.phase(), Phase::Finished);
    assert_eq!(worker.poll(&mut counter, 400, true), Action::Finish { end: RunEnd::Completed });
}

#[test]
fn interrupted_worker_drains_and_reports_the_interruption() {
    let mut counter = CycleCounter::new(Interval::Unbounded, Vec::new(), 0);
    let mut worker = Worker::new(3).unwrap();
    assert_eq!(worker.poll(&mut counter, 0, false), Action::Dispatch { cycle: 0 });
    assert_eq!(worker.poll(&mut counter, 0, false), Action::Dispatch { cycle: 1 });
    assert_eq!(worker.poll(&mut counter, 1, true), Action::AwaitCompletion);
    assert_eq!(worker.phase(), Phase::Interrupted);
    assert_eq!(worker.poll(&mut counter, 2, false), Action::AwaitCompletion);
    worker.complete();
    worker.complete();
    assert_eq!(worker.poll(&mut counter, 3, false), Action::Finish { end: RunEnd::Interrupted });
    assert_eq!(worker.poll(&mut counter, 4, false), Action::Finish { end: RunEnd::Interrupted });
    assert_eq!(counter.next(5), Some((2, 0)));
}

#[test]
fn completion_without_a_cycle_in_flight_changes_nothing() {
    let mut worker = Worker::new(1).unwrap();
    worker.complete();
    assert_eq!(worker.in_flight(), 0);
    assert_eq!(worker.phase(), Phase::Starting);
}

#[test]
fn interruption_gives_up_the_cycle_that_is_held_back() {
    let mut counter = CycleCounter::new(Interval::Count(5), vec![1_000], 0);
    let mut worker = Worker::new(2).unwrap();
    assert_eq!(worker.poll(&mut counter, 0, false), Action::Dispatch { cycle: 0 });
    assert_eq!(worker.poll(&mut counter, 0, false), Action::WaitUntil { time: 1_000 });
    assert_eq!(worker.poll(&mut counter, 2_000, true), Action::AwaitCompletion);
    worker.complete();
    assert_eq!(worker.poll(&mut counter, 2_000, true), Action::Finish { end: RunEnd::Interrupted });
}

#[test]
fn hundred_cycles_against_a_transport_of_one_millisecond() {
    let latency = 1_000_000;
    let mut counter = CycleCounter::new(Interval::Count(100), Vec::new(), 0);
    let mut run = Simulated::new(4, Interval::Unbounded);
    let mut now = 0;
    while let Some(next) = run.act(&mut counter, now, latency, false) {
        now = next;
        run.complete_due(now, latency, true);
    }
    assert_eq!(run.finished, Some(RunEnd::Completed));
    assert_eq!(run.most_in_flight, 4);
    assert_eq!(run.dispatched, (0..100).collect::<Vec<u64>>());
    assert_eq!(now, 25 * latency);
    assert_eq!(run.sampler.len(), 0);
    let series = run.sampler.finish(&mut run.workload, now);
    assert_eq!(series.len(), 1);
    let mut recorder = Recorder::start(0);
    for sample in series {
        recorder.record(sample);
    }
    let stats = recorder.finish(now, RunEnd::Completed);
    assert_eq!(stats.cycle_count, 100);
    assert_eq!(stats.request_count, 100);
    assert_eq!(stats.error_count, 0);
    assert_eq!(stats.end, RunEnd::Completed);
    assert_eq!(stats.cycle_times_ns.len(), 100);
    let (least, most) = (stats.cycle_times_ns.min(), stats.cycle_times_ns.max());
    assert!(least <= latency && latency - least <= latency / 1_000);
    assert!(most >= latency && most - latency <= latency / 1_000);
    let median = stats.cycle_times_ns.percentile(5_000);
    assert!(median >= latency && median - latency <= latency / 1_000);
    assert_eq!(stats.resp_times_ns.percentile(5_000), median);
    assert_eq!(stats.elapsed(), 25 * latency);
    assert_eq!(stats.cycle_throughput(), Some(4_000));
}

#[test]
fn interruption_in_the_middle_of_a_run_of_two_threads() {
    let latency = 2_000_000;
    let stop_at = 7_500_000;
    let mut counter = CycleCounter::new(Interval::Unbounded, Vec::new(), 0);
    let mut threads = vec![
        Simulated::new(8, Interval::Unbounded),
        Simulated::new(8, Interval::Unbounded),
    ];
    let mut now = 0;
    loop {
        let interrupted = now >= stop_at;
        let mut wake: Option<u64> = None;
        for thread in threads.iter_mut() {
            if thread.finished.is_some() {
                continue;
            }
            thread.complete_due(now, latency, true);
            if let Some(t) = thread.act(&mut counter, now, latency, interrupted) {
                wake = Some(wake.map_or(t, |w: u64| w.min(t)));
            }
        }
        match wake {
            Some(t) if now < stop_at && t > stop_at => now = stop_at,
            Some(t) => now = t,
            None => break,
        }
    }
    assert!(now <= stop_at + latency);
    let mut recorder = Recorder::start(0);
    let mut dispatched: Vec<u64> = Vec::new();
    for mut thread in threads {
        assert_eq!(thread.finished, Some(RunEnd::Interrupted));
        assert!(thread.most_in_flight <= 8);
        dispatched.extend(thread.dispatched.iter());
        for sample in thread.sampler.finish(&mut thread.workload, now) {
            recorder.record(sample);
        }
    }
    dispatched.sort();
    assert_eq!(dispatched, (0..dispatched.len() as u64).collect::<Vec<u64>>());
    let stats = recorder.finish(now, RunEnd::Interrupted);
    assert_eq!(stats.end, RunEnd::Interrupted);
    assert_eq!(stats.cycle_count, dispatched.len() as u64);
    assert_eq!(stats.cycle_count, stats.cycle_times_ns.len());
    assert_eq!(stats.request_count, stats.resp_times_ns.len());
    assert_eq!(stats.cycle_count, 64);
}

#[test]
fn time_bound_lets_the_last_cycle_complete() {
    let latency = 400;
    let span = TimeSpan { secs: 0, nanos: 1_000 };
    let mut counter = CycleCounter::new(Interval::Time(span), Vec::new(), 0);
    let mut run = Simulated::new(1, Interval::Unbounded);
    let mut now = 0;
    while let Some(next) = run.act(&mut counter, now, latency, false) {
        now = next;
        run.complete_due(now, latency, true);
    }
    assert_eq!(run.finished, Some(RunEnd::Completed));
    assert_eq!(run.dispatched, vec![0, 1, 2]);
    assert_eq!(now, 1_200);
    let series = run.sampler.finish(&mut run.workload, now);
    assert_eq!(series[0].cycle_count, 3);
}

#[test]
fn samples_are_taken_at_every_tick() {
    let latency = 100;
    let mut counter = CycleCounter::new(Interval::Count(10), Vec::new(), 0);
    let period = Interval::Time(TimeSpan { secs: 0, nanos: 300 });
    let mut run = Simulated::new(1, period);
    let mut now = 0;
    while let Some(next) = run.act(&mut counter, now, latency, false) {
        now = next;
        run.complete_due(now, latency, false);
    }
    let series = run.sampler.finish(&mut run.workload, now);
    let windows: Vec<(u64, u64, u64)> = series
        .iter()
        .map(|s| (s.time, s.duration, s.cycle_count))
        .collect();
    assert_eq!(windows, vec![(0, 300, 3), (300, 300, 3), (600, 300, 3), (900, 100, 1)]);
    assert!(series.iter().all(|s| s.request_count == s.cycle_count));
    assert!(series.iter().all(|s| s.error_count == s.request_count));
    assert!(series.iter().all(|s| s.success_count() == 0));
    let mut recorder = Recorder::start(0);
    for sample in series {
        recorder.record(sample);
    }
    let stats = recorder.finish(now, RunEnd::Completed);
    assert_eq!(stats.cycle_count, 10);
    assert_eq!(stats.request_count, 10);
    assert_eq!(stats.error_count, 10);
    assert_eq!(stats.log.len(), 4);
}

#[test]
fn samples_by_count() {
    let mut workload = Workload::new(Context::new(), 1, &settings());
    let mut sampler = Sampler::new(Interval::Count(4), 0);
    for cycle in 0..10u64 {
        workload.run(cycle, cycle * 10, cycle * 10 + 5);
        assert_eq!(sampler.is_due(cycle * 10 + 5), cycle % 4 == 3);
        sampler.cycle_completed(&mut workload, cycle * 10 + 5);
    }
    assert_eq!(sampler.len(), 2);
    let series = sampler.finish(&mut workload, 100);
    let counts: Vec<u64> = series.iter().map(|s| s.cycle_count).collect();
    assert_eq!(counts, vec![4, 4, 2]);
    assert_eq!(series[1].time, 35);
    assert_eq!(series[1].duration, 40);
}

#[test]
fn throughput_is_whole_events_each_second() {
    let mut recorder = Recorder::start(1_000);
    let mut workload = Workload::new(Context::new(), 1, &settings());
    workload.reset(1_000);
    for cycle in 0..3 {
        workload.call(&vec![
            CallOutcome { duration: TimeSpan::from_nanos(5), ok: true },
            CallOutcome { duration: TimeSpan::from_nanos(6), ok: false },
        ]);
        workload.run(cycle, 1_000, 1_010);
    }
    recorder.record(Sample::new(1_000, workload.take_stats(2_000_001_000)));
    let stats = recorder.finish(2_000_001_000, RunEnd::Completed);
    assert_eq!(stats.elapsed(), 2_000_000_000);
    assert_eq!(stats.cycle_throughput(), Some(1));
    assert_eq!(stats.request_throughput(), Some(3));
    assert_eq!(stats.error_count, 3);
    assert_eq!(stats.error_share(), Some(500_000));
    assert_eq!(stats.log[0].success_count(), 3);
    let empty = Recorder::start(5).finish(5, RunEnd::Completed);
    assert_eq!(empty.cycle_throughput(), None);
    assert_eq!(empty.error_share(), None);
    let backwards = Recorder::start(5).finish(1, RunEnd::Failed);
    assert_eq!(backwards.elapsed(), 0);
    assert_eq!(backwards.end, RunEnd::Failed);
}

#[test]
fn window_of_a_sample() {
    let mut workload = Workload::new(Context::new(), 1, &settings());
    workload.reset(3_500_000_000);
    workload.run(0, 3_600_000_000, 3_600_000_700);
    let sample = Sample::new(1_000_000_000, workload.take_stats(4_999_999_999));
    assert_eq!(sample.time, 2_500_000_000);
    assert_eq!(sample.duration, 1_499_999_999);
    assert_eq!(sample.cycle_count, 1);
    assert_eq!(sample.cycle_times_ns.max(), 700);
    assert_eq!((whole_millis(sample.time), whole_millis(sample.duration)), (2_500, 1_499));
    workload.reset(50);
    let before_the_run = Sample::new(80, workload.take_stats(10));
    assert_eq!((before_the_run.time, before_the_run.duration), (0, 0));
    assert_eq!(whole_millis(u64::MAX), 18_446_744_073_709);
    assert_eq!(whole_millis(999_999), 0);
}

#[test]
fn fault_ends_the_run_of_a_worker_as_failed() {
    let mut counter = CycleCounter::new(Interval::Unbounded, Vec::new(), 0);
    let mut worker = Worker::new(3).unwrap();
    assert_eq!(worker.poll(&mut counter, 0, false), Action::Dispatch { cycle: 0 });
    assert_eq!(worker.poll(&mut counter, 0, false), Action::Dispatch { cycle: 1 });
    worker.fail();
    assert_eq!(worker.phase(), Phase::Draining);
    assert_eq!(worker.in_flight(), 1);
    assert_eq!(worker.poll(&mut counter, 1, false), Action::AwaitCompletion);
    assert_eq!(worker.poll(&mut counter, 1, true), Action::AwaitCompletion);
    worker.complete();
    assert_eq!(worker.poll(&mut counter, 2, true), Action::Finish { end: RunEnd::Failed });
    assert_eq!(worker.poll(&mut counter, 3, false), Action::Finish { end: RunEnd::Failed });
    worker.fail();
    assert_eq!(worker.phase(), Phase::Finished);
}

#[test]
fn fault_after_an_interruption_is_still_a_fault() {
    let mut counter = CycleCounter::new(Interval::Unbounded, Vec::new(), 0);
    let mut worker = Worker::new(2).unwrap();
    assert_eq!(worker.poll(&mut counter, 0, false), Action::Dispatch { cycle: 0 });
    assert_eq!(worker.poll(&mut counter, 0, true), Action::AwaitCompletion);
    assert_eq!(worker.phase(), Phase::Interrupted);
    worker.fail();
    assert_eq!(worker.in_flight(), 0);
    assert_eq!(worker.poll(&mut counter, 1, true), Action::Finish { end: RunEnd::Failed });
}

#[test]
fn ends_of_workers_join_to_the_worst() {
    let (completed, interrupted, failed) =
        (RunEnd::Completed, RunEnd::Interrupted, RunEnd::Failed);
    assert_eq!(completed.join(completed), completed);
    assert_eq!(completed.join(interrupted), interrupted);
    assert_eq!(interrupted.join(completed), interrupted);
    assert_eq!(interrupted.join(interrupted), interrupted);
    assert_eq!(interrupted.join(failed), failed);
    assert_eq!(failed.join(interrupted), failed);
    assert_eq!(failed.join(completed), failed);
    assert_eq!(completed.join(failed), failed);
    assert_eq!(failed.join(failed), failed);
}

#[test]
fn shares_and_changes_in_parts_per_million() {
    assert_eq!(share_per_million(1, 4), Some(250_000));
    assert_eq!(share_per_million(0, 4), Some(0));
    assert_eq!(share_per_million(1, 3), Some(333_333));
    assert_eq!(share_per_million(5, 0), None);
    assert_eq!(share_per_million(u64::MAX, 1), Some(u64::MAX));
    assert_eq!(relative_change(110, 100), Some(100_000));
    assert_eq!(relative_change(100, 100), Some(0));
    assert_eq!(relative_change(90, 100), Some(-100_000));
    assert_eq!(relative_change(0, 100), Some(-1_000_000));
    assert_eq!(relative_change(2, 3), Some(-333_333));
    assert_eq!(relative_change(4, 3), Some(333_333));
    assert_eq!(relative_change(1, 0), None);
    assert_eq!(relative_change(u64::MAX, 1), Some(i64::MAX));
}
