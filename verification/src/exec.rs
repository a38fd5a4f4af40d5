//! The decisions of a worker of the execution engine: when it dispatches a cycle, when it
//! waits, and when it is done.

use vstd::prelude::*;
use crate::cycle::{CounterView, CycleCounter};
use crate::interval::Interval;

verus! {

/// The shape of the load of one phase of a run.
#[derive(Clone, Debug)]
pub struct ExecutionOptions {
    /// How long the phase lasts.
    pub duration: Interval,
    /// The time between two cycles in each stage of the phase, in nanoseconds. Without a
    /// period the cycles are not paced.
    pub periods: Vec<u64>,
    /// The number of worker threads.
    pub threads: usize,
    /// The number of cycles that one worker keeps in flight.
    pub concurrency: usize,
}

/// Why a run cannot start.
#[derive(Clone, Copy, Debug, PartialEq, Eq, Structural)]
pub enum ConfigError {
    /// The run has no worker thread.
    NoThreads,
    /// A worker may keep no cycle in flight.
    NoConcurrency,
}

impl ExecutionOptions {
    /// Whether a run of this shape can start: it has a thread, and a thread may keep a
    /// cycle in flight.
    pub fn validate(&self) -> (r: Result<(), ConfigError>)
        ensures
            r == if self.threads == 0 {
                Err::<(), ConfigError>(ConfigError::NoThreads)
            } else if self.concurrency == 0 {
                Err::<(), ConfigError>(ConfigError::NoConcurrency)
            } else {
                Ok::<(), ConfigError>(())
            },
    {
        if self.threads == 0 {
            Err(ConfigError::NoThreads)
        } else if self.concurrency == 0 {
            Err(ConfigError::NoConcurrency)
        } else {
            Ok(())
        }
    }
}

/// The load of one phase of a benchmark, and how it is sampled.
#[derive(Clone, Debug)]
pub struct PhasePlan {
    pub options: ExecutionOptions,
    pub sampling: Interval,
}

/// The plans of the phases of a benchmark: the warm-up, where there is one, and the main
/// phase.
#[derive(Debug)]
pub struct Plans {
    pub warmup: Option<PhasePlan>,
    pub run: PhasePlan,
}

/// The kind of runtime that drives the workers.
#[derive(Clone, Copy, Debug, PartialEq, Eq, Structural)]
pub enum RuntimeKind {
    /// All work is done on the thread that starts the run.
    CurrentThread,
    /// The work is spread over this many threads.
    MultiThread { workers: usize },
}

/// The kind of runtime for a run of `threads` threads: one thread needs no further thread.
pub fn runtime_kind(threads: usize) -> (kind: RuntimeKind)
    ensures
        kind == if threads == 1 {
            RuntimeKind::CurrentThread
        } else {
            RuntimeKind::MultiThread { workers: threads }
        },
{
    if threads == 1 {
        RuntimeKind::CurrentThread
    } else {
        RuntimeKind::MultiThread { workers: threads }
    }
}

/// How a run ended.
#[derive(Clone, Copy, Debug, PartialEq, Eq, Structural)]
pub enum RunEnd {
    /// The run reached its bound.
    Completed,
    /// The run was interrupted from outside before it reached its bound. The statistics
    /// are those of the cycles completed up to then.
    Interrupted,
    /// A cycle ended with a fault. The statistics are those of the cycles completed.
    Failed,
}

impl RunEnd {
    /// The end of a run of two workers that ended as `self` and `other`: a fault goes over
    /// an interruption, and an interruption over a run to the bound.
    pub open spec fn joined(self, other: RunEnd) -> RunEnd {
        if self == RunEnd::Failed || other == RunEnd::Failed {
            RunEnd::Failed
        } else if self == RunEnd::Interrupted || other == RunEnd::Interrupted {
            RunEnd::Interrupted
        } else {
            RunEnd::Completed
        }
    }

    /// The end of a run of two workers that ended as `self` and `other`.
    pub fn join(self, other: RunEnd) -> (end: RunEnd)
        ensures
            end == self.joined(other),
    {
        match (self, other) {
            (RunEnd::Failed, _) => RunEnd::Failed,
            (_, RunEnd::Failed) => RunEnd::Failed,
            (RunEnd::Interrupted, _) => RunEnd::Interrupted,
            (_, RunEnd::Interrupted) => RunEnd::Interrupted,
            (RunEnd::Completed, RunEnd::Completed) => RunEnd::Completed,
        }
    }
}

/// Where a worker stands in its run.
#[derive(Clone, Copy, Debug, PartialEq, Eq, Structural)]
pub enum Phase {
    /// The worker has not asked for a cycle yet.
    Starting,
    /// The worker dispatches cycles.
    Running,
    /// The worker admits no further cycle, because the run has reached its bound or a
    /// cycle has failed; it waits for its cycles in flight.
    Draining,
    /// The run was interrupted; the worker waits for its cycles in flight.
    Interrupted,
    /// The worker is done.
    Finished,
}

/// What a worker does next.
#[derive(Clone, Copy, Debug, PartialEq, Eq, Structural)]
pub enum Action {
    /// Start the cycle of this number now.
    Dispatch { cycle: u64 },
    /// Wait until this time on the run's clock, or until a cycle in flight is completed.
    WaitUntil { time: u64 },
    /// Wait until a cycle in flight is completed.
    AwaitCompletion,
    /// Stop. `end` says how the run of the worker ended.
    Finish { end: RunEnd },
}

/// What is observable of a worker.
pub struct WorkerView {
    pub phase: Phase,
    /// The number of cycles that the worker may keep in flight.
    pub concurrency: nat,
    /// The number of cycles in flight: dispatched, and not completed yet.
    pub in_flight: nat,
    /// The cycle that the worker was handed and has not dispatched yet: its number, and
    /// the time before which it may not start.
    pub pending: Option<(u64, u64)>,
    /// How the run of the worker ends, as far as the worker has seen.
    pub end: RunEnd,
}

impl WorkerView {
    /// The worker keeps no more cycles in flight than it may; it holds a cycle back only
    /// while it admits cycles; it is done only with no cycle in flight; it is in the phase of
    /// an interrupted run if and only if it has seen the interruption and is not done; and
    /// while it admits cycles it has seen neither an interruption nor a fault.
    pub open spec fn wf(self) -> bool {
        &&& self.concurrency >= 1
        &&& self.in_flight <= self.concurrency
        &&& self.pending is Some ==> self.phase == Phase::Running
        &&& self.phase == Phase::Finished ==> self.in_flight == 0
        &&& self.phase == Phase::Interrupted ==> self.end == RunEnd::Interrupted
        &&& self.phase == Phase::Draining ==> self.end != RunEnd::Interrupted
        &&& self.phase == Phase::Starting || self.phase == Phase::Running ==> self.end
            == RunEnd::Completed
    }

    /// A worker that has not started.
    pub open spec fn fresh(concurrency: nat) -> WorkerView {
        WorkerView {
            phase: Phase::Starting,
            concurrency,
            in_flight: 0,
            pending: None,
            end: RunEnd::Completed,
        }
    }

    /// What a worker that admits no further cycle does, its run ending as `end`: it gives
    /// up the cycle that it holds back, waits for its cycles in flight, and stops when
    /// there is none.
    pub open spec fn drain(self, end: RunEnd) -> (Action, WorkerView) {
        if self.in_flight > 0 {
            (
                Action::AwaitCompletion,
                WorkerView {
                    phase: if end == RunEnd::Interrupted {
                        Phase::Interrupted
                    } else {
                        Phase::Draining
                    },
                    pending: None,
                    end,
                    ..self
                },
            )
        } else {
            (
                Action::Finish { end },
                WorkerView { phase: Phase::Finished, pending: None, end, ..self },
            )
        }
    }

    /// What a worker does with the cycle `(cycle, not_before)` that it holds at `now`: it
    /// dispatches it where its time has come, and else waits for that time.
    pub open spec fn take_up(self, cycle: u64, not_before: u64, now: u64) -> (Action, WorkerView) {
        if not_before <= now {
            (
                Action::Dispatch { cycle },
                WorkerView {
                    phase: Phase::Running,
                    in_flight: self.in_flight + 1,
                    pending: None,
                    ..self
                },
            )
        } else {
            (
                Action::WaitUntil { time: not_before },
                WorkerView { phase: Phase::Running, pending: Some((cycle, not_before)), ..self },
            )
        }
    }

    /// What the worker does at `now`, and the worker and the counter after that.
    ///
    /// A worker that is done stays done. A worker that has seen the bound of the run, a
    /// fault or an interruption admits no further cycle, and so does a worker that sees
    /// the interruption now. A running worker with as many cycles in flight as it may keep
    /// waits for one of them. Else it takes the cycle that it holds back, or asks the
    /// counter for the next one, and dispatches it when its time has come.
    pub open spec fn poll(self, counter: CounterView, now: u64, interrupted: bool) -> (
        Action,
        WorkerView,
        CounterView,
    ) {
        match self.phase {
            Phase::Finished => (Action::Finish { end: self.end }, self, counter),
            Phase::Draining => (self.drain(self.end).0, self.drain(self.end).1, counter),
            Phase::Interrupted => (
                self.drain(RunEnd::Interrupted).0,
                self.drain(RunEnd::Interrupted).1,
                counter,
            ),
            Phase::Starting | Phase::Running => if interrupted {
                (self.drain(RunEnd::Interrupted).0, self.drain(RunEnd::Interrupted).1, counter)
            } else if self.in_flight >= self.concurrency {
                (Action::AwaitCompletion, WorkerView { phase: Phase::Running, ..self }, counter)
            } else {
                match self.pending {
                    Some((cycle, not_before)) => (
                        self.take_up(cycle, not_before, now).0,
                        self.take_up(cycle, not_before, now).1,
                        counter,
                    ),
                    None => match counter.step(now).0 {
                        Some((cycle, not_before)) => (
                            self.take_up(cycle, not_before, now).0,
                            self.take_up(cycle, not_before, now).1,
                            counter.step(now).1,
                        ),
                        None => (
                            self.drain(RunEnd::Completed).0,
                            self.drain(RunEnd::Completed).1,
                            counter.step(now).1,
                        ),
                    },
                }
            },
        }
    }

    /// The worker after one of its cycles in flight is completed. Nothing changes where
    /// no cycle is in flight.
    pub open spec fn complete(self) -> WorkerView {
        if self.in_flight > 0 {
            WorkerView { in_flight: (self.in_flight - 1) as nat, ..self }
        } else {
            self
        }
    }

    /// The worker after one of its cycles in flight has ended with a fault: the cycle is
    /// in flight no longer, and the worker admits no further cycle. A worker that is done
    /// stays as it is.
    pub open spec fn fail(self) -> WorkerView {
        if self.phase == Phase::Finished {
            self
        } else {
            WorkerView {
                phase: Phase::Draining,
                pending: None,
                end: RunEnd::Failed,
                ..self.complete()
            }
        }
    }
}

/// The scheduling state of one worker of a run.
#[derive(Debug)]
pub struct Worker {
    phase: Phase,
    concurrency: usize,
    in_flight: usize,
    pending: Option<(u64, u64)>,
    end: RunEnd,
}

impl View for Worker {
    type V = WorkerView;

    closed spec fn view(&self) -> WorkerView {
        WorkerView {
            phase: self.phase,
            concurrency: self.concurrency as nat,
            in_flight: self.in_flight as nat,
            pending: self.pending,
            end: self.end,
        }
    }
}

impl Worker {
    /// A worker that may keep `concurrency` cycles in flight. `None` where that is none.
    pub fn new(concurrency: usize) -> (r: Option<Worker>)
        ensures
            concurrency == 0 <==> r is None,
            r matches Some(worker) ==> worker@ == WorkerView::fresh(concurrency as nat) && worker@.wf(),
    {
        if concurrency == 0 {
            None
        } else {
            Some(
                Worker {
                    phase: Phase::Starting,
                    concurrency,
                    in_flight: 0,
                    pending: None,
                    end: RunEnd::Completed,
                },
            )
        }
    }

    /// Stops admitting cycles, the run ending as `end`.
    fn drain(&mut self, end: RunEnd) -> (action: Action)
        requires
            old(self)@.wf(),
            old(self).phase != Phase::Finished,
        ensures
            (action, final(self)@) == old(self)@.drain(end),
            final(self)@.wf(),
    {
        self.pending = None;
        self.end = end;
        if self.in_flight > 0 {
            self.phase = match end {
                RunEnd::Interrupted => Phase::Interrupted,
                _ => Phase::Draining,
            };
            Action::AwaitCompletion
        } else {
            self.phase = Phase::Finished;
            Action::Finish { end }
        }
    }

    /// Dispatches the cycle `(cycle, not_before)` where its time has come, and else holds
    /// it back.
    fn take_up(&mut self, cycle: u64, not_before: u64, now: u64) -> (action: Action)
        requires
            old(self)@.wf(),
            old(self).phase == Phase::Starting || old(self).phase == Phase::Running,
            old(self).in_flight < old(self).concurrency,
        ensures
            (action, final(self)@) == old(self)@.take_up(cycle, not_before, now),
            final(self)@.wf(),
    {
        self.phase = Phase::Running;
        if not_before <= now {
            self.in_flight = self.in_flight + 1;
            self.pending = None;
            Action::Dispatch { cycle }
        } else {
            self.pending = Some((cycle, not_before));
            Action::WaitUntil { time: not_before }
        }
    }

    /// Decides what the worker does at `now` on the run's clock. `interrupted` says
    /// whether the run is interrupted; `counter` is the source of cycles that the worker
    /// shares with the other workers of the run.
    pub fn poll(&mut self, counter: &mut CycleCounter, now: u64, interrupted: bool) -> (action:
        Action)
        requires
            old(self)@.wf(),
        ensures
            (action, final(self)@, final(counter)@) == old(self)@.poll(
                old(counter)@,
                now,
                interrupted,
            ),
            final(self)@.wf(),
    {
        match self.phase {
            Phase::Finished => Action::Finish { end: self.end },
            Phase::Draining => {
                let end = self.end;
                self.drain(end)
            },
            Phase::Interrupted => self.drain(RunEnd::Interrupted),
            Phase::Starting | Phase::Running => {
                if interrupted {
                    self.drain(RunEnd::Interrupted)
                } else if self.in_flight >= self.concurrency {
                    self.phase = Phase::Running;
                    Action::AwaitCompletion
                } else {
                    match self.pending {
                        Some((cycle, not_before)) => self.take_up(cycle, not_before, now),
                        None => match counter.next(now) {
                            Some((cycle, not_before)) => self.take_up(cycle, not_before, now),
                            None => self.drain(RunEnd::Completed),
                        },
                    }
                }
            },
        }
    }

    /// Takes note that one of the cycles in flight is completed.
    pub fn complete(&mut self)
        requires
            old(self)@.wf(),
        ensures
            final(self)@ == old(self)@.complete(),
            final(self)@.wf(),
    {
        if self.in_flight > 0 {
            self.in_flight = self.in_flight - 1;
        }
    }

    /// Takes note that one of the cycles in flight has ended with a fault.
    pub fn fail(&mut self)
        requires
            old(self)@.wf(),
        ensures
            final(self)@ == old(self)@.fail(),
            final(self)@.wf(),
    {
        match self.phase {
            Phase::Finished => {},
            _ => {
                if self.in_flight > 0 {
                    self.in_flight = self.in_flight - 1;
                }
                self.pending = None;
                self.end = RunEnd::Failed;
                self.phase = Phase::Draining;
            },
        }
    }

    /// The phase of the worker.
    pub fn phase(&self) -> (phase: Phase)
        ensures
            phase == self@.phase,
    {
        self.phase
    }

    /// The number of cycles in flight.
    pub fn in_flight(&self) -> (n: usize)
        ensures
            n == self@.in_flight,
    {
        self.in_flight
    }
}

/// A step of a worker keeps it well formed, and changes the number of its cycles in
/// flight only by a dispatch, which adds one.
pub proof fn lemma_poll_keeps_the_window(
    worker: WorkerView,
    counter: CounterView,
    now: u64,
    interrupted: bool,
)
    requires
        worker.wf(),
    ensures
        worker.poll(counter, now, interrupted).1.wf(),
        worker.poll(counter, now, interrupted).1.in_flight == if worker.poll(
            counter,
            now,
            interrupted,
        ).0 is Dispatch {
            worker.in_flight + 1
        } else {
            worker.in_flight
        },
        worker.poll(counter, now, interrupted).1.in_flight <= worker.concurrency,
        worker.poll(counter, now, interrupted).1.concurrency == worker.concurrency,
{
}

/// A worker that sees the run interrupted while it admits cycles dispatches nothing, then
/// or later; and when it stops it says that the run was interrupted.
pub proof fn lemma_interruption_stops_dispatch(
    worker: WorkerView,
    counter: CounterView,
    now: u64,
    interrupted: bool,
)
    requires
        worker.wf(),
        worker.end == RunEnd::Interrupted || (interrupted && (worker.phase == Phase::Starting
            || worker.phase == Phase::Running)),
    ensures
        !(worker.poll(counter, now, interrupted).0 is Dispatch),
        !(worker.poll(counter, now, interrupted).0 is WaitUntil),
        worker.poll(counter, now, interrupted).1.end == RunEnd::Interrupted,
        worker.poll(counter, now, interrupted).0 matches Action::Finish { end } ==> end
            == RunEnd::Interrupted,
        worker.poll(counter, now, interrupted).2 == counter,
{
}

/// A worker stops only when none of its cycles is in flight: every cycle that it has
/// dispatched is completed, and so is counted, before the worker is done.
pub proof fn lemma_finish_leaves_nothing_in_flight(
    worker: WorkerView,
    counter: CounterView,
    now: u64,
    interrupted: bool,
)
    requires
        worker.wf(),
    ensures
        worker.poll(counter, now, interrupted).0 is Finish ==> worker.in_flight == 0
            && worker.poll(counter, now, interrupted).1.phase == Phase::Finished,
        worker.in_flight > 0 ==> !(worker.poll(counter, now, interrupted).0 is Finish),
{
}

/// A worker that has seen the bound of the run or a fault admits no further cycle.
pub proof fn lemma_bound_stops_dispatch(
    worker: WorkerView,
    counter: CounterView,
    now: u64,
    interrupted: bool,
)
    requires
        worker.wf(),
        worker.phase == Phase::Draining || worker.phase == Phase::Finished,
    ensures
        !(worker.poll(counter, now, interrupted).0 is Dispatch),
        !(worker.poll(counter, now, interrupted).0 is WaitUntil),
        worker.poll(counter, now, interrupted).2 == counter,
{
}

/// A fault is not taken for an interruption, nor lost to one: a worker that has seen a
/// cycle fail says so when it stops, whether the run is interrupted or not.
pub proof fn lemma_fault_is_reported(
    worker: WorkerView,
    counter: CounterView,
    now: u64,
    interrupted: bool,
)
    requires
        worker.wf(),
        worker.phase != Phase::Finished,
    ensures
        worker.fail().wf(),
        worker.fail().poll(counter, now, interrupted).1.end == RunEnd::Failed,
        worker.fail().poll(counter, now, interrupted).0 matches Action::Finish { end } ==> end
            == RunEnd::Failed,
        !(worker.fail().poll(counter, now, interrupted).0 is Dispatch),
{
}

/// A worker dispatches a cycle only when the time of the cycle has come: the cycle is the
/// one that the worker held back or that the counter hands out now, and it may start at
/// `now` or before.
pub proof fn lemma_dispatch_waits_for_its_time(
    worker: WorkerView,
    counter: CounterView,
    now: u64,
    interrupted: bool,
    cycle: u64,
)
    requires
        worker.wf(),
        worker.poll(counter, now, interrupted).0 == (Action::Dispatch { cycle }),
    ensures
        match worker.pending {
            Some((held, not_before)) => held == cycle && not_before <= now,
            None => counter.step(now).0 matches Some((handed, not_before)) && handed == cycle
                && not_before <= now,
        },
{
}

} // verus!
