use flood::config::RpcCommand;
use flood::interval::{Interval, TimeSpan};
use flood::workload::{
    clamp_span, CallOutcome, Context, FnStats, SessionStats, Workload, WorkloadState,
};

fn settings(random: bool, choose: bool) -> RpcCommand {
    RpcCommand {
        method: Some("eth_blockNumber".to_string()),
        params: Some(Vec::new()),
        raw: false,
        warmup_duration: Interval::Count(1),
        run_duration: Interval::Count(100),
        threads: 1,
        concurrency: 4,
        sampling_interval: Interval::Unbounded,
        tags: Vec::new(),
        input: None,
        output: None,
        baseline: None,
        quiet: true,
        random,
        choose,
        rpc_url: Vec::new(),
        exp_ramp: false,
        timestamp: None,
        num_req: None,
        cluster_name: None,
        chain_id: None,
    }
}

fn nanos(n: u64) -> TimeSpan {
    TimeSpan::from_nanos(n)
}

#[test]
fn spans_are_clamped_to_the_range_of_latencies() {
    assert_eq!(clamp_span(&nanos(0)), 1);
    assert_eq!(clamp_span(&nanos(1)), 1);
    assert_eq!(clamp_span(&nanos(12_345)), 12_345);
    assert_eq!(clamp_span(&TimeSpan { secs: u64::MAX, nanos: 0 }), u64::MAX);
    assert_eq!(clamp_span(&TimeSpan { secs: 18_446_744_073, nanos: 709_551_615 }), u64::MAX);
    assert_eq!(
        clamp_span(&TimeSpan { secs: 18_446_744_073, nanos: 709_551_614 }),
        u64::MAX - 1
    );
}

#[test]
fn completed_operations_are_counted_and_timed() {
    let mut stats = FnStats::default();
    assert_eq!(stats.workload_count, 0);
    stats.operation_completed(nanos(1_000));
    stats.operation_completed(nanos(0));
    stats.operation_completed(nanos(2_000));
    assert_eq!(stats.workload_count, 3);
    assert_eq!(stats.workload_times_ns.len(), 3);
    assert_eq!(stats.workload_times_ns.min(), 1);
    assert_eq!(stats.workload_times_ns.max(), 2_000);
    let copy = stats.clone();
    stats.operation_completed(nanos(5));
    assert_eq!(copy.workload_count, 3);
    assert_eq!(copy.workload_times_ns.len(), 3);
}

#[test]
fn completed_requests_are_counted_with_their_failures() {
    let mut stats = SessionStats::new();
    stats.complete_request(nanos(700), true);
    stats.complete_request(nanos(900), false);
    stats.complete_request(nanos(0), false);
    assert_eq!(stats.req_count, 3);
    assert_eq!(stats.req_error_count, 2);
    assert_eq!(stats.resp_times_ns.len(), 3);
    assert_eq!(stats.resp_times_ns.min(), 1);
    assert_eq!(stats.resp_times_ns.max(), 900);
}

#[test]
fn context_hands_out_its_statistics_once() {
    let mut context = Context::new();
    context.stats.complete_request(nanos(10), false);
    let taken = context.take_session_stats();
    assert_eq!(taken.req_count, 1);
    assert_eq!(taken.req_error_count, 1);
    assert_eq!(context.stats.req_count, 0);
    assert_eq!(context.stats.req_error_count, 0);
    assert_eq!(context.stats.resp_times_ns.len(), 0);
    context.stats.complete_request(nanos(10), true);
    context.reset_session_stats();
    assert_eq!(context.stats.req_count, 0);
}

#[test]
fn state_starts_empty() {
    let state = WorkloadState::new(55);
    assert_eq!(state.start_time, 55);
    assert_eq!(state.fn_stats.workload_count, 0);
}

#[test]
fn cycle_order_is_the_order_given() {
    let workload = Workload::new(Context::new(), 5, &settings(false, false));
    assert_eq!(workload.cycle_order(), vec![0, 1, 2, 3, 4]);
    let empty = Workload::new(Context::new(), 0, &settings(false, false));
    assert_eq!(empty.cycle_order(), Vec::<usize>::new());
}

#[test]
fn random_order_sends_every_call_once() {
    let workload = Workload::new(Context::new(), 50, &settings(true, false));
    let mut moved = false;
    for _ in 0..20 {
        let mut order = workload.cycle_order();
        assert_eq!(order.len(), 50);
        if order != (0..50).collect::<Vec<usize>>() {
            moved = true;
        }
        order.sort();
        assert_eq!(order, (0..50).collect::<Vec<usize>>());
    }
    assert!(moved);
}

#[test]
fn random_goes_before_choose() {
    let workload = Workload::new(Context::new(), 7, &settings(true, true));
    let mut order = workload.cycle_order();
    order.sort();
    assert_eq!(order, (0..7).collect::<Vec<usize>>());
}

#[test]
fn choose_sends_one_call() {
    let workload = Workload::new(Context::new(), 6, &settings(false, true));
    let mut seen = [false; 6];
    for _ in 0..200 {
        let order = workload.cycle_order();
        assert_eq!(order.len(), 1);
        assert!(order[0] < 6);
        seen[order[0]] = true;
    }
    assert!(seen.iter().filter(|s| **s).count() > 1);
    let empty = Workload::new(Context::new(), 0, &settings(false, true));
    assert!(empty.cycle_order().is_empty());
}

#[test]
fn calls_and_cycles_are_recorded() {
    let mut workload = Workload::new(Context::new(), 2, &settings(false, false));
    let outcomes = vec![
        CallOutcome { duration: nanos(1_000), ok: true },
        CallOutcome { duration: nanos(1_700), ok: false },
    ];
    workload.call(&outcomes);
    assert_eq!(workload.run(7, 10_000, 11_500), (7, 11_500));
    assert_eq!(workload.context().stats.req_count, 2);
    assert_eq!(workload.context().stats.req_error_count, 1);
    let stats = workload.take_stats(20_000);
    assert_eq!(stats.start_time, 0);
    assert_eq!(stats.end_time, 20_000);
    assert_eq!(stats.workload_stats.workload_count, 1);
    assert_eq!(stats.workload_stats.workload_times_ns.max(), 1_500);
    assert_eq!(stats.session_stats.req_count, 2);
    assert_eq!(stats.session_stats.req_error_count, 1);
    assert_eq!(stats.session_stats.resp_times_ns.max(), 1_700);
    assert_eq!(stats.session_stats.resp_times_ns.min(), 1_000);
}

#[test]
fn a_cycle_that_ends_before_it_starts_takes_one_nanosecond() {
    let mut workload = Workload::new(Context::new(), 1, &settings(false, false));
    assert_eq!(workload.run(0, 500, 400), (0, 400));
    let stats = workload.take_stats(600);
    assert_eq!(stats.workload_stats.workload_count, 1);
    assert_eq!(stats.workload_stats.workload_times_ns.max(), 1);
}

#[test]
fn a_cycle_with_failed_calls_is_still_counted() {
    let mut workload = Workload::new(Context::new(), 1, &settings(false, false));
    workload.call(&vec![CallOutcome { duration: nanos(10), ok: false }]);
    workload.run(0, 0, 10);
    let stats = workload.take_stats(10);
    assert_eq!(stats.workload_stats.workload_count, 1);
    assert_eq!(stats.session_stats.req_error_count, 1);
}

#[test]
fn reset_discards_what_was_counted() {
    let mut workload = Workload::new(Context::new(), 1, &settings(false, false));
    for cycle in 0..5 {
        workload.call(&vec![CallOutcome { duration: nanos(10), ok: cycle % 2 == 0 }]);
        workload.run(cycle, 0, 10);
    }
    workload.reset(1_000);
    let stats = workload.take_stats(2_000);
    assert_eq!(stats.start_time, 1_000);
    assert_eq!(stats.end_time, 2_000);
    assert_eq!(stats.workload_stats.workload_count, 0);
    assert_eq!(stats.session_stats.req_count, 0);
    assert_eq!(stats.session_stats.req_error_count, 0);
}

#[test]
fn statistics_report_the_cycles_since_the_reset() {
    let mut workload = Workload::new(Context::new(), 1, &settings(false, false));
    workload.run(0, 0, 10);
    workload.reset(1_000);
    for cycle in 0..9 {
        workload.run(cycle, 1_000, 1_500);
    }
    let stats = workload.take_stats(5_000);
    assert_eq!(stats.start_time, 1_000);
    assert_eq!(stats.workload_stats.workload_count, 9);
    assert_eq!(stats.workload_stats.workload_times_ns.len(), 9);
    let next = workload.take_stats(6_000);
    assert_eq!(next.start_time, 5_000);
    assert_eq!(next.end_time, 6_000);
    assert_eq!(next.workload_stats.workload_count, 0);
}

#[test]
fn clone_has_counters_of_its_own() {
    let mut workload = Workload::new(Context::new(), 3, &settings(false, false));
    workload.run(0, 0, 10);
    workload.call(&vec![CallOutcome { duration: nanos(10), ok: true }]);
    let mut copy = workload.clone();
    assert_eq!(copy.cycle_order(), vec![0, 1, 2]);
    copy.run(0, 0, 10);
    copy.run(1, 0, 10);
    assert_eq!(copy.take_stats(10).workload_stats.workload_count, 2);
    let stats = workload.take_stats(10);
    assert_eq!(stats.workload_stats.workload_count, 1);
    assert_eq!(stats.session_stats.req_count, 1);
}
