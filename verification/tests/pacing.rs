use flood::cycle::{period_for_rate, CycleCounter};
use flood::interval::{Interval, TimeSpan};

#[test]
fn period_of_a_rate() {
    assert_eq!(period_for_rate(1), 1_000_000_000);
    assert_eq!(period_for_rate(1_000), 1_000_000);
    assert_eq!(period_for_rate(3), 333_333_333);
    assert_eq!(period_for_rate(1_000_000_000), 1);
    assert_eq!(period_for_rate(2_000_000_000), 1);
    assert_eq!(period_for_rate(u64::MAX), 1);
    assert_eq!(period_for_rate(0), u64::MAX);
}

#[test]
fn paced_count_hands_out_every_cycle_once() {
    let rate = 1_000;
    let period = period_for_rate(rate);
    let start = 5_000_000;
    let mut counter = CycleCounter::new(Interval::Count(50), vec![period], start);
    let mut last: Option<(u64, u64)> = None;
    let mut handed = 0;
    let mut now = start;
    loop {
        match counter.next(now) {
            Some((cycle, not_before)) => {
                assert_eq!(cycle, handed);
                assert_eq!(not_before, start + cycle * period);
                if let Some((_, before)) = last {
                    assert!(not_before - before >= 1_000_000_000 / rate);
                }
                last = Some((cycle, not_before));
                handed += 1;
                now += 17;
            }
            None => break,
        }
    }
    assert_eq!(handed, 50);
    assert_eq!(counter.next(now), None);
    assert_eq!(counter.next(u64::MAX), None);
}

#[test]
fn count_of_zero_is_reached_at_once() {
    let mut counter = CycleCounter::new(Interval::Count(0), Vec::new(), 0);
    assert_eq!(counter.next(0), None);
    let mut counter = CycleCounter::new(Interval::Time(TimeSpan { secs: 0, nanos: 0 }), Vec::new(), 9);
    assert_eq!(counter.next(9), None);
}

#[test]
fn unbounded_run_never_stops() {
    let mut counter = CycleCounter::new(Interval::Unbounded, Vec::new(), 100);
    for cycle in 0..1_000 {
        assert_eq!(counter.next(u64::MAX), Some((cycle, 100)));
    }
}

#[test]
fn time_bound_stops_when_the_time_has_passed() {
    let start = 1_000;
    let span = TimeSpan { secs: 0, nanos: 500 };
    let mut counter = CycleCounter::new(Interval::Time(span), Vec::new(), start);
    assert_eq!(counter.next(1_000), Some((0, start)));
    assert_eq!(counter.next(1_250), Some((1, start)));
    assert_eq!(counter.next(1_499), Some((2, start)));
    assert_eq!(counter.next(1_500), None);
    assert_eq!(counter.next(1_499), Some((3, start)));
    assert_eq!(counter.next(2_000), None);
    assert_eq!(counter.next(u64::MAX), None);
}

#[test]
fn paced_time_bound_hands_out_no_cycle_that_starts_after_the_bound() {
    let span = TimeSpan { secs: 0, nanos: 1_000 };
    let mut counter = CycleCounter::new(Interval::Time(span), vec![400], 0);
    assert_eq!(counter.next(0), Some((0, 0)));
    assert_eq!(counter.next(0), Some((1, 400)));
    assert_eq!(counter.next(0), Some((2, 800)));
    assert_eq!(counter.next(0), None);
}

#[test]
fn a_clock_before_the_start_counts_as_the_start() {
    let mut counter = CycleCounter::new(Interval::Time(TimeSpan { secs: 0, nanos: 10 }), Vec::new(), 100);
    assert_eq!(counter.next(0), Some((0, 100)));
    assert_eq!(counter.next(109), Some((1, 100)));
    assert_eq!(counter.next(110), None);
}

#[test]
fn stages_divide_a_count_in_equal_parts() {
    let mut counter = CycleCounter::new(Interval::Count(6), vec![100, 10, 1], 0);
    let mut starts = Vec::new();
    while let Some((_, not_before)) = counter.next(0) {
        starts.push(not_before);
    }
    assert_eq!(starts, vec![0, 100, 200, 210, 220, 221]);
}

#[test]
fn stages_divide_a_span_in_equal_parts() {
    let span = TimeSpan { secs: 0, nanos: 300 };
    let mut counter = CycleCounter::new(Interval::Time(span), vec![50, 25], 1_000);
    let mut starts = Vec::new();
    while let Some((_, not_before)) = counter.next(1_000) {
        starts.push(not_before);
    }
    assert_eq!(starts, vec![1_000, 1_050, 1_100, 1_150, 1_175, 1_200, 1_225, 1_250, 1_275]);
}

#[test]
fn unbounded_run_stays_in_the_first_stage() {
    let mut counter = CycleCounter::new(Interval::Unbounded, vec![7, 1], 0);
    assert_eq!(counter.next(0), Some((0, 0)));
    assert_eq!(counter.next(0), Some((1, 7)));
    assert_eq!(counter.next(0), Some((2, 14)));
}

#[test]
fn starts_stop_at_the_end_of_the_clock() {
    let mut counter = CycleCounter::new(Interval::Count(3), vec![u64::MAX], 10);
    assert_eq!(counter.next(10), Some((0, 10)));
    assert_eq!(counter.next(10), Some((1, u64::MAX)));
    assert_eq!(counter.next(10), Some((2, u64::MAX)));
    assert_eq!(counter.next(10), None);
}

#[test]
fn bound_of_a_counter() {
    let counter = CycleCounter::new(Interval::Count(3), Vec::new(), 0);
    assert_eq!(counter.bound().count(), Some(3));
}
