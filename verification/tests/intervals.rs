use flood::interval::{Interval, TimeSpan, INVALID_INTERVAL};
use std::str::FromStr;

fn secs(secs: u64) -> Interval {
    Interval::Time(TimeSpan { secs, nanos: 0 })
}

fn same(a: Result<Interval, String>, b: Interval) -> bool {
    match (a, b) {
        (Ok(Interval::Count(x)), Interval::Count(y)) => x == y,
        (Ok(Interval::Time(x)), Interval::Time(y)) => x == y,
        (Ok(Interval::Unbounded), Interval::Unbounded) => true,
        _ => false,
    }
}

#[test]
fn span_in_nanoseconds() {
    assert_eq!(TimeSpan { secs: 2, nanos: 5 }.as_nanos(), 2_000_000_005);
    assert_eq!(TimeSpan { secs: u64::MAX, nanos: 999_999_999 }.as_nanos(), 18_446_744_073_709_551_615_999_999_999);
    assert_eq!(TimeSpan::from_nanos(3_000_000_007), TimeSpan { secs: 3, nanos: 7 });
    assert_eq!(TimeSpan::from_nanos(0), TimeSpan { secs: 0, nanos: 0 });
    assert_eq!(TimeSpan { secs: 1, nanos: 1 }.saturating_nanos(), 1_000_000_001);
    assert_eq!(TimeSpan { secs: u64::MAX, nanos: 0 }.saturating_nanos(), u64::MAX);
    assert!(TimeSpan { secs: 0, nanos: 0 }.is_zero());
    assert!(!TimeSpan { secs: 0, nanos: 1 }.is_zero());
    assert!(!TimeSpan { secs: 1, nanos: 0 }.is_zero());
}

#[test]
fn zero_intervals_ask_for_no_work() {
    assert!(!Interval::Count(0).is_not_zero());
    assert!(Interval::Count(1).is_not_zero());
    assert!(!secs(0).is_not_zero());
    assert!(Interval::Time(TimeSpan { secs: 0, nanos: 1 }).is_not_zero());
    assert!(!Interval::Unbounded.is_not_zero());
}

#[test]
fn only_unbounded_is_not_bounded() {
    assert!(Interval::Count(0).is_bounded());
    assert!(secs(3).is_bounded());
    assert!(!Interval::Unbounded.is_bounded());
}

#[test]
fn count_of_an_interval() {
    assert_eq!(Interval::Count(7).count(), Some(7));
    assert_eq!(secs(7).count(), None);
    assert_eq!(Interval::Unbounded.count(), None);
}

#[test]
fn reaching_an_interval() {
    assert!(Interval::Count(0).is_reached(0, 0));
    assert!(secs(0).is_reached(0, 0));
    assert!(!Interval::Unbounded.is_reached(u64::MAX, u64::MAX));
    assert!(!Interval::Count(3).is_reached(2, u64::MAX));
    assert!(Interval::Count(3).is_reached(3, 0));
    assert!(!secs(1).is_reached(u64::MAX, 999_999_999));
    assert!(secs(1).is_reached(0, 1_000_000_000));
}

#[test]
fn numbers_are_counts() {
    assert!(same(Interval::parse("1000"), Interval::Count(1000)));
    assert!(same(Interval::parse("0"), Interval::Count(0)));
    assert!(same(Interval::parse("+5"), Interval::Count(5)));
    assert!(same(Interval::parse("18446744073709551615"), Interval::Count(u64::MAX)));
    assert!(same(Interval::from_str("12"), Interval::Count(12)));
}

#[test]
fn texts_with_units_are_spans() {
    assert!(same(Interval::parse("60s"), secs(60)));
    assert!(same(Interval::parse("1 min"), secs(60)));
    assert!(same(Interval::parse("1h 30m"), secs(5400)));
    assert!(same(
        Interval::parse("1500ms"),
        Interval::Time(TimeSpan { secs: 1, nanos: 500_000_000 })
    ));
    assert!(same(
        Interval::parse("1.5s"),
        Interval::Time(TimeSpan { secs: 1, nanos: 500_000_000 })
    ));
    assert!(same(Interval::parse("1e3s"), secs(1000)));
    assert!(same(Interval::parse("2 seconds"), secs(2)));
    assert!(same(Interval::from_str("3s"), secs(3)));
}

#[test]
fn a_number_too_large_for_a_count_is_a_span_of_seconds_or_nothing() {
    assert!(Interval::parse("18446744073709551616").is_err());
    assert!(same(Interval::parse(" 12 "), secs(12)));
}

#[test]
fn other_texts_are_refused() {
    for text in ["", "abc", "-5", "s", "5 parsecs", "1e4000s", "5e-12345s", "1E+0001s"] {
        match Interval::parse(text) {
            Err(e) => assert_eq!(e, INVALID_INTERVAL),
            Ok(_) => panic!("{} was read as an interval", text),
        }
    }
}

#[test]
fn readings_put_the_count_first() {
    assert!(same(Interval::from_readings(Some(4), Some((9, 9))), Interval::Count(4)));
    assert!(same(
        Interval::from_readings(None, Some((9, 8))),
        Interval::Time(TimeSpan { secs: 9, nanos: 8 })
    ));
    assert!(Interval::from_readings(None, None).is_err());
}
