use challenges::duration::{Duration, UnitFmt};
use challenges::notation::DurationParseError;

fn secs(v: f64) -> Duration {
    Duration::from_ticks((v * 10_000.0).round() as i64)
}

#[test]
fn print_durations() {
    let dont_round = UnitFmt {
        metric: false,
        round_durations: false,
    };
    let round = UnitFmt {
        metric: false,
        round_durations: true,
    };

    assert_eq!("0s", Duration::zero().to_string(&dont_round));
    assert_eq!("0s", secs(0.001).to_string(&dont_round));
    assert_eq!("1min 30.1s", secs(90.123).to_string(&dont_round));
    assert_eq!("1min 30s", secs(90.123).to_string(&round));
    assert_eq!(
        "2hr 33min 5s",
        Duration::hours(2)
            .plus(Duration::minutes(33))
            .plus(secs(5.0))
            .to_string(&dont_round)
    );
    assert_eq!("3hr", Duration::hours(3).to_string(&dont_round));
    assert_eq!("42min", Duration::minutes(42).to_string(&dont_round));
}

#[test]
fn negative_durations_keep_their_sign() {
    let fmt = UnitFmt {
        metric: false,
        round_durations: false,
    };
    assert_eq!("-1min 30.1s", secs(-90.123).to_string(&fmt));
    assert_eq!("0s", secs(-0.05).to_string(&fmt));
    assert_eq!("1hr 5s", secs(3605.0).to_string(&fmt));
}

#[test]
fn ticks_round_trip() {
    for v in [0.0, 90.123, -12.5, 86_400.0, 0.0001, 123_456.789_1] {
        let d = secs(v);
        assert_eq!(Duration::from_ticks(d.to_ticks()), d);
        assert!((d.to_ticks() as f64 / 10_000.0 - v).abs() <= 0.0001);
    }
    assert_eq!(Duration::from_ticks(i64::MAX).to_ticks(), i64::MAX);
    assert_eq!(Duration::from_u64(42).to_u64(), 42);
    for t in [-1, -90_123, i64::MIN, i64::MAX, 0] {
        let d = Duration::from_ticks(t);
        assert_eq!(Duration::from_u64(d.to_u64()), d);
    }
    assert_eq!(Duration::from_ticks(-1).to_u64(), u64::MAX);
    assert_eq!(Duration::from_u64(u64::MAX), Duration::from_ticks(-1));
    assert_eq!(secs(1.5).to_ticks(), 15_000);
}

#[test]
fn add_then_subtract_is_exact() {
    let a = secs(0.1);
    let b = secs(0.2);
    assert_eq!(a.plus(b).minus(b), a);
    assert_eq!(a.plus(b).to_ticks(), 3_000);
    assert_eq!(Duration::minutes(2).times(3), Duration::minutes(6));
    assert_eq!(Duration::seconds(7).to_ticks(), 70_000);
    assert_eq!(Duration::minutes(10).divided_by(4), secs(150.0));
    assert_eq!(Duration::from_ticks(5).divided_by(2), Duration::from_ticks(3));
    assert_eq!(Duration::from_ticks(-5).divided_by(2), Duration::from_ticks(-3));
    assert_eq!(Duration::from_ticks(7).divided_by(-3), Duration::from_ticks(-2));
}

#[test]
fn remainder_and_rounding() {
    assert_eq!(secs(7.0).modulo(secs(5.0)), secs(2.0));
    assert_eq!(secs(-7.0).modulo(secs(5.0)), secs(-2.0));
    assert_eq!(Duration::minutes(7).round_up(Duration::minutes(5)), Duration::minutes(10));
    assert_eq!(Duration::minutes(10).round_up(Duration::minutes(5)), Duration::minutes(10));
    assert_eq!(secs(-7.0).round_up(secs(5.0)), Duration::zero());
}

#[test]
fn epsilon_equality() {
    assert!(secs(1.0).epsilon_eq(secs(1.05)));
    assert!(!secs(1.0).epsilon_eq(secs(1.1)));
    assert!(secs(1.1).epsilon_eq(secs(1.1)));
}

#[test]
fn minutes_rounded_up() {
    assert_eq!(Duration::minutes(3).num_minutes_rounded_up(), 3);
    assert_eq!(secs(181.0).num_minutes_rounded_up(), 4);
    assert_eq!(secs(180.1).num_minutes_rounded_up(), 4);
    assert_eq!(secs(180.05).num_minutes_rounded_up(), 3);
    assert_eq!(Duration::hours(2).num_minutes_rounded_up(), 120);
    assert_eq!(secs(3723.4).get_parts(), (1, 2, 3, 4));
}

#[test]
fn intervals_for_axis() {
    let (max, labels) = Duration::minutes(43).make_intervals_for_max(5);
    assert_eq!(max, Duration::minutes(50));
    assert_eq!(labels, vec![0, 10, 20, 30, 40, 50]);

    let (max, labels) = Duration::minutes(8).make_intervals_for_max(5);
    assert_eq!(max, Duration::minutes(10));
    assert_eq!(labels, vec![0, 2, 4, 6, 8, 10]);

    assert_eq!(
        Duration::minutes(43).try_make_intervals_for_max(5),
        Some((Duration::minutes(50), vec![0, 10, 20, 30, 40, 50]))
    );
    assert_eq!(Duration::minutes(43).try_make_intervals_for_max(0), None);
    let just_over = Duration::minutes(25).plus(secs(0.05));
    assert_eq!(just_over.try_make_intervals_for_max(5), None);
}

#[test]
fn parse_notation() {
    assert_eq!(Duration::parse("3:00"), Ok(Duration::minutes(3)));
    assert_eq!(Duration::parse("1:02:03"), Ok(secs(3723.0)));
    assert_eq!(Duration::parse("42"), Ok(secs(42.0)));
    assert_eq!(Duration::parse("5.5"), Ok(secs(5.5)));
    assert_eq!(Duration::parse("1:30.2"), Ok(secs(90.2)));
    assert_eq!(Duration::parse("1.2.3"), Err(DurationParseError::BadFraction));
    assert_eq!(Duration::parse("30.25"), Ok(secs(30.25)));
    assert_eq!(Duration::parse("0:30.0005"), Ok(Duration::from_ticks(300_005)));
    assert_eq!(Duration::parse("30.12345"), Err(DurationParseError::BadFraction));
    assert_eq!(Duration::parse("1:2:3:4"), Err(DurationParseError::BadPartCount));
    assert_eq!(Duration::parse("x:00"), Err(DurationParseError::BadNumber));
    assert_eq!(Duration::parse(""), Err(DurationParseError::BadNumber));
    assert_eq!(
        Duration::parse("99999999999999999999"),
        Err(DurationParseError::TooLong)
    );
}

#[test]
fn sum_and_default() {
    let v = vec![secs(1.5), secs(2.25), secs(-0.75)];
    assert_eq!(Duration::sum(&v), secs(3.0));
    assert_eq!(Duration::sum(&Vec::new()), Duration::zero());
    assert_eq!(Duration::default(), Duration::zero());
}
