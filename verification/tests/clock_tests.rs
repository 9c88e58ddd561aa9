use timez_core::clock::{elapsed_since, now, seconds_between, Instant, MAX_INSTANT_NANOS, MIN_INSTANT_NANOS};

fn ns(n: i128) -> Instant {
    Instant::from_nanos(n).unwrap()
}

#[test]
fn instants_stay_in_chrono_range() {
    assert!(Instant::from_nanos(MIN_INSTANT_NANOS).is_some());
    assert!(Instant::from_nanos(MAX_INSTANT_NANOS).is_some());
    assert!(Instant::from_nanos(MIN_INSTANT_NANOS - 1).is_none());
    assert!(Instant::from_nanos(MAX_INSTANT_NANOS + 1).is_none());
    assert_eq!(Instant::epoch().nanos(), 0);
    assert_eq!(ns(42).nanos(), 42);
}

#[test]
fn whole_seconds_truncate_toward_zero() {
    assert_eq!(seconds_between(ns(11_000_100_000), ns(10_000_900_000)), 0);
    assert_eq!(seconds_between(ns(12_000_000_000), ns(10_000_000_001)), 1);
    assert_eq!(seconds_between(ns(10_000_000_000), ns(12_500_000_000)), -2);
    assert_eq!(seconds_between(ns(MAX_INSTANT_NANOS), ns(MIN_INSTANT_NANOS)), 16_544_868_191_999);
    assert_eq!(elapsed_since(ns(10_000_000_000), ns(12_500_000_000)), 0);
    assert_eq!(elapsed_since(ns(12_999_999_999), ns(10_000_000_000)), 2);
}

#[test]
fn seconds_earlier_follows_chrono_limits() {
    assert_eq!(ns(5_000_000_000).seconds_earlier(3), Some(ns(2_000_000_000)));
    assert_eq!(ns(0).seconds_earlier(8_334_601_315_200), Some(ns(MIN_INSTANT_NANOS)));
    assert_eq!(ns(0).seconds_earlier(8_334_601_315_201), None);
    assert_eq!(ns(MAX_INSTANT_NANOS).seconds_earlier(9_223_372_036_854_776), None);
}

#[test]
fn the_clock_reads_a_recent_instant() {
    let a = now().unwrap();
    // Some time after 2020-09-13.
    assert!(a.nanos() > 1_600_000_000_000_000_000);
}
