use grafana_sync::lexical::comes_before;
use grafana_sync::timestamp::Timestamp;

#[test]
fn later_and_same_instants() {
    let a = Timestamp::new(10, 5);
    let b = Timestamp::new(10, 6);
    let c = Timestamp::new(11, 0);
    assert!(b.is_after(&a));
    assert!(!a.is_after(&b));
    assert!(c.is_after(&b));
    assert!(!a.is_after(&a));
    assert!(a.is_same_instant(&Timestamp::new(10, 5)));
    assert!(!a.is_same_instant(&b));
    assert!(Timestamp::new(-1, 999_999_999).is_after(&Timestamp::new(-2, 0)));
    assert!(Timestamp::new(0, 0).is_after(&Timestamp::new(-1, 999_999_999)));
}

#[test]
fn an_instant_is_seconds_and_nanoseconds_together() {
    assert!(Timestamp::new(1, 0).is_same_instant(&Timestamp::new(0, 1_000_000_000)));
    assert!(Timestamp::new(0, 1_500_000_000).is_after(&Timestamp::new(1, 0)));
}

#[test]
fn an_age_is_measured_to_the_nanosecond() {
    let then = Timestamp::new(1000, 500);
    assert!(!Timestamp::new(1000 + 60, 500).is_older_than(&then, 1));
    assert!(Timestamp::new(1000 + 60, 501).is_older_than(&then, 1));
    assert!(Timestamp::new(1000 + 90, 500).is_older_than(&then, 1));
    assert!(!Timestamp::new(1000 + 60, 499).is_older_than(&then, 1));
    assert!(Timestamp::new(1000, 501).is_older_than(&then, 0));
    assert!(!Timestamp::new(1000, 500).is_older_than(&then, 0));
    assert!(!Timestamp::new(0, 0).is_older_than(&then, 0));
    assert!(!Timestamp::new(i64::MAX, 0).is_older_than(&Timestamp::new(i64::MIN, 0), u128::MAX));
    assert!(!Timestamp::new(i64::MAX, 0).is_older_than(&Timestamp::new(i64::MIN, 0), 1 << 64));
    assert!(Timestamp::new(i64::MAX, 0).is_older_than(&Timestamp::new(i64::MIN, 0), 1 << 57));
}

#[test]
fn the_clock_gives_a_time_of_this_century() {
    let now = Timestamp::now();
    assert!(now.secs > 1_600_000_000);
    assert!(now.nanos < 1_000_000_000);
    let later = Timestamp::now();
    assert!(!now.is_after(&later));
}

#[test]
fn names_are_ordered_byte_by_byte() {
    assert!(comes_before("a", "b"));
    assert!(!comes_before("b", "a"));
    assert!(comes_before("a", "ab"));
    assert!(!comes_before("ab", "a"));
    assert!(comes_before("", "a"));
    assert!(!comes_before("", ""));
    assert!(!comes_before("same", "same"));
    assert!(comes_before("http://a:3000", "http://b:3000"));
    assert!(comes_before("Z", "a"));
    assert!(comes_before("z", "\u{e9}"));
    assert!(comes_before("\u{e9}", "\u{4e2d}"));
    assert_eq!(comes_before("grafana-10", "grafana-9"), "grafana-10" < "grafana-9");
}
