use jobacct::{Duration, MAX_NANOS, NANOS_PER_SEC};

#[test]
fn constructors_agree_on_units() {
    assert_eq!(Duration::from_secs(2), Duration::from_millis(2_000));
    assert_eq!(Duration::from_millis(3), Duration::from_micros(3_000));
    assert_eq!(Duration::from_micros(4), Duration::from_nanos(4_000));
    assert_eq!(Duration::new(1, 500_000_000), Duration::from_millis(1_500));
    assert_eq!(Duration::zero().as_nanos(), 0);
}

#[test]
fn new_carries_nanoseconds_into_seconds() {
    let d = Duration::new(1, 2_500_000_000);
    assert_eq!(d.as_secs(), 3);
    assert_eq!(d.subsec_nanos(), 500_000_000);
}

#[test]
fn parts_of_a_span() {
    let d = Duration::from_millis(12_345);
    assert_eq!(d.as_secs(), 12);
    assert_eq!(d.subsec_nanos(), 345_000_000);
    assert_eq!(d.as_nanos(), 12_345_000_000);
}

#[test]
fn ticks_round_to_nearest_nanosecond() {
    assert_eq!(Duration::from_ticks(250, 100), Duration::from_millis(2_500));
    assert_eq!(Duration::from_ticks(1, 3).as_nanos(), 333_333_333);
    assert_eq!(Duration::from_ticks(2, 3).as_nanos(), 666_666_667);
    assert_eq!(Duration::from_ticks(1, 2_000_000_000).as_nanos(), 1);
    assert_eq!(Duration::from_ticks(0, 100), Duration::zero());
}

#[test]
fn saturating_add_adds_and_caps() {
    let a = Duration::from_millis(10);
    let b = Duration::from_millis(5);
    assert_eq!(a.saturating_add(b), Duration::from_millis(15));
    let max = Duration::max_value();
    assert_eq!(max.as_nanos(), MAX_NANOS);
    assert_eq!(max.as_secs(), u64::MAX);
    assert_eq!(max.subsec_nanos() as u128, NANOS_PER_SEC - 1);
    assert_eq!(max.saturating_add(Duration::from_nanos(1)), max);
    assert_eq!(Duration::from_secs(u64::MAX).saturating_add(Duration::from_secs(1)), max);
}

#[test]
fn spans_order_by_length() {
    assert!(Duration::from_millis(50) <= Duration::from_millis(400));
    assert!(Duration::from_secs(5) > Duration::from_millis(4_999));
}

#[test]
fn scaled_ticks_round_down_and_cap() {
    assert_eq!(Duration::from_scaled_ticks(3, 125, 3), Duration::from_nanos(125));
    assert_eq!(Duration::from_scaled_ticks(10, 1, 3), Duration::from_nanos(3));
    assert_eq!(Duration::from_scaled_ticks(u64::MAX, u32::MAX, 1), Duration::max_value());
}
