use camloc::values::{nanos_parts, resolve_choice_or_default, GenerationalValue, TimeValidatedValue};
use std::time::{Duration, Instant};

#[test]
fn generational_value_counts_sets() {
    let mut g = GenerationalValue::new("a");
    assert_eq!(g.generation(), 0);
    g.set("b");
    g.set("c");
    assert_eq!(*g.get(), "c");
    assert_eq!(g.generation(), 2);
    let h = GenerationalValue::new_with_generation(1, 41);
    assert_eq!(h.generation(), 41);
}

#[test]
fn time_validated_value_invalid_start() {
    let v: TimeValidatedValue<u32> = TimeValidatedValue::new_invalid(Duration::from_millis(1).as_nanos()).unwrap();
    let t0 = Instant::now();
    while t0.elapsed() < Duration::from_millis(2) {}
    assert_eq!(v.get(), None);
    let mut w = TimeValidatedValue::new(3, Duration::from_secs(60).as_nanos());
    assert_eq!(w.get(), Some(&3));
    w.set(4);
    assert_eq!(w.get(), Some(&4));
    let t = Instant::now();
    w.set_with_time(5, t);
    assert_eq!(w.last_changed(), t);
    let old = TimeValidatedValue::new_with_change(9, Duration::from_millis(1).as_nanos(), t - Duration::from_secs(1));
    assert!(!old.is_valid());
}

#[test]
fn choice_with_default_fallback() {
    let m = vec![1, 4];
    assert_eq!(resolve_choice_or_default(&m, Some(1), None), Ok(4));
    assert_eq!(resolve_choice_or_default(&m, Some(2), Some(0)), Ok(0));
    assert_eq!(resolve_choice_or_default(&m, None, Some(1)), Ok(1));
    assert_eq!(resolve_choice_or_default(&m, None, None), Err("No valid default was provided"));
}

#[test]
fn time_validated_value_judges_elapsed_nanoseconds() {
    let v = TimeValidatedValue::new(0u8, 500);
    assert!(v.valid_after(500));
    assert!(!v.valid_after(501));
    let d: TimeValidatedValue<u16> = TimeValidatedValue::new_invalid(0).unwrap();
    assert_eq!(d.value_if_valid(true), Some(&0));
    assert!(TimeValidatedValue::<u8>::new_invalid(u128::MAX).is_none());
    let forever = TimeValidatedValue::new(7u8, Duration::MAX.as_nanos());
    assert_eq!(forever.get(), Some(&7));
}

#[test]
fn lengths_split_into_seconds_and_nanoseconds() {
    assert_eq!(nanos_parts(1_500_000_001), Some((1, 500_000_001)));
    assert_eq!(nanos_parts(999), Some((0, 999)));
    assert_eq!(nanos_parts(Duration::MAX.as_nanos()), Some((u64::MAX, 999_999_999)));
    assert_eq!(nanos_parts(Duration::MAX.as_nanos() + 1), None);
}

#[test]
fn invalid_value_from_a_clock_reading() {
    let t = Instant::now();
    let v = TimeValidatedValue::<u32>::invalid_from(Some(t), 40).unwrap();
    assert_eq!(v.last_changed(), t);
    assert_eq!(v.valid_time, 40);
    assert_eq!(v.value_if_valid(true), Some(&0));
    assert!(TimeValidatedValue::<u32>::invalid_from(None, 40).is_none());
}
