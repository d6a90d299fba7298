use camloc::common::{is_yes, choice_mapping, resolve_choice, yes_no_choice, yes_no_prompt, ChoiceError, TimeValidated};
use std::time::{Duration, Instant};

#[test]
fn yes_no_prompt_text() {
    assert_eq!(yes_no_prompt("Start?", true), "Start? (Y/n) ");
    assert_eq!(yes_no_prompt("Start?", false), "Start? (y/N) ");
}

#[test]
fn yes_no_answers() {
    assert!(yes_no_choice(Some("y"), false));
    assert!(yes_no_choice(Some("YES"), false));
    assert!(yes_no_choice(Some("Y"), false));
    assert!(!yes_no_choice(Some("n"), true));
    assert!(!yes_no_choice(Some("yep"), true));
    assert!(yes_no_choice(Some(""), true));
    assert!(!yes_no_choice(Some(""), false));
    assert!(yes_no_choice(None, true));
}

#[test]
fn choice_numbers_skip_unchoosable_entries() {
    let m = choice_mapping(&vec![true, false, true, true, false]);
    assert_eq!(m, vec![0, 2, 3]);
    assert!(matches!(resolve_choice(&m, 1, None), Ok(2)));
    assert!(matches!(resolve_choice(&m, 3, Some(4)), Ok(4)));
    assert!(matches!(resolve_choice(&m, 3, None), Err(ChoiceError::NoDefault(3))));
    assert!(choice_mapping(&vec![]).is_empty());
}

#[test]
fn time_validated_expires() {
    let mut v = TimeValidated::new(5u32, Duration::from_secs(3600).as_nanos());
    assert!(v.is_valid());
    assert_eq!(v.get(), Some(&5));
    assert_eq!(v.value_if_valid(false), None);
    v.set(6);
    assert_eq!(v.get(), Some(&6));
    let past = Instant::now() - Duration::from_millis(50);
    let mut w = TimeValidated::new_with_change(1u8, Duration::from_millis(10).as_nanos(), past);
    assert!(!w.is_valid());
    assert_eq!(w.get(), None);
    assert_eq!(w.last_changed(), past);
    let now = Instant::now();
    w.set_with_time(2, now);
    assert_eq!(w.last_changed(), now);
    assert_eq!(w.valid_time, 10_000_000);
}

#[test]
fn time_validated_judges_elapsed_nanoseconds() {
    let v = TimeValidated::new(1u8, 1_000);
    assert!(v.valid_after(0));
    assert!(v.valid_after(1_000));
    assert!(!v.valid_after(1_001));
    let forever = TimeValidated::new(2u8, Duration::MAX.as_nanos());
    assert!(forever.is_valid());
    assert_eq!(forever.get(), Some(&2));
}

#[test]
fn only_y_and_yes_say_yes() {
    assert!(is_yes("y"));
    assert!(is_yes("yes"));
    assert!(!is_yes("Y"));
    assert!(!is_yes("ye"));
    assert!(!is_yes(""));
}
