use pifan::scheduler::{Action, Scheduler};

#[test]
fn first_value_is_always_forwarded() {
    let mut s = Scheduler::new();
    assert_eq!(s.on_sample(Some(0)), Action::Forward(0));
}

#[test]
fn suppression_by_two_decimal_rounding() {
    let mut s = Scheduler::new();
    assert_eq!(s.on_sample(Some(50_004)), Action::Forward(50_004));
    assert_eq!(s.on_sample(Some(50_001)), Action::Skip);
    assert_eq!(s.on_sample(Some(50_010)), Action::Forward(50_010));
}

#[test]
fn suppression_compares_with_last_forwarded_value() {
    let mut s = Scheduler::new();
    assert_eq!(s.on_sample(Some(10_000)), Action::Forward(10_000));
    assert_eq!(s.on_sample(Some(10_004)), Action::Skip);
    assert_eq!(s.on_sample(Some(10_004)), Action::Skip);
    // 10.005 rounds to 10.01: differs from the forwarded 10.00
    assert_eq!(s.on_sample(Some(10_005)), Action::Forward(10_005));
}

#[test]
fn negative_values_round_away_from_zero() {
    let mut s = Scheduler::new();
    assert_eq!(s.on_sample(Some(-10_004)), Action::Forward(-10_004));
    assert_eq!(s.on_sample(Some(-10_000)), Action::Skip);
    assert_eq!(s.on_sample(Some(-10_005)), Action::Forward(-10_005));
}

#[test]
fn exhausted_chain_stops_the_loop() {
    let mut s = Scheduler::new();
    assert_eq!(s.on_sample(Some(1)), Action::Forward(1));
    assert_eq!(s.on_sample(None), Action::Stop);
    assert!(s.stopped());
    assert_eq!(s.on_sample(Some(99_999)), Action::Stop);
}

#[test]
fn sink_failure_stops_the_loop() {
    let mut s = Scheduler::new();
    assert!(!s.stopped());
    s.on_sink_failure();
    assert!(s.stopped());
    assert_eq!(s.on_sample(Some(5)), Action::Stop);
}

#[test]
fn changes_output_matches_decision() {
    let mut s = Scheduler::new();
    assert!(s.changes_output(123));
    s.on_sample(Some(20_000));
    assert!(!s.changes_output(19_995));
    assert!(s.changes_output(19_994));
}
