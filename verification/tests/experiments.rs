use spinlock::relaxed::{run_relaxed, MARKER};
use spinlock::visibility::{Experiment, ObserverPhase};

#[test]
fn marker_value() {
    assert_eq!(MARKER, 42);
}

// Every reads-from choice yields a coherent pair: each value is zero or
// the marker, and the second context returns the marker only when the
// first does.  The pair (0, 42) never appears.
#[test]
fn relaxed_all_outcomes_coherent() {
    let choices = [(false, false), (false, true), (true, false), (true, true)];
    for (f, s) in choices {
        let (r1, r2) = run_relaxed(f, s);
        assert!(r1 == 0 || r1 == 42);
        assert!(r2 == 0 || r2 == 42);
        assert!(!(r1 == 0 && r2 == 42));
    }
}

#[test]
fn relaxed_second_first_sees_initial_values() {
    // The second context runs to completion before the first: its load of
    // the untouched location returns zero, while the first then reads the
    // marker.  The two returned values differ.
    let (r1, r2) = run_relaxed(true, false);
    assert_eq!(r1, 42);
    assert_eq!(r2, 0);
}

#[test]
fn relaxed_neither_reads_a_store() {
    let (r1, r2) = run_relaxed(false, false);
    assert_eq!(r1, 0);
    assert_eq!(r2, 0);
}

#[test]
fn relaxed_both_read_stores() {
    let (r1, r2) = run_relaxed(true, true);
    assert_eq!(r1, MARKER);
    assert_eq!(r2, MARKER);
}

#[test]
fn visibility_counter_can_stay_zero() {
    // Each observer checks the other flag before that flag's store has
    // become visible to it.
    let mut e = Experiment::new();
    e.publish_x();
    e.first_pass();
    e.first_check(false);
    e.publish_y();
    e.second_pass();
    e.second_check(false);
    assert_eq!(e.outcome(), 0);
    assert_eq!(e.first, ObserverPhase::Skipped);
    assert_eq!(e.second, ObserverPhase::Skipped);
}

#[test]
fn visibility_counter_can_reach_one() {
    // The first observer finishes before the second flag is published;
    // the second observer then sees both.
    let mut e = Experiment::new();
    e.publish_x();
    e.first_pass();
    e.first_check(false);
    e.publish_y();
    e.second_pass();
    e.second_check(true);
    assert_eq!(e.outcome(), 1);
    assert_eq!(e.first, ObserverPhase::Skipped);
    assert_eq!(e.second, ObserverPhase::Bumped);
}

#[test]
fn visibility_counter_can_reach_one_the_other_way() {
    let mut e = Experiment::new();
    e.publish_y();
    e.second_pass();
    e.second_check(false);
    e.publish_x();
    e.first_pass();
    e.first_check(true);
    assert_eq!(e.outcome(), 1);
    assert_eq!(e.first, ObserverPhase::Bumped);
    assert_eq!(e.second, ObserverPhase::Skipped);
}

#[test]
fn visibility_counter_can_reach_two() {
    // Both flags are published before either observer's cross-check.
    let mut e = Experiment::new();
    e.publish_x();
    e.publish_y();
    e.first_pass();
    e.first_check(true);
    e.second_pass();
    e.second_check(true);
    assert_eq!(e.outcome(), 2);
    assert_eq!(e.first, ObserverPhase::Bumped);
    assert_eq!(e.second, ObserverPhase::Bumped);
}

#[test]
fn visibility_fresh_experiment() {
    let e = Experiment::new();
    assert_eq!(e.outcome(), 0);
    assert!(!e.x_set);
    assert!(!e.y_set);
    assert_eq!(e.first, ObserverPhase::Waiting);
    assert_eq!(e.second, ObserverPhase::Waiting);
}
