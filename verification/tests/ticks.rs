use bevy_wasm_tasks::ticks::{sleep_done, sleep_target};
use bevy_wasm_tasks::{TicksPlugin, UpdateTicks};

#[test]
fn a_fresh_clock_reads_zero() {
    let clock = UpdateTicks::new();
    assert_eq!(clock.tick(), 0);
    let installed = TicksPlugin.build();
    assert_eq!(installed.tick(), 0);
}

#[test]
fn each_update_advances_the_clock_by_one() {
    let mut clock = UpdateTicks::new();
    assert_eq!(clock.increment_ticks(), 1);
    assert_eq!(clock.increment_ticks(), 2);
    assert_eq!(clock.tick(), 2);
}

#[test]
fn sleeping_zero_updates_completes_immediately() {
    let t = 12345usize;
    let target = sleep_target(t, 0);
    assert_eq!(target, t);
    assert!(sleep_done(t, target));
}

#[test]
fn sleeping_waits_for_the_target_tick() {
    let t = 100usize;
    let target = sleep_target(t, 3);
    assert_eq!(target, 103);
    assert!(!sleep_done(100, target));
    assert!(!sleep_done(102, target));
    assert!(sleep_done(103, target));
    assert!(sleep_done(104, target));
}

#[test]
fn sleep_targets_wrap_with_the_clock() {
    assert_eq!(sleep_target(usize::MAX, 2), 1);
    assert_eq!(sleep_target(usize::MAX - 1, 1), usize::MAX);
}
