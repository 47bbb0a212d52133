use std::collections::HashMap;
use std::time::{Duration, Instant};

use dqn_cartpole::timing::{record_timing, update_timings, BACKWARDS, LOSS_CALCULATE, OPTIMIZER};

#[test]
fn first_record_stores_micros_then_adds_millis() {
    let mut timings = HashMap::new();
    record_timing(&mut timings, LOSS_CALCULATE, 2500, 2);
    assert_eq!(timings[&LOSS_CALCULATE], 2500);
    record_timing(&mut timings, LOSS_CALCULATE, 3000, 3);
    assert_eq!(timings[&LOSS_CALCULATE], 2503);
    record_timing(&mut timings, OPTIMIZER, 40, 0);
    assert_eq!(timings.len(), 2);
    assert_eq!(timings[&OPTIMIZER], 40);
    assert_eq!(timings[&LOSS_CALCULATE], 2503);
}

#[test]
fn update_timings_measures_elapsed_time() {
    let start = Instant::now().checked_sub(Duration::from_millis(20)).unwrap();
    let mut timings = HashMap::new();
    update_timings(&mut timings, BACKWARDS, &start);
    let first = timings[&BACKWARDS];
    // Stored in microseconds the first time.
    assert!(first >= 20_000, "got {}", first);
    update_timings(&mut timings, BACKWARDS, &start);
    let second = timings[&BACKWARDS];
    // Then milliseconds are added.
    assert!(second >= first + 20, "got {} after {}", second, first);
    assert!(second < first + 20_000, "got {} after {}", second, first);
    assert_eq!(timings.len(), 1);
}
