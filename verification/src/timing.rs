//! Accumulated wall-clock timings of the training phases. A phase is named
//! by an integer label.

use std::collections::HashMap;
use std::time::{Duration, Instant};
use vstd::prelude::*;

verus! {

/// `std::time::Instant`, a point in time, carried through without looking
/// inside.
#[verifier::external_type_specification]
#[verifier::external_body]
pub struct ExInstant(Instant);

/// Largest value that `Duration::as_millis` can return: `u64::MAX` whole
/// seconds and 999 further milliseconds.
pub const MAX_DURATION_MILLIS: u128 = 18_446_744_073_709_551_615_999;

/// The length of a `Duration`, in nanoseconds.
pub uninterp spec fn duration_nanos(d: Duration) -> nat;

/// `Instant::elapsed`: the time passed since `start`. It depends on the clock,
/// so nothing is promised of it.
#[verifier::external_body]
fn instant_elapsed(start: &Instant) -> Duration {
    start.elapsed()
}

/// `Duration::as_micros`: the whole microseconds in `d`, its nanoseconds
/// divided by 1000, rounded down.
#[verifier::external_body]
fn duration_as_micros(d: &Duration) -> (micros: u128)
    ensures
        micros == duration_nanos(*d) / 1000,
{
    d.as_micros()
}

/// `Duration::as_millis`: the whole milliseconds in `d`, its nanoseconds
/// divided by 1 000 000, rounded down; that is at most `MAX_DURATION_MILLIS`,
/// since a `Duration` holds at most `u64::MAX` seconds and 999 999 999
/// nanoseconds.
#[verifier::external_body]
fn duration_as_millis(d: &Duration) -> (millis: u128)
    ensures
        millis == duration_nanos(*d) / 1_000_000,
        millis <= MAX_DURATION_MILLIS,
{
    d.as_millis()
}

/// What `record_timing` makes of `timings`: a first measurement of `label`
/// is stored in microseconds, later ones are added in milliseconds.
pub open spec fn recorded(timings: Map<u64, u128>, label: u64, micros: u128, millis: u128) -> Map<u64, u128> {
    if timings.contains_key(label) {
        timings.insert(label, (timings[label] + millis) as u128)
    } else {
        timings.insert(label, micros)
    }
}

/// Label of the loss computation phase.
pub const LOSS_CALCULATE: u64 = 0;

/// Label of the backward pass.
pub const BACKWARDS: u64 = 1;

/// Label of the optimizer step.
pub const OPTIMIZER: u64 = 2;

/// Records one measurement of `label`, given in both units: absent, it is
/// stored as `micros`; present, `millis` is added to the stored value.
pub fn record_timing(timings: &mut HashMap<u64, u128>, label: u64, micros: u128, millis: u128)
    requires
        old(timings)@.contains_key(label) ==> old(timings)@[label] + millis <= u128::MAX,
    ensures
        final(timings)@ == recorded(old(timings)@, label, micros, millis),
{
    let found = match timings.get(&label) {
        Some(v) => Some(*v),
        None => None,
    };
    match found {
        None => {
            timings.insert(label, micros);
        },
        Some(v) => {
            timings.insert(label, v + millis);
        },
    }
}

/// Adds the time elapsed since `start` to the entry of `label`: a label seen
/// for the first time gets the elapsed microseconds, a known label gets the
/// elapsed milliseconds added to what it holds.
pub fn update_timings(timings: &mut HashMap<u64, u128>, label: u64, start: &Instant)
    requires
        old(timings)@.contains_key(label) ==> old(timings)@[label] + MAX_DURATION_MILLIS <= u128::MAX,
    ensures
        exists|nanos: nat|
            final(timings)@ == #[trigger] recorded(
                old(timings)@,
                label,
                (nanos / 1000) as u128,
                (nanos / 1_000_000) as u128,
            ),
{
    let elapsed = instant_elapsed(start);
    let micros = duration_as_micros(&elapsed);
    let millis = duration_as_millis(&elapsed);
    let ghost before = timings@;
    let ghost key = label;
    record_timing(timings, label, micros, millis);
    proof {
        let nanos = duration_nanos(elapsed);
        assert(recorded(before, key, (nanos / 1000) as u128, (nanos / 1_000_000) as u128)
            == recorded(before, key, micros, millis));
    }
}

/// A recording removes no label, changes no other label, leaves `label`
/// present, and never lowers the value of `label`.
pub proof fn lemma_recorded_only_grows(timings: Map<u64, u128>, label: u64, micros: u128, millis: u128)
    requires
        timings.contains_key(label) ==> timings[label] + millis <= u128::MAX,
    ensures
        recorded(timings, label, micros, millis).dom() == timings.dom().insert(label),
        forall|k: u64| #[trigger] timings.contains_key(k) && k != label ==>
            recorded(timings, label, micros, millis)[k] == timings[k],
        timings.contains_key(label) ==> recorded(timings, label, micros, millis)[label] >= timings[label],
{
}

} // verus!
