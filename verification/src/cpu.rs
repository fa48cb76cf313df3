//! CPU-percentage computation from two cumulative CPU readings and an
//! elapsed duration.
//!
//! Readings are in milli-units (one thousandth of the source's unit); the
//! result is in tenths of a percent, so one decimal place of the percentage
//! is kept exactly.

use vstd::prelude::*;

verus! {

/// The CPU percentage, in tenths of a percent, that two cumulative readings
/// `elapsed_ms` milliseconds apart stand for: the delta per elapsed second,
/// times one hundred, rounded to the nearest tenth (ties rounded up) and
/// clamped to be non-negative. Zero elapsed time yields zero, guarding the
/// first tick and clock anomalies.
pub open spec fn cpu_percent_tenths(old_milli: nat, new_milli: nat, elapsed_ms: nat) -> nat {
    if elapsed_ms == 0 || new_milli <= old_milli {
        0
    } else {
        // tenths = round((new - old) * 1000 / elapsed_ms)
        (((new_milli - old_milli) * 2000 + elapsed_ms) / (2 * (elapsed_ms as int))) as nat
    }
}

/// [`cpu_percent_tenths`] clamped into `u64`: a value beyond `u64::MAX`
/// tenths saturates.
pub open spec fn cpu_percent_tenths_sat(old_milli: nat, new_milli: nat, elapsed_ms: nat) -> u64 {
    if cpu_percent_tenths(old_milli, new_milli, elapsed_ms) > u64::MAX {
        u64::MAX
    } else {
        cpu_percent_tenths(old_milli, new_milli, elapsed_ms) as u64
    }
}

/// Turns two cumulative CPU readings (milli-units) and the elapsed time
/// between them into a percentage in tenths of a percent.
///
/// Total over its domain: a zero elapsed time or a non-increasing counter
/// (a reset) collapses to zero, and a result beyond `u64::MAX` tenths
/// saturates.
pub fn calculate_cpu_percentage(old_time_milli: u64, new_time_milli: u64, elapsed_ms: u64) -> (r: u64)
    ensures
        r == cpu_percent_tenths_sat(old_time_milli as nat, new_time_milli as nat, elapsed_ms as nat),
        cpu_percent_tenths(old_time_milli as nat, new_time_milli as nat, elapsed_ms as nat)
            <= u64::MAX ==> r == cpu_percent_tenths(
            old_time_milli as nat,
            new_time_milli as nat,
            elapsed_ms as nat,
        ),
        cpu_percent_tenths(old_time_milli as nat, new_time_milli as nat, elapsed_ms as nat)
            > u64::MAX ==> r == u64::MAX,
        elapsed_ms == 0 ==> r == 0,
        new_time_milli <= old_time_milli ==> r == 0,
{
    if elapsed_ms == 0 {
        return 0;
    }
    if new_time_milli <= old_time_milli {
        return 0;
    }
    let delta: u128 = (new_time_milli - old_time_milli) as u128;
    let num: u128 = delta * 2000 + elapsed_ms as u128;
    let den: u128 = 2 * elapsed_ms as u128;
    let tenths: u128 = num / den;
    if tenths > u64::MAX as u128 {
        u64::MAX
    } else {
        tenths as u64
    }
}

} // verus!
