//! Run-time configuration: the sampling interval and the default stem of
//! the export path.

use vstd::prelude::*;
use vstd::string::*;

verus! {

/// Seconds as milliseconds, saturating at `u64::MAX`.
pub open spec fn secs_to_ms_sat(secs: nat) -> u64 {
    if secs * 1000 > u64::MAX {
        u64::MAX
    } else {
        (secs * 1000) as u64
    }
}

pub(crate) fn secs_to_ms(secs: u64) -> (r: u64)
    ensures
        r == secs_to_ms_sat(secs as nat),
{
    if secs > u64::MAX / 1000 {
        proof {
            assert(secs * 1000 > u64::MAX) by (nonlinear_arith)
                requires secs > u64::MAX / 1000;
        }
        u64::MAX
    } else {
        proof {
            assert(secs * 1000 <= u64::MAX) by (nonlinear_arith)
                requires secs <= u64::MAX / 1000;
        }
        secs * 1000
    }
}

#[derive(Debug, Clone)]
pub struct Config {
    /// Time between two sampling ticks, in milliseconds.
    pub update_interval_ms: u64,
    pub default_save_path: String,
}

impl Default for Config {
    fn default() -> (r: Config)
        ensures
            r.update_interval_ms == 1000,
            r.default_save_path@ == "stats"@,
    {
        Config { update_interval_ms: 1000, default_save_path: String::from_str("stats") }
    }
}

impl Config {
    pub fn new(update_interval_secs: u64) -> (r: Config)
        ensures
            r.update_interval_ms == secs_to_ms_sat(update_interval_secs as nat),
            r.default_save_path@ == "stats"@,
    {
        Config {
            update_interval_ms: secs_to_ms(update_interval_secs),
            default_save_path: String::from_str("stats"),
        }
    }
}

} // verus!
