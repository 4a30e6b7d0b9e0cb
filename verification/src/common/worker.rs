//! The pace of a worker that does its work again and again.

use vstd::prelude::*;

verus! {

/// What a worker does after an attempt to run.
#[derive(Copy, Clone, Debug, PartialEq, Eq)]
pub enum Restart {
    /// The run ended well: stop.
    Stop,
    /// The run failed: wait this many seconds and run again.
    After { secs: u64 },
}

/// The seconds to wait before a worker that failed runs again.
pub const RESTART_DELAY_SECS: u64 = 1;

/// How long a worker rests after a round of work that took `elapsed`
/// nanoseconds, where rounds start `interval` nanoseconds apart: the rest of
/// the interval, or not at all where the round took as long or longer.
pub fn rest_after(interval: u128, elapsed: u128) -> (r: Option<u128>)
    ensures
        r == if interval > elapsed {
            Some((interval - elapsed) as u128)
        } else {
            None
        },
{
    if interval > elapsed {
        Some(interval - elapsed)
    } else {
        None
    }
}

/// What a worker does after a run that ended well or failed.
pub fn after_run(ended_well: bool) -> (r: Restart)
    ensures
        r == if ended_well {
            Restart::Stop
        } else {
            Restart::After { secs: RESTART_DELAY_SECS }
        },
{
    if ended_well {
        Restart::Stop
    } else {
        Restart::After { secs: RESTART_DELAY_SECS }
    }
}

} // verus!
