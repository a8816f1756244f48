//! Frame pacing: how long a tick lasts and how long to wait for the next one.

use vstd::prelude::*;

verus! {

/// Ticks per second.
pub const TARGET_FPS: u64 = 60;

/// Length of a tick in whole milliseconds: a second divided by `TARGET_FPS`.
pub const TICK_MILLIS: u64 = 16;

/// Pause between the end of one life and the start of the next, in milliseconds.
pub const RESTART_PAUSE_MILLIS: u64 = 3000;

/// Time left in a tick after `elapsed` of it, if any is left. Both are
/// counted in the same unit.
pub open spec fn time_left(tick: int, elapsed: int) -> Option<int> {
    if elapsed < tick {
        Some(tick - elapsed)
    } else {
        None
    }
}

/// How long to sleep so that a tick of which `elapsed` has passed fills
/// `tick`; `None` when the tick is already used up. Any unit will do, if it is
/// the same for both.
pub fn remaining(tick: u128, elapsed: u128) -> (left: Option<u128>)
    ensures
        match left {
            Some(t) => time_left(tick as int, elapsed as int) == Some(t as int),
            None => time_left(tick as int, elapsed as int) is None,
        },
{
    if elapsed < tick {
        Some(tick - elapsed)
    } else {
        None
    }
}

/// Frames per second when one frame takes `frame_millis`: the whole number of
/// such frames in a second.
pub fn frames_per_second(frame_millis: u128) -> (fps: u128)
    requires
        frame_millis > 0,
    ensures
        fps == 1000int / (frame_millis as int),
{
    1000 / frame_millis
}

} // verus!
