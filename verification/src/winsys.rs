//! What the Windows system readings mean for automation: how long the user
//! has been idle, whether the machine runs on battery, and whether leaving
//! background mode has anything to undo. The readings themselves are taken
//! by the caller.

use vstd::prelude::*;

verus! {

/// `now - then` on a wrapping 32-bit millisecond tick counter.
pub open spec fn tick_elapsed(now: u32, then: u32) -> nat {
    if now >= then {
        (now - then) as nat
    } else {
        (now + 4294967296 - then) as nat
    }
}

/// Seconds since the last user input, from the tick count now and at the
/// last input (`None` when the last-input query failed, which reads as
/// zero).
pub fn idle_secs(reading: Option<(u32, u32)>) -> (r: u64)
    ensures
        match reading {
            Some((now, last_input)) => r == tick_elapsed(now, last_input) / 1000,
            None => r == 0,
        },
{
    match reading {
        None => 0,
        Some((now, last_input)) => {
            let elapsed: u64 = if now >= last_input {
                (now - last_input) as u64
            } else {
                (now as u64) + 4294967296u64 - (last_input as u64)
            };
            elapsed / 1000
        },
    }
}

/// Whether the machine runs on battery, from the AC line status of the
/// power-status query (`None` when it failed): only an AC line status of
/// zero means "offline".
pub fn on_battery(ac_line_status: Option<u8>) -> (r: bool)
    ensures
        r == (ac_line_status == Some(0u8)),
{
    match ac_line_status {
        Some(s) => s == 0,
        None => false,
    }
}

/// A run in background mode: it remembers whether entering it took effect,
/// so that leaving undoes only what was done.
pub struct BackgroundMode {
    applied: bool,
}

impl BackgroundMode {
    /// Whether entering background mode took effect.
    pub closed spec fn was_applied(&self) -> bool {
        self.applied
    }

    /// Background mode entered; `applied` says whether lowering the
    /// priority took effect.
    pub fn enter(applied: bool) -> (r: Self)
        ensures
            r.was_applied() == applied,
    {
        BackgroundMode { applied }
    }

    /// Leave background mode: whether the priority must be restored.
    pub fn leave(self) -> (r: bool)
        ensures
            r == self.was_applied(),
    {
        self.applied
    }
}

} // verus!
