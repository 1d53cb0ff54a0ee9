//! Food-density scheduling: the target food count is a step function of
//! elapsed simulation time, topped up by at most one item per tick.

use vstd::prelude::*;

verus! {

/// End of the rich opening phase: 180 seconds.
pub const PHASE1_END: i64 = 180_000_000;

/// End of the middle phase: 360 seconds.
pub const PHASE2_END: i64 = 360_000_000;

/// Food target while `elapsed < PHASE1_END`.
pub const TARGET_EARLY: i64 = 512;

/// Food target while `PHASE1_END <= elapsed < PHASE2_END`.
pub const TARGET_MID: i64 = 192;

/// Food target afterwards.
pub const TARGET_LATE: i64 = 64;

/// Target food count at a given elapsed time.
pub open spec fn food_target(elapsed: int) -> int {
    if elapsed < PHASE1_END as int {
        TARGET_EARLY as int
    } else if elapsed < PHASE2_END as int {
        TARGET_MID as int
    } else {
        TARGET_LATE as int
    }
}

/// Executable food target.
pub fn food_target_exec(elapsed: i64) -> (r: i64)
    ensures
        r as int == food_target(elapsed as int),
{
    if elapsed < PHASE1_END {
        TARGET_EARLY
    } else if elapsed < PHASE2_END {
        TARGET_MID
    } else {
        TARGET_LATE
    }
}

/// What one scheduling pass does to the food count under a fixed target:
/// one spawn while below the target, nothing once at or above it.
pub open spec fn sched_count_step(c: int, t: int) -> int {
    if c < t {
        c + 1
    } else {
        c
    }
}

/// The food count after `n` scheduling passes under a fixed target.
pub open spec fn sched_iter(c: int, t: int, n: nat) -> int
    decreases n,
{
    if n == 0 {
        c
    } else {
        sched_iter(sched_count_step(c, t), t, (n - 1) as nat)
    }
}

/// Population scheduling: starting below the target, the scheduler adds one
/// food item per pass until the count reaches the target, and afterwards
/// adds none; starting at or above the target it never adds any, even when
/// an earlier, larger target has not been reached.
pub proof fn lemma_scheduler_reaches_target(c: int, t: int, n: nat)
    ensures
        c < t && n >= t - c ==> sched_iter(c, t, n) == t,
        c < t && n <= t - c ==> sched_iter(c, t, n) == c + n,
        c >= t ==> sched_iter(c, t, n) == c,
    decreases n,
{
    if n > 0 {
        lemma_scheduler_reaches_target(sched_count_step(c, t), t, (n - 1) as nat);
    }
}

} // verus!
