//! Real-time-clock tick accounting. The clock's periodic interrupt drives
//! a tick counter; sleeping is waiting until the counter reaches a target.
//! Programming the clock's registers and halting between ticks belong to
//! the hardware side; the arithmetic that decides when a sleep ends is
//! here.

use vstd::prelude::*;

verus! {

/// Periodic interrupts per second the clock is programmed for.
pub const RTC_TICKS_PER_SEC: u64 = 1024;

/// Advance the tick counter by one, as the periodic interrupt handler
/// does; the counter wraps around at its width.
pub fn on_interrupt(ticks: &mut u64)
    ensures
        *old(ticks) < u64::MAX ==> *final(ticks) == *old(ticks) + 1,
        *old(ticks) == u64::MAX ==> *final(ticks) == 0,
{
    *ticks = ticks.wrapping_add(1);
}

/// How many ticks cover `milliseconds` of sleep: rounded up, and at least
/// one so that a sleep always waits for a tick.
pub fn sleep_ticks(milliseconds: u64) -> (r: u64)
    requires
        1 <= milliseconds <= u32::MAX,
    ensures
        r == (milliseconds * RTC_TICKS_PER_SEC + 999) / 1000,
        r >= 1,
{
    proof {
        assert(milliseconds * 1024 <= 0xFFFF_FFFFu64 * 1024) by (nonlinear_arith)
            requires
                milliseconds <= 0xFFFF_FFFFu64,
        ;
        assert(1 * 1024 <= milliseconds * 1024) by (nonlinear_arith)
            requires
                1 <= milliseconds,
        ;
    }
    (milliseconds * RTC_TICKS_PER_SEC + 999) / 1000
}

/// The tick count at which a sleep that begins at `now` ends, clamped at
/// the counter's top.
pub fn sleep_target(now: u64, ticks_needed: u64) -> (r: u64)
    ensures
        now + ticks_needed <= u64::MAX ==> r == now + ticks_needed,
        now + ticks_needed > u64::MAX ==> r == u64::MAX,
{
    if now > u64::MAX - ticks_needed {
        u64::MAX
    } else {
        now + ticks_needed
    }
}

/// Whether a sleep waiting for `target` is over at tick `now`.
pub fn sleep_done(now: u64, target: u64) -> (r: bool)
    ensures
        r == (now >= target),
{
    now >= target
}

} // verus!
