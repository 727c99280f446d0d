//! The wrapping 32-bit millisecond clock, and the uptime counted from it.
use vstd::prelude::*;

verus! {

/// Milliseconds from `start` to `now` on a clock that wraps at 2^32.
pub open spec fn elapsed(now: u32, start: u32) -> int {
    (now - start) % 0x1_0000_0000
}

/// Milliseconds from `start` to `now`, correct across one wrap of the clock.
pub fn elapsed_ms(now: u32, start: u32) -> (d: u32)
    ensures
        d == elapsed(now, start),
{
    now.wrapping_sub(start)
}

/// A moment `d` milliseconds after `start` lies `d` milliseconds after `start`,
/// whether or not the clock wrapped in between.
pub proof fn law_elapsed_across_wrap(start: u32, d: u32)
    ensures
        elapsed(((start + d) % 0x1_0000_0000) as u32, start) == d,
{
}

/// The milliseconds since the start, counted on from the last reading.
pub struct Uptime {
    last: u64,
}

impl View for Uptime {
    type V = u64;

    /// The time at the last reading.
    closed spec fn view(&self) -> u64 {
        self.last
    }
}

/// The time at which the clock shows `now`, for one that was last read at `last`: the
/// first such time from then on.
pub open spec fn uptime_at(last: u64, now: u32) -> int {
    last + elapsed(now, (last % 0x1_0000_0000) as u32)
}

impl Uptime {
    /// The start.
    pub fn new() -> (u: Self)
        ensures
            u@ == 0,
    {
        Uptime { last: 0 }
    }
}

/// The milliseconds since the start when the clock shows `now_ms`. The count is of 64
/// bits and does not wrap with the clock, which must be read at least once between two
/// of its wraps. It never falls back: at the largest count it stays.
pub fn uptime_ms(u: &mut Uptime, now_ms: u32) -> (ms: u64)
    ensures
        ms == (if uptime_at(old(u)@, now_ms) <= u64::MAX {
            uptime_at(old(u)@, now_ms)
        } else {
            u64::MAX as int
        }),
        final(u)@ == ms,
        ms >= old(u)@,
        uptime_at(old(u)@, now_ms) <= u64::MAX ==> ms % 0x1_0000_0000 == now_ms,
{
    let low: u32 = (u.last % 0x1_0000_0000) as u32;
    u.last = u.last.saturating_add(elapsed_ms(now_ms, low) as u64);
    u.last
}

/// Read again within one turn of the clock, the uptime is the true time: it goes on
/// where the clock wraps.
pub proof fn law_uptime_does_not_wrap(last: u64, d: u32)
    ensures
        uptime_at(last, ((last + d) % 0x1_0000_0000) as u32) == last + d,
{
}

} // verus!
