//! Counters of what the USB driver does on endpoint zero.
//!
//! There is no debugger on the boards this runs on: the counters are read out
//! by blinking (see [`crate::report`]).
use vstd::prelude::*;

verus! {

/// Everything the driver records about endpoint zero.
#[derive(Copy, Clone, Debug, PartialEq, Eq, Structural)]
pub struct EpTrace {
    /// Polls of the driver that saw a setup event.
    pub poll_setup_seen: u32,
    /// Setup packets that the stack asked the driver to parse.
    pub read_setup_calls: u32,
    /// The last `bmRequestType`.
    pub last_setup_type: u32,
    /// The last `bRequest`.
    pub last_setup_req: u32,
    /// The last `wValue`.
    pub last_setup_value: u32,
    /// The last `wLength`.
    pub last_setup_len: u32,
    /// Attempts to answer the host.
    pub write_ep0_calls: u32,
    /// Those that succeeded.
    pub write_ep0_ok: u32,
    /// Those that would have blocked.
    pub write_ep0_busy: u32,
    /// Those refused by the driver's own busy flag.
    pub write_ep0_busy_bit: u32,
    /// Those refused because the hardware was busy.
    pub write_ep0_epstatus: u32,
    /// Those that failed otherwise.
    pub write_ep0_err: u32,
    /// The length of the last attempt.
    pub write_ep0_last_len: u32,
    /// Status stages sent because an answer timed out.
    pub ep0_timeout_status: u32,
    /// Bus resets.
    pub resets: u32,
    /// Attempts that did not fit the buffer.
    pub write_ep0_overflow: u32,
    /// Answers that the hardware reported as sent.
    pub ep0_datadone_in: u32,
}

impl EpTrace {
    /// All counters at zero.
    pub fn new() -> (t: Self)
        ensures
            t.poll_setup_seen == 0,
            t.read_setup_calls == 0,
            t.last_setup_type == 0,
            t.last_setup_req == 0,
            t.last_setup_value == 0,
            t.last_setup_len == 0,
            t.write_ep0_calls == 0,
            t.write_ep0_ok == 0,
            t.write_ep0_busy == 0,
            t.write_ep0_busy_bit == 0,
            t.write_ep0_epstatus == 0,
            t.write_ep0_err == 0,
            t.write_ep0_last_len == 0,
            t.ep0_timeout_status == 0,
            t.resets == 0,
            t.write_ep0_overflow == 0,
            t.ep0_datadone_in == 0,
    {
        EpTrace {
            poll_setup_seen: 0,
            read_setup_calls: 0,
            last_setup_type: 0,
            last_setup_req: 0,
            last_setup_value: 0,
            last_setup_len: 0,
            write_ep0_calls: 0,
            write_ep0_ok: 0,
            write_ep0_busy: 0,
            write_ep0_busy_bit: 0,
            write_ep0_epstatus: 0,
            write_ep0_err: 0,
            write_ep0_last_len: 0,
            ep0_timeout_status: 0,
            resets: 0,
            write_ep0_overflow: 0,
            ep0_datadone_in: 0,
        }
    }
}

/// One more than `c`, unless `c` is already the largest count.
pub open spec fn bumped(c: u32) -> u32 {
    if c == u32::MAX {
        c
    } else {
        (c + 1) as u32
    }
}

/// `c` after `n` more events.
pub open spec fn bumped_times(c: u32, n: nat) -> u32
    decreases n,
{
    if n == 0 {
        c
    } else {
        bumped(bumped_times(c, (n - 1) as nat))
    }
}

/// Counts one event, without overflow.
pub fn bump(c: &mut u32)
    ensures
        *final(c) == bumped(*old(c)),
{
    *c = (*c).saturating_add(1);
}

/// Reads a counter.
pub fn get(c: &u32) -> (v: u32)
    ensures
        v == *c,
{
    *c
}

/// A counter holds the true number of events, or the largest count once there
/// were more: it never wraps.
pub proof fn law_counter_saturates(c: u32, n: nat)
    ensures
        bumped_times(c, n) == (if c + n > u32::MAX {
            u32::MAX as int
        } else {
            c + n
        }),
        bumped(c) >= c,
        c < u32::MAX ==> bumped(c) - c == 1,
    decreases n,
{
    if n > 0 {
        law_counter_saturates(c, (n - 1) as nat);
    }
}

/// Which USB events were ever seen since the start.
#[derive(Copy, Clone, Debug, PartialEq, Eq, Structural)]
pub struct UsbSeen {
    /// The host reset the bus.
    pub usb_reset: bool,
    /// The host sent a setup packet.
    pub ep0_setup: bool,
    /// An answer went out on endpoint zero.
    pub ep0_datadone: bool,
}

impl UsbSeen {
    /// Nothing seen yet.
    pub fn new() -> (s: Self)
        ensures
            s == (UsbSeen { usb_reset: false, ep0_setup: false, ep0_datadone: false }),
    {
        UsbSeen { usb_reset: false, ep0_setup: false, ep0_datadone: false }
    }

    /// What has been seen once `events` are noted too.
    pub open spec fn with(self, events: UsbSeen) -> UsbSeen {
        UsbSeen {
            usb_reset: self.usb_reset || events.usb_reset,
            ep0_setup: self.ep0_setup || events.ep0_setup,
            ep0_datadone: self.ep0_datadone || events.ep0_datadone,
        }
    }

    /// What has been seen once all of `log` are noted too.
    pub open spec fn with_all(self, log: Seq<UsbSeen>) -> UsbSeen
        decreases log.len(),
    {
        if log.len() == 0 {
            self
        } else {
            self.with_all(log.drop_last()).with(log.last())
        }
    }
}

/// Notes the events that the USB peripheral shows right now, before the driver
/// clears them. An event once noted stays noted.
pub fn note_usb_events(seen: &mut UsbSeen, events: UsbSeen)
    ensures
        *final(seen) == old(seen).with(events),
{
    if events.usb_reset {
        seen.usb_reset = true;
    }
    if events.ep0_setup {
        seen.ep0_setup = true;
    }
    if events.ep0_datadone {
        seen.ep0_datadone = true;
    }
}

/// Whoever notes an event first, it stays noted whatever is noted after it.
pub proof fn law_seen_events_stay(s: UsbSeen, log: Seq<UsbSeen>)
    ensures
        s.usb_reset ==> s.with_all(log).usb_reset,
        s.ep0_setup ==> s.with_all(log).ep0_setup,
        s.ep0_datadone ==> s.with_all(log).ep0_datadone,
    decreases log.len(),
{
    if log.len() > 0 {
        law_seen_events_stay(s, log.drop_last());
    }
}

/// An event counts as seen exactly when it was seen before or some look showed it, each
/// of the three by itself.
pub proof fn law_events_are_seen_by_some_look(s: UsbSeen, log: Seq<UsbSeen>)
    ensures
        s.with_all(log).usb_reset <==> s.usb_reset || exists|i: int|
            0 <= i < log.len() && (#[trigger] log[i]).usb_reset,
        s.with_all(log).ep0_setup <==> s.ep0_setup || exists|i: int|
            0 <= i < log.len() && (#[trigger] log[i]).ep0_setup,
        s.with_all(log).ep0_datadone <==> s.ep0_datadone || exists|i: int|
            0 <= i < log.len() && (#[trigger] log[i]).ep0_datadone,
    decreases log.len(),
{
    if log.len() > 0 {
        let init = log.drop_last();
        law_events_are_seen_by_some_look(s, init);
        assert(forall|i: int| 0 <= i < init.len() ==> #[trigger] init[i] == log[i]);
        assert(log[log.len() - 1] == log.last());
        if exists|i: int| 0 <= i < init.len() && (#[trigger] init[i]).usb_reset {
            let i = choose|i: int| 0 <= i < init.len() && (#[trigger] init[i]).usb_reset;
            assert(log[i].usb_reset);
        }
        if exists|i: int| 0 <= i < init.len() && (#[trigger] init[i]).ep0_setup {
            let i = choose|i: int| 0 <= i < init.len() && (#[trigger] init[i]).ep0_setup;
            assert(log[i].ep0_setup);
        }
        if exists|i: int| 0 <= i < init.len() && (#[trigger] init[i]).ep0_datadone {
            let i = choose|i: int| 0 <= i < init.len() && (#[trigger] init[i]).ep0_datadone;
            assert(log[i].ep0_datadone);
        }
        if exists|i: int| 0 <= i < log.len() && (#[trigger] log[i]).usb_reset {
            let i = choose|i: int| 0 <= i < log.len() && (#[trigger] log[i]).usb_reset;
            assert(i < init.len() ==> init[i].usb_reset);
        }
        if exists|i: int| 0 <= i < log.len() && (#[trigger] log[i]).ep0_setup {
            let i = choose|i: int| 0 <= i < log.len() && (#[trigger] log[i]).ep0_setup;
            assert(i < init.len() ==> init[i].ep0_setup);
        }
        if exists|i: int| 0 <= i < log.len() && (#[trigger] log[i]).ep0_datadone {
            let i = choose|i: int| 0 <= i < log.len() && (#[trigger] log[i]).ep0_datadone;
            assert(i < init.len() ==> init[i].ep0_datadone);
        }
    }
}

} // verus!
