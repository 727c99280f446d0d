//! The report that dictates the endpoint-zero counters over the LED.
//!
//! A message is three seconds of light, then one number after another, each
//! followed by a second of darkness. A number is that many short flashes; zero
//! is one long flash, because darkness could not be told from a separator.
//!
//! The report never waits. It is called on every pass of the idle loop and only
//! compares the clock with the start of the phase it is in: the USB driver gives
//! up an answer after five milliseconds, so the loop must not be held.
use vstd::prelude::*;
use crate::clock::elapsed_ms;
use crate::led::{led_raw, GpioWrite, LedChannel};
use crate::trace::{get, EpTrace};

verus! {

/// How long the light lasts that starts a message.
pub const MSG_ON_MS: u32 = 3000;

/// How long a short flash lasts, and the darkness after any flash.
pub const BLINK_MS: u32 = 300;

/// How long the flash lasts that stands for zero.
pub const LONG_MS: u32 = 900;

/// How long the darkness lasts between two numbers.
pub const NUM_GAP_MS: u32 = 1000;

/// How many numbers a message has.
pub const REPORT_LEN: u32 = 6;

/// What the report is doing.
#[derive(Copy, Clone, Debug, PartialEq, Eq, Structural)]
pub enum Phase {
    /// The light that starts a message.
    Start,
    /// A flash.
    On,
    /// The darkness after a flash.
    Off,
    /// The darkness between numbers.
    Gap,
}

/// Where the report stands.
#[derive(Copy, Clone, Debug, PartialEq, Eq, Structural)]
pub struct Report {
    /// The first message has begun.
    pub started: bool,
    /// When the current phase began.
    pub t0: u32,
    /// The current phase.
    pub phase: Phase,
    /// How many numbers of the message have been begun.
    pub num: u32,
    /// How many flashes of the current number are still to come.
    pub left: u32,
    /// The current number is a zero.
    pub long: bool,
}

impl Phase {
    /// The LED is lit.
    pub open spec fn lit(self) -> bool {
        self == Phase::Start || self == Phase::On
    }
}

impl Report {
    /// A report that has not begun.
    pub fn new() -> (r: Self)
        ensures
            r == (Report {
                started: false,
                t0: 0,
                phase: Phase::Start,
                num: 0,
                left: 0,
                long: false,
            }),
    {
        Report { started: false, t0: 0, phase: Phase::Start, num: 0, left: 0, long: false }
    }

    /// How long the current phase lasts.
    pub open spec fn phase_ms(self) -> u32 {
        match self.phase {
            Phase::Start => MSG_ON_MS,
            Phase::On => if self.long {
                LONG_MS
            } else {
                BLINK_MS
            },
            Phase::Off => BLINK_MS,
            Phase::Gap => NUM_GAP_MS,
        }
    }

    /// The start of a message at `now`.
    pub open spec fn message_begun(self, now: u32) -> Report {
        Report { phase: Phase::Start, t0: now, num: 0, ..self }
    }

    /// The start of the number `n` at `now`.
    pub open spec fn number_begun(self, n: u32, now: u32) -> Report {
        Report {
            phase: Phase::On,
            t0: now,
            long: n == 0,
            left: if n == 0 {
                0
            } else {
                (n - 1) as u32
            },
            ..self
        }
    }

    /// The phase that follows the current one at `now`, when the message dictates
    /// `vals`.
    pub open spec fn next_phase(self, vals: Seq<u32>, now: u32) -> Report {
        match self.phase {
            Phase::Start => Report { phase: Phase::Gap, t0: now, ..self },
            Phase::On => Report { phase: Phase::Off, t0: now, ..self },
            Phase::Off => if self.left > 0 {
                Report { phase: Phase::On, t0: now, left: (self.left - 1) as u32, ..self }
            } else {
                Report { phase: Phase::Gap, t0: now, long: false, ..self }
            },
            Phase::Gap => if self.num >= vals.len() {
                self.message_begun(now)
            } else {
                Report { num: (self.num + 1) as u32, ..self }.number_begun(
                    vals[self.num as int],
                    now,
                )
            },
        }
    }

    /// The current phase is over at `now`.
    pub open spec fn phase_over(self, now: u32) -> bool {
        crate::clock::elapsed(now, self.t0) >= self.phase_ms()
    }

    /// A call at `now` begins a phase.
    pub open spec fn moves(self, now: u32) -> bool {
        !self.started || self.phase_over(now)
    }

    /// The state after a call at `now`.
    pub open spec fn tick(self, vals: Seq<u32>, now: u32) -> Report {
        if !self.started {
            Report { started: true, ..self.message_begun(now) }
        } else if self.phase_over(now) {
            self.next_phase(vals, now)
        } else {
            self
        }
    }
}

/// The lesser of two numbers.
pub open spec fn at_most(v: u32, cap: u32) -> u32 {
    if v < cap {
        v
    } else {
        cap
    }
}

/// The numbers that a message dictates: counters up to three ("three" stands for
/// three or more), and the last request code, exactly.
pub open spec fn report_seq(t: EpTrace) -> Seq<u32> {
    seq![
        at_most(t.write_ep0_calls, 3),
        at_most(t.write_ep0_busy_bit, 3),
        at_most(t.write_ep0_epstatus, 3),
        at_most(t.write_ep0_ok, 3),
        at_most(t.ep0_datadone_in, 3),
        t.last_setup_req,
    ]
}

/// Each of the six numbers tells its own counter and no other: the attempts to answer,
/// those refused by the driver, those refused by the hardware, those handed over, those
/// reported as sent, each exactly up to two and as three from three on, and the last
/// request code exactly.
pub proof fn law_each_number_tells_its_counter(t: EpTrace)
    ensures
        report_seq(t).len() == 6,
        forall|i: int| 0 <= i < 5 ==> #[trigger] report_seq(t)[i] <= 3,
        t.write_ep0_calls < 3 ==> report_seq(t)[0] == t.write_ep0_calls,
        t.write_ep0_busy_bit < 3 ==> report_seq(t)[1] == t.write_ep0_busy_bit,
        t.write_ep0_epstatus < 3 ==> report_seq(t)[2] == t.write_ep0_epstatus,
        t.write_ep0_ok < 3 ==> report_seq(t)[3] == t.write_ep0_ok,
        t.ep0_datadone_in < 3 ==> report_seq(t)[4] == t.ep0_datadone_in,
        report_seq(t)[0] == 3 <==> t.write_ep0_calls >= 3,
        report_seq(t)[1] == 3 <==> t.write_ep0_busy_bit >= 3,
        report_seq(t)[2] == 3 <==> t.write_ep0_epstatus >= 3,
        report_seq(t)[3] == 3 <==> t.write_ep0_ok >= 3,
        report_seq(t)[4] == 3 <==> t.ep0_datadone_in >= 3,
        report_seq(t)[5] == t.last_setup_req,
{
}

fn capped(v: u32, cap: u32) -> (r: u32)
    ensures
        r == at_most(v, cap),
{
    if v < cap {
        v
    } else {
        cap
    }
}

/// The numbers to dictate: attempts to answer the host, those refused by the
/// driver's busy flag, those refused by the hardware, those handed over, those
/// reported as sent, and the last request code.
pub fn report_values(t: &EpTrace) -> (vals: [u32; 6])
    ensures
        vals@ == report_seq(*t),
{
    let vals = [
        capped(get(&t.write_ep0_calls), 3),
        capped(get(&t.write_ep0_busy_bit), 3),
        capped(get(&t.write_ep0_epstatus), 3),
        capped(get(&t.write_ep0_ok), 3),
        capped(get(&t.ep0_datadone_in), 3),
        get(&t.last_setup_req),
    ];
    assert(vals@ =~= report_seq(*t));
    vals
}

/// Begins a number: one long flash for zero, that many short ones otherwise.
pub fn start_number(r: &mut Report, led: &mut LedChannel, n: u32, now_ms: u32) -> (w: GpioWrite)
    ensures
        *final(r) == old(r).number_begun(n, now_ms),
        w == old(led).write(true),
        *final(led) == old(led).taken(),
{
    r.t0 = now_ms;
    if n == 0 {
        r.long = true;
        r.left = 0;
    } else {
        r.long = false;
        r.left = n - 1;
    }
    r.phase = Phase::On;
    led_raw(led, true)
}

/// One step of the report. The first call begins a message; after that a call
/// does nothing until the current phase is over, then it begins the next one and
/// switches the LED for it.
pub fn report_tick(r: &mut Report, t: &EpTrace, led: &mut LedChannel, now_ms: u32) -> (w: Option<
    GpioWrite,
>)
    ensures
        *final(r) == old(r).tick(report_seq(*t), now_ms),
        old(r).moves(now_ms) ==> w == Some(old(led).write(final(r).phase.lit())) && *final(led)
            == old(led).taken(),
        !old(r).moves(now_ms) ==> w is None && *final(led) == *old(led),
{
    if !r.started {
        r.started = true;
        r.num = 0;
        r.phase = Phase::Start;
        r.t0 = now_ms;
        return Some(led_raw(led, true));
    }
    let elapsed = elapsed_ms(now_ms, r.t0);
    let left = r.left;
    let dur = if r.long {
        LONG_MS
    } else {
        BLINK_MS
    };
    match r.phase {
        Phase::Start => {
            if elapsed >= MSG_ON_MS {
                r.phase = Phase::Gap;
                r.t0 = now_ms;
                return Some(led_raw(led, false));
            }
        },
        Phase::On => {
            if elapsed >= dur {
                r.phase = Phase::Off;
                r.t0 = now_ms;
                return Some(led_raw(led, false));
            }
        },
        Phase::Off => {
            if elapsed >= BLINK_MS {
                r.t0 = now_ms;
                if left > 0 {
                    r.left = left - 1;
                    r.phase = Phase::On;
                    return Some(led_raw(led, true));
                } else {
                    r.long = false;
                    r.phase = Phase::Gap;
                    return Some(led_raw(led, false));
                }
            }
        },
        Phase::Gap => {
            if elapsed >= NUM_GAP_MS {
                let vals = report_values(t);
                let idx = r.num;
                if idx >= REPORT_LEN {
                    r.num = 0;
                    r.phase = Phase::Start;
                    r.t0 = now_ms;
                    return Some(led_raw(led, true));
                } else {
                    r.num = idx + 1;
                    return Some(start_number(r, led, vals[idx as usize], now_ms));
                }
            }
        },
    }
    None
}

/// One call of the report: the time, and the counters as they are then.
#[derive(Copy, Clone, Debug, PartialEq, Eq, Structural)]
pub struct Call {
    /// When.
    pub now_ms: u32,
    /// The counters.
    pub trace: EpTrace,
}

impl Call {
    /// The numbers that a message would dictate now.
    pub open spec fn vals(self) -> Seq<u32> {
        report_seq(self.trace)
    }
}

/// A stretch of constant light or darkness.
#[derive(Copy, Clone, Debug, PartialEq, Eq, Structural)]
pub struct Segment {
    /// The LED is lit.
    pub lit: bool,
    /// For how long at least.
    pub ms: u32,
}

impl Report {
    /// The state after all of `calls`.
    pub open spec fn ticks(self, calls: Seq<Call>) -> Report
        decreases calls.len(),
    {
        if calls.len() == 0 {
            self
        } else {
            self.tick(calls[0].vals(), calls[0].now_ms).ticks(calls.skip(1))
        }
    }

    /// Those of `calls` that begin a phase.
    pub open spec fn moves_among(self, calls: Seq<Call>) -> Seq<Call>
        decreases calls.len(),
    {
        if calls.len() == 0 {
            Seq::empty()
        } else {
            (if self.moves(calls[0].now_ms) {
                seq![calls[0]]
            } else {
                Seq::empty()
            }) + self.tick(calls[0].vals(), calls[0].now_ms).moves_among(calls.skip(1))
        }
    }

    /// The phase that the call `c` begins.
    pub open spec fn moved(self, c: Call) -> Report {
        self.next_phase(c.vals(), c.now_ms)
    }

    /// The state after `calls` each of which begins a phase.
    pub open spec fn after(self, calls: Seq<Call>) -> Report
        decreases calls.len(),
    {
        if calls.len() == 0 {
            self
        } else {
            self.moved(calls[0]).after(calls.skip(1))
        }
    }

    /// What the LED shows until then.
    pub open spec fn shown(self, calls: Seq<Call>) -> Seq<Segment>
        decreases calls.len(),
    {
        if calls.len() == 0 {
            Seq::empty()
        } else {
            seq![Segment { lit: self.phase.lit(), ms: self.phase_ms() }] + self.moved(
                calls[0],
            ).shown(calls.skip(1))
        }
    }
}

/// A number of short flashes.
pub open spec fn short_flashes(n: nat) -> Seq<Segment>
    decreases n,
{
    if n == 0 {
        Seq::empty()
    } else {
        seq![Segment { lit: true, ms: BLINK_MS }, Segment { lit: false, ms: BLINK_MS }]
            + short_flashes((n - 1) as nat)
    }
}

/// How a number is shown, with the gap after it.
pub open spec fn number_segments(n: u32) -> Seq<Segment> {
    (if n == 0 {
        seq![Segment { lit: true, ms: LONG_MS }, Segment { lit: false, ms: BLINK_MS }]
    } else {
        short_flashes(n as nat)
    }).push(Segment { lit: false, ms: NUM_GAP_MS })
}

/// How the numbers of a message from the `k`-th on are shown.
pub open spec fn numbers_segments(vals: Seq<u32>, k: int) -> Seq<Segment>
    decreases vals.len() - k,
{
    if k < 0 || k >= vals.len() {
        Seq::empty()
    } else {
        number_segments(vals[k]) + numbers_segments(vals, k + 1)
    }
}

/// How a message is shown.
pub open spec fn message_segments(vals: Seq<u32>) -> Seq<Segment> {
    seq![Segment { lit: true, ms: MSG_ON_MS }, Segment { lit: false, ms: NUM_GAP_MS }]
        + numbers_segments(vals, 0)
}

/// The numbers that a message dictates from the `k`-th on, where `calls` are the calls
/// that begin its phases and the one at `at` begins the `k`-th number: each number is
/// read by the call that begins it.
pub open spec fn dictated(calls: Seq<Call>, at: int, k: int) -> Seq<u32>
    decreases REPORT_LEN - k,
{
    if k >= REPORT_LEN {
        Seq::empty()
    } else {
        let n = calls[at].vals()[k];
        seq![n] + dictated(calls, at + number_segments(n).len(), k + 1)
    }
}

proof fn lemma_run_concat(r: Report, a: Seq<Call>, b: Seq<Call>)
    ensures
        r.after(a + b) == r.after(a).after(b),
        r.shown(a + b) == r.shown(a) + r.after(a).shown(b),
    decreases a.len(),
{
    if a.len() == 0 {
        assert(a + b =~= b);
        assert(r.shown(a) + r.shown(b) =~= r.shown(b));
    } else {
        assert((a + b).skip(1) =~= a.skip(1) + b);
        lemma_run_concat(r.moved(a[0]), a.skip(1), b);
        assert(r.shown(a + b) =~= r.shown(a) + r.after(a).shown(b));
    }
}

proof fn lemma_short_flashes(n: nat)
    ensures
        short_flashes(n).len() == 2 * n,
        forall|i: int|
            0 <= i < 2 * n ==> #[trigger] short_flashes(n)[i] == (Segment {
                lit: i % 2 == 0,
                ms: BLINK_MS,
            }),
    decreases n,
{
    if n > 0 {
        lemma_short_flashes((n - 1) as nat);
        assert forall|i: int| 0 <= i < 2 * n implies #[trigger] short_flashes(n)[i] == (Segment {
            lit: i % 2 == 0,
            ms: BLINK_MS,
        }) by {
            if i >= 2 {
                assert(short_flashes(n)[i] == short_flashes((n - 1) as nat)[i - 2]);
            }
        }
    }
}

/// The flashes of a number that is not zero, up to the gap after them.
proof fn lemma_flashes_shown(r: Report, calls: Seq<Call>)
    requires
        r.phase == Phase::On,
        !r.long,
        calls.len() == 2 * (r.left + 1),
    ensures
        r.shown(calls) == short_flashes((r.left + 1) as nat),
        r.after(calls) == (Report { phase: Phase::Gap, t0: calls.last().now_ms, left: 0, ..r }),
    decreases r.left,
{
    let off = r.moved(calls[0]);
    let on = off.moved(calls[1]);
    let rest = calls.skip(1).skip(1);
    assert(calls.skip(1)[0] == calls[1]);
    assert(off.shown(calls.skip(1)) == seq![Segment { lit: false, ms: BLINK_MS }] + on.shown(rest));
    assert(off.after(calls.skip(1)) == on.after(rest));
    if r.left == 0 {
        assert(rest.len() == 0);
        assert(short_flashes(0) == Seq::<Segment>::empty());
        assert(r.shown(calls) =~= short_flashes(1));
    } else {
        lemma_flashes_shown(on, rest);
        assert(rest.last() == calls.last());
        assert(r.shown(calls) =~= short_flashes((r.left + 1) as nat));
    }
}

/// A number with the gap after it: `r` has just begun the number `n`.
proof fn lemma_number_shown(r: Report, n: u32, calls: Seq<Call>)
    requires
        r.phase == Phase::On,
        r.long == (n == 0),
        r.left == (if n == 0 {
            0
        } else {
            n - 1
        }),
        calls.len() == number_segments(n).len(),
    ensures
        r.shown(calls) == number_segments(n),
        r.after(calls) == (Report { phase: Phase::Gap, long: false, left: 0, ..r }).moved(
            calls.last(),
        ),
{
    lemma_short_flashes(n as nat);
    let flashing = calls.drop_last();
    let gap = seq![calls.last()];
    assert(calls =~= flashing + gap);
    lemma_run_concat(r, flashing, gap);
    let dark = r.after(flashing);
    if n == 0 {
        let off = r.moved(flashing[0]);
        assert(flashing.skip(1)[0] == flashing[1]);
        assert(flashing.skip(1).skip(1).len() == 0);
        assert(off.shown(flashing.skip(1)) =~= seq![Segment { lit: false, ms: BLINK_MS }]) by {
            reveal_with_fuel(Report::shown, 2);
        }
        assert(dark == off.moved(flashing[1])) by {
            reveal_with_fuel(Report::after, 3);
        }
        assert(r.shown(flashing) =~= seq![
            Segment { lit: true, ms: LONG_MS },
            Segment { lit: false, ms: BLINK_MS },
        ]);
    } else {
        lemma_flashes_shown(r, flashing);
    }
    assert(gap.skip(1).len() == 0);
    assert(dark.shown(gap) =~= seq![Segment { lit: false, ms: NUM_GAP_MS }]) by {
        reveal_with_fuel(Report::shown, 2);
    }
    assert(dark.after(gap) == dark.moved(calls.last())) by {
        reveal_with_fuel(Report::after, 2);
    }
    assert(r.shown(calls) =~= number_segments(n));
}

/// A number, once begun, is shown to its end whatever the counters do meanwhile: the
/// flashes that stand for it, and the gap after them.
pub proof fn law_number_is_shown(r: Report, n: u32, now_ms: u32, calls: Seq<Call>)
    requires
        calls.len() == number_segments(n).len(),
    ensures
        r.number_begun(n, now_ms).shown(calls) == number_segments(n),
{
    lemma_number_shown(r.number_begun(n, now_ms), n, calls);
}

/// The number `n` lights the LED `n` times, and once for zero. A flash lasts 300 ms, or
/// 900 ms for zero, and 300 ms of darkness follow each; the second of darkness after
/// the last makes 1300 ms.
pub proof fn law_number_flashes(n: u32)
    ensures
        ({
            let flashes: int = if n == 0 {
                1
            } else {
                n as int
            };
            &&& number_segments(n).len() == 2 * flashes + 1
            &&& forall|i: int|
                0 <= i < 2 * flashes ==> #[trigger] number_segments(n)[i] == (Segment {
                    lit: i % 2 == 0,
                    ms: if n == 0 && i == 0 {
                        900
                    } else {
                        300
                    },
                })
            &&& number_segments(n).last() == (Segment { lit: false, ms: 1000 })
        }),
{
    lemma_short_flashes(n as nat);
    if n > 0 {
        assert forall|i: int| 0 <= i < 2 * n implies #[trigger] number_segments(n)[i] == (Segment {
            lit: i % 2 == 0,
            ms: 300,
        }) by {
            assert(number_segments(n)[i] == short_flashes(n as nat)[i]);
        }
    }
}

/// The numbers of a message from the `k`-th on: `r` has just begun it.
proof fn lemma_numbers_shown(r: Report, calls: Seq<Call>, at: int, k: int)
    requires
        0 <= k < REPORT_LEN,
        0 <= at,
        r.phase == Phase::On,
        r.num == k + 1,
        r.long == (calls[at].vals()[k] == 0),
        r.left == (if calls[at].vals()[k] == 0 {
            0
        } else {
            calls[at].vals()[k] - 1
        }),
        calls.len() == at + 1 + numbers_segments(dictated(calls, at, k), 0).len(),
    ensures
        r.shown(calls.skip(at + 1)) == numbers_segments(dictated(calls, at, k), 0),
        r.after(calls.skip(at + 1)).phase == Phase::Start,
        r.after(calls.skip(at + 1)).num == 0,
        r.after(calls.skip(at + 1)).started == r.started,
    decreases REPORT_LEN - k,
{
    let n = calls[at].vals()[k];
    let m = number_segments(n).len() as int;
    let vals = dictated(calls, at, k);
    let later = dictated(calls, at + m, k + 1);
    assert(vals == seq![n] + later);
    lemma_numbers_from(n, later);
    let nows = calls.skip(at + 1);
    let a = nows.take(m);
    let b = nows.skip(m);
    assert(nows =~= a + b);
    assert(b =~= calls.skip(at + m + 1));
    assert(a.last() == calls[at + m]);
    lemma_number_shown(r, n, a);
    lemma_run_concat(r, a, b);
    let next = r.after(a);
    if k + 1 < REPORT_LEN {
        lemma_numbers_shown(next, calls, at + m, k + 1);
    } else {
        assert(later =~= Seq::<u32>::empty());
        assert(numbers_segments(later, 0) =~= Seq::<Segment>::empty());
        assert(b.len() == 0);
    }
    assert(r.shown(nows) =~= numbers_segments(vals, 0));
}

proof fn lemma_numbers_shift(n: u32, vals: Seq<u32>, k: int)
    requires
        0 <= k,
    ensures
        numbers_segments(seq![n] + vals, k + 1) == numbers_segments(vals, k),
    decreases vals.len() - k,
{
    if k < vals.len() {
        assert((seq![n] + vals)[k + 1] == vals[k]);
        lemma_numbers_shift(n, vals, k + 1);
    }
}

proof fn lemma_numbers_from(n: u32, later: Seq<u32>)
    ensures
        numbers_segments(seq![n] + later, 0) == number_segments(n) + numbers_segments(later, 0),
{
    assert((seq![n] + later)[0] == n);
    lemma_numbers_shift(n, later, 0);
}

/// What the LED shows during one message is the message: the starting light, a gap, and
/// six numbers in order, each with a gap after it. Each number is the one that the
/// counters gave when it began, whatever they do before and after. Then the next
/// message begins.
pub proof fn law_message_is_shown(r: Report, calls: Seq<Call>)
    requires
        r.phase == Phase::Start,
        r.num == 0,
        calls.len() == message_segments(dictated(calls, 1, 0)).len(),
    ensures
        dictated(calls, 1, 0).len() == REPORT_LEN,
        r.shown(calls) == message_segments(dictated(calls, 1, 0)),
        r.after(calls).phase == Phase::Start,
        r.after(calls).num == 0,
        r.after(calls).started == r.started,
{
    reveal_with_fuel(dictated, 7);
    let gap = r.moved(calls[0]);
    let first = gap.moved(calls[1]);
    let rest = calls.skip(1).skip(1);
    assert(calls.skip(1)[0] == calls[1]);
    assert(gap.shown(calls.skip(1)) == seq![Segment { lit: false, ms: NUM_GAP_MS }] + first.shown(
        rest,
    ));
    assert(gap.after(calls.skip(1)) == first.after(rest));
    assert(r.after(calls) == gap.after(calls.skip(1)));
    assert(rest =~= calls.skip(2));
    lemma_numbers_shown(first, calls, 1, 0);
    assert(r.shown(calls) =~= message_segments(dictated(calls, 1, 0)));
}

/// Calls between the ends of the phases change nothing: however often the report is
/// called, it goes through the phases that the moving calls alone bring.
pub proof fn law_idle_calls_do_not_matter(r: Report, calls: Seq<Call>)
    requires
        r.started,
    ensures
        r.ticks(calls) == r.after(r.moves_among(calls)),
        r.ticks(calls).started,
    decreases calls.len(),
{
    if calls.len() > 0 {
        let next = r.tick(calls[0].vals(), calls[0].now_ms);
        let rest = next.moves_among(calls.skip(1));
        law_idle_calls_do_not_matter(next, calls.skip(1));
        if r.moves(calls[0].now_ms) {
            assert((seq![calls[0]] + rest).skip(1) =~= rest);
        } else {
            assert(Seq::<Call>::empty() + rest =~= rest);
        }
    }
}

/// When the `i`-th of the moving calls `moving` finds its phase begun, for a report
/// whose current phase began at `t0`.
pub open spec fn phase_began(t0: u32, moving: Seq<Call>, i: int) -> u32 {
    if i == 0 {
        t0
    } else {
        moving[i - 1].now_ms
    }
}

/// Every stretch of light or darkness lasts at least as long as it is meant to, however
/// often and whenever the report is called.
pub proof fn law_phases_last(r: Report, calls: Seq<Call>)
    requires
        r.started,
    ensures
        ({
            let moving = r.moves_among(calls);
            &&& r.shown(moving).len() == moving.len()
            &&& forall|i: int|
                0 <= i < moving.len() ==> crate::clock::elapsed(
                    moving[i].now_ms,
                    phase_began(r.t0, moving, i),
                ) >= (#[trigger] r.shown(moving)[i]).ms
        }),
    decreases calls.len(),
{
    if calls.len() > 0 {
        let c = calls[0];
        let next = r.tick(c.vals(), c.now_ms);
        let rest = next.moves_among(calls.skip(1));
        let moving = r.moves_among(calls);
        law_phases_last(next, calls.skip(1));
        if r.moves(c.now_ms) {
            assert(next == r.moved(c));
            assert(next.t0 == c.now_ms);
            assert(moving =~= seq![c] + rest);
            assert(moving.skip(1) =~= rest);
            assert forall|i: int| 0 <= i < moving.len() implies crate::clock::elapsed(
                moving[i].now_ms,
                phase_began(r.t0, moving, i),
            ) >= (#[trigger] r.shown(moving)[i]).ms by {
                if i > 0 {
                    assert(r.shown(moving)[i] == next.shown(rest)[i - 1]);
                    assert(moving[i] == rest[i - 1]);
                    assert(phase_began(next.t0, rest, i - 1) == phase_began(r.t0, moving, i));
                }
            }
        } else {
            assert(moving =~= rest);
        }
    }
}

/// A call acts exactly when the report has not begun or its phase has lasted: 3000 ms for
/// the starting light, 900 ms for a flash that stands for zero, 300 ms for any other flash
/// and for the darkness after one, 1000 ms between numbers. A second call at the same time
/// does nothing.
pub proof fn law_call_acts_when_due(r: Report, vals: Seq<u32>, now: u32)
    ensures
        !r.started ==> r.moves(now),
        r.started ==> (r.moves(now) <==> crate::clock::elapsed(now, r.t0) >= (match r.phase {
            Phase::Start => 3000int,
            Phase::On => if r.long {
                900int
            } else {
                300
            },
            Phase::Off => 300int,
            Phase::Gap => 1000int,
        })),
        !r.moves(now) ==> r.tick(vals, now) == r,
        r.moves(now) ==> r.tick(vals, now).started && r.tick(vals, now).t0 == now,
        !r.tick(vals, now).moves(now),
        r.tick(vals, now).tick(vals, now) == r.tick(vals, now),
{
}

/// The first call begins a message, from its first number on.
pub proof fn law_first_call_begins_a_message(r: Report, vals: Seq<u32>, now: u32)
    requires
        !r.started,
    ensures
        r.tick(vals, now).started,
        r.tick(vals, now).phase == Phase::Start,
        r.tick(vals, now).num == 0,
        r.tick(vals, now).t0 == now,
{
}

/// When the gap before the number `k` of a message is over, that number begins, as it is
/// read then, and is shown whatever the counters do after; after the last number a new
/// message begins.
pub proof fn law_gap_ends_with_the_next_number(
    r: Report,
    vals: Seq<u32>,
    now: u32,
    calls: Seq<Call>,
)
    requires
        r.phase == Phase::Gap,
        vals.len() == 6,
    ensures
        r.num < 6 ==> r.next_phase(vals, now).num == r.num + 1 && r.next_phase(vals, now).phase
            == Phase::On,
        r.num < 6 && calls.len() == number_segments(vals[r.num as int]).len() ==> r.next_phase(
            vals,
            now,
        ).shown(calls) == number_segments(vals[r.num as int]),
        r.num >= 6 ==> r.next_phase(vals, now).num == 0 && r.next_phase(vals, now).phase
            == Phase::Start,
{
    if r.num < 6 && calls.len() == number_segments(vals[r.num as int]).len() {
        lemma_number_shown(r.next_phase(vals, now), vals[r.num as int], calls);
    }
}

/// A message is three seconds of light and a second of darkness, and then its six numbers
/// in order.
pub proof fn law_message_layout(vals: Seq<u32>)
    requires
        vals.len() == 6,
    ensures
        message_segments(vals) == seq![
            Segment { lit: true, ms: 3000 },
            Segment { lit: false, ms: 1000 },
        ] + number_segments(vals[0]) + number_segments(vals[1]) + number_segments(vals[2])
            + number_segments(vals[3]) + number_segments(vals[4]) + number_segments(vals[5]),
{
    reveal_with_fuel(numbers_segments, 7);
    assert(message_segments(vals) =~= seq![
        Segment { lit: true, ms: 3000 },
        Segment { lit: false, ms: 1000 },
    ] + number_segments(vals[0]) + number_segments(vals[1]) + number_segments(vals[2])
        + number_segments(vals[3]) + number_segments(vals[4]) + number_segments(vals[5]));
}

/// No two numbers look alike, zero included.
pub proof fn law_numbers_are_distinct(a: u32, b: u32)
    requires
        number_segments(a) == number_segments(b),
    ensures
        a == b,
{
    lemma_short_flashes(a as nat);
    lemma_short_flashes(b as nat);
    assert(number_segments(a).len() == (if a == 0 { 3 } else { 2 * a + 1 }));
    assert(number_segments(b).len() == (if b == 0 { 3 } else { 2 * b + 1 }));
    if a != b {
        assert(a == 0 || b == 0);
        assert(short_flashes(1)[0] == Segment { lit: true, ms: BLINK_MS });
        assert(number_segments(0)[0] == Segment { lit: true, ms: LONG_MS });
        assert(number_segments(1)[0] == short_flashes(1)[0]);
    }
}

} // verus!
