//! The LED: its polarity, who owns it, and the blink patterns.
//!
//! A pattern is a list of operations that its script hands out one at a time.
use vstd::prelude::*;
use crate::config::Board;

verus! {

/// The LED's bit in the output registers of port 0 (P0.15).
pub const LED_BIT: u32 = 0x8000;

/// A write to one of the output registers of port 0.
#[derive(Copy, Clone, Debug, PartialEq, Eq, Structural)]
pub enum GpioWrite {
    /// Drive the pins of the mask high.
    OutSet(u32),
    /// Drive the pins of the mask low.
    OutClr(u32),
}

impl GpioWrite {
    /// The output levels `out` of the port after the write.
    pub open spec fn applied(self, out: u32) -> u32 {
        match self {
            GpioWrite::OutSet(mask) => out | mask,
            GpioWrite::OutClr(mask) => out & !mask,
        }
    }
}

/// The diagnostic side of the LED.
#[derive(Copy, Clone, Debug, PartialEq, Eq, Structural)]
pub struct LedChannel {
    /// A high level lights the LED.
    pub active_high: bool,
    /// Diagnostics have used the LED, so the ordinary indication keeps off it.
    pub reserved: bool,
}

impl LedChannel {
    /// The channel of `board`, not yet used by diagnostics. The DK's LED lights
    /// on a low level, those of the other boards on a high one.
    pub fn new(board: Board) -> (c: Self)
        ensures
            c.active_high == (board != Board::Dk),
            !c.reserved,
    {
        LedChannel { active_high: board != Board::Dk, reserved: false }
    }

    /// The LED is lit when the port's output levels are `out`.
    pub open spec fn lit(self, out: u32) -> bool {
        (out & LED_BIT != 0) == self.active_high
    }

    /// The write that switches the LED.
    pub open spec fn write(self, on: bool) -> GpioWrite {
        if on == self.active_high {
            GpioWrite::OutSet(LED_BIT)
        } else {
            GpioWrite::OutClr(LED_BIT)
        }
    }

    /// The channel once diagnostics have used it.
    pub open spec fn taken(self) -> LedChannel {
        LedChannel { reserved: true, ..self }
    }
}

/// Switches the LED for diagnostics and reserves it for them.
pub fn led_raw(led: &mut LedChannel, on: bool) -> (w: GpioWrite)
    ensures
        w == old(led).write(on),
        *final(led) == old(led).taken(),
{
    led.reserved = true;
    if on == led.active_high {
        GpioWrite::OutSet(LED_BIT)
    } else {
        GpioWrite::OutClr(LED_BIT)
    }
}

/// Switching the LED lights it exactly when asked to, on either polarity, and
/// moves no other pin of the port.
pub proof fn law_led_write_switches_only_the_led(led: LedChannel, on: bool, out: u32)
    ensures
        led.lit(led.write(on).applied(out)) == on,
        led.write(on).applied(out) & !LED_BIT == out & !LED_BIT,
        on == led.active_high ==> led.write(on).applied(out) == out | 0x8000,
        on != led.active_high ==> led.write(on).applied(out) == out & !0x8000u32,
{
    assert((out | 0x8000u32) & 0x8000u32 != 0) by (bit_vector);
    assert((out & !0x8000u32) & 0x8000u32 == 0) by (bit_vector);
    assert((out | 0x8000u32) & !0x8000u32 == out & !0x8000u32) by (bit_vector);
    assert((out & !0x8000u32) & !0x8000u32 == out & !0x8000u32) by (bit_vector);
}

/// One operation of a blink pattern.
#[derive(Copy, Clone, Debug, PartialEq, Eq, Structural)]
pub enum LedOp {
    /// Make the LED's pin an output, for code that runs before the board is set
    /// up.
    ForceOutput,
    /// Switch the LED on or off.
    Light(bool),
    /// Wait that many CPU cycles.
    Spin(u32),
}

impl LedOp {
    /// What the operation writes to the port.
    pub open spec fn write(self, led: LedChannel) -> Option<GpioWrite> {
        match self {
            LedOp::Light(on) => Some(led.write(on)),
            _ => None,
        }
    }

    /// The channel after the operation: switching the LED reserves it.
    pub open spec fn after(self, led: LedChannel) -> LedChannel {
        match self {
            LedOp::Light(_) => led.taken(),
            _ => led,
        }
    }
}

/// Carries out the part of an operation that concerns the LED's channel: switching the
/// LED is a write, and reserves the channel. The pin's mode and the waiting are left to
/// the caller.
pub fn carry_out(op: LedOp, led: &mut LedChannel) -> (w: Option<GpioWrite>)
    ensures
        op matches LedOp::Light(on) ==> w == Some(old(led).write(on)) && *final(led) == old(
            led,
        ).taken(),
        op !is Light ==> w is None && *final(led) == *old(led),
        w == op.write(*old(led)),
        *final(led) == op.after(*old(led)),
{
    match op {
        LedOp::Light(on) => Some(led_raw(led, on)),
        LedOp::ForceOutput => None,
        LedOp::Spin(_) => None,
    }
}

/// The channel after all of `ops`.
pub open spec fn played(led: LedChannel, ops: Seq<LedOp>) -> LedChannel
    decreases ops.len(),
{
    if ops.len() == 0 {
        led
    } else {
        ops.last().after(played(led, ops.drop_last()))
    }
}

/// The output levels of the port after all of `ops`, which were `out` before.
pub open spec fn port_after(led: LedChannel, ops: Seq<LedOp>, out: u32) -> u32
    decreases ops.len(),
{
    if ops.len() == 0 {
        out
    } else {
        let before = port_after(led, ops.drop_last(), out);
        match ops.last().write(played(led, ops.drop_last())) {
            Some(w) => w.applied(before),
            None => before,
        }
    }
}

/// One blink.
pub open spec fn blink_once(on_cycles: u32, off_cycles: u32) -> Seq<LedOp> {
    seq![LedOp::Light(true), LedOp::Spin(on_cycles), LedOp::Light(false), LedOp::Spin(off_cycles)]
}

/// A number of blinks.
pub open spec fn blinks(times: nat, on_cycles: u32, off_cycles: u32) -> Seq<LedOp>
    decreases times,
{
    if times == 0 {
        Seq::empty()
    } else {
        blink_once(on_cycles, off_cycles) + blinks((times - 1) as nat, on_cycles, off_cycles)
    }
}

/// The pattern of [`blink_raw`].
pub open spec fn blink_pattern(times: u32, on_cycles: u32, off_cycles: u32) -> Seq<LedOp> {
    seq![LedOp::ForceOutput] + blinks(times as nat, on_cycles, off_cycles)
}

/// The pattern of [`blink_digit`].
pub open spec fn digit_pattern(d: u32) -> Seq<LedOp> {
    blink_pattern(d, 4_000_000, 4_000_000).push(LedOp::Spin(96_000_000))
}

/// Where a script stands within a blink.
#[derive(Copy, Clone, Debug, PartialEq, Eq, Structural)]
enum BlinkPhase {
    Light,
    Lit,
    Dim,
    Dark,
}

/// A blink pattern being played.
pub struct LedScript {
    force: bool,
    left: u32,
    phase: BlinkPhase,
    on_cycles: u32,
    off_cycles: u32,
    tail: Option<u32>,
}

impl BlinkPhase {
    spec fn done(self) -> int {
        match self {
            BlinkPhase::Light => 0,
            BlinkPhase::Lit => 1,
            BlinkPhase::Dim => 2,
            BlinkPhase::Dark => 3,
        }
    }
}

impl View for LedScript {
    type V = Seq<LedOp>;

    /// The operations still to come.
    closed spec fn view(&self) -> Seq<LedOp> {
        (if self.force {
            seq![LedOp::ForceOutput]
        } else {
            Seq::empty()
        }) + (if self.left == 0 {
            Seq::empty()
        } else {
            blink_once(self.on_cycles, self.off_cycles).skip(self.phase.done()) + blinks(
                (self.left - 1) as nat,
                self.on_cycles,
                self.off_cycles,
            )
        }) + (if self.tail is Some {
            seq![LedOp::Spin(self.tail->0)]
        } else {
            Seq::empty()
        })
    }
}

impl LedScript {
    /// The next operation, or nothing when the pattern is over.
    pub fn next(&mut self) -> (op: Option<LedOp>)
        ensures
            old(self)@.len() == 0 ==> op is None && final(self)@ == old(self)@,
            old(self)@.len() > 0 ==> op == Some(old(self)@[0]) && final(self)@ == old(self)@.skip(1),
    {
        let ghost before = self@;
        let ghost on = self.on_cycles;
        let ghost off = self.off_cycles;
        if self.force {
            self.force = false;
            assert(before.skip(1) =~= self@);
            return Some(LedOp::ForceOutput);
        }
        if self.left > 0 {
            let op = match self.phase {
                BlinkPhase::Light => {
                    self.phase = BlinkPhase::Lit;
                    LedOp::Light(true)
                },
                BlinkPhase::Lit => {
                    self.phase = BlinkPhase::Dim;
                    LedOp::Spin(self.on_cycles)
                },
                BlinkPhase::Dim => {
                    self.phase = BlinkPhase::Dark;
                    LedOp::Light(false)
                },
                BlinkPhase::Dark => {
                    self.phase = BlinkPhase::Light;
                    self.left = self.left - 1;
                    assert(blink_once(on, off).skip(0) =~= blink_once(on, off));
                    LedOp::Spin(self.off_cycles)
                },
            };
            assert(before.skip(1) =~= self@);
            return Some(op);
        }
        match self.tail {
            Some(cycles) => {
                self.tail = None;
                assert(before.skip(1) =~= self@);
                Some(LedOp::Spin(cycles))
            },
            None => None,
        }
    }
}

/// Blinks `times` times, lit for `on_cycles` and dark for `off_cycles`.
pub fn blink_raw(times: u32, on_cycles: u32, off_cycles: u32) -> (s: LedScript)
    ensures
        s@ == blink_pattern(times, on_cycles, off_cycles),
{
    let s = LedScript {
        force: true,
        left: times,
        phase: BlinkPhase::Light,
        on_cycles,
        off_cycles,
        tail: None,
    };
    assert(blink_once(on_cycles, off_cycles).skip(0) =~= blink_once(on_cycles, off_cycles));
    assert(s@ =~= blink_pattern(times, on_cycles, off_cycles));
    s
}

/// Blinks a pattern and then waits.
fn blink_then(times: u32, on_cycles: u32, off_cycles: u32, pause: u32) -> (s: LedScript)
    ensures
        s@ == blink_pattern(times, on_cycles, off_cycles).push(LedOp::Spin(pause)),
{
    let s = LedScript {
        force: true,
        left: times,
        phase: BlinkPhase::Light,
        on_cycles,
        off_cycles,
        tail: Some(pause),
    };
    assert(blink_once(on_cycles, off_cycles).skip(0) =~= blink_once(on_cycles, off_cycles));
    assert(s@ =~= blink_pattern(times, on_cycles, off_cycles).push(LedOp::Spin(pause)));
    s
}

/// Dictates one digit: that many quick blinks and a long pause. A group without
/// blinks reads as zero.
pub fn blink_digit(d: u32) -> (s: LedScript)
    ensures
        s@ == digit_pattern(d),
{
    blink_then(d, 4_000_000, 4_000_000, 96_000_000)
}

/// The signature of a hard fault: quick blinking, played over and over.
pub fn fault_pattern() -> (s: LedScript)
    ensures
        s@ == blink_pattern(1, 2_000_000, 2_000_000),
{
    blink_raw(1, 2_000_000, 2_000_000)
}

/// How often a pattern lights the LED.
pub open spec fn flashes(ops: Seq<LedOp>) -> nat
    decreases ops.len(),
{
    if ops.len() == 0 {
        0
    } else {
        flashes(ops.drop_last()) + (if ops.last() == LedOp::Light(true) {
            1nat
        } else {
            0
        })
    }
}

proof fn lemma_flashes_concat(a: Seq<LedOp>, b: Seq<LedOp>)
    ensures
        flashes(a + b) == flashes(a) + flashes(b),
    decreases b.len(),
{
    if b.len() == 0 {
        assert(a + b =~= a);
    } else {
        assert((a + b).drop_last() =~= a + b.drop_last());
        lemma_flashes_concat(a, b.drop_last());
    }
}

proof fn lemma_blinks_flash(times: nat, on_cycles: u32, off_cycles: u32)
    ensures
        flashes(blinks(times, on_cycles, off_cycles)) == times,
    decreases times,
{
    if times > 0 {
        let once = blink_once(on_cycles, off_cycles);
        assert(flashes(once) == 1) by {
            reveal_with_fuel(flashes, 5);
        }
        lemma_flashes_concat(once, blinks((times - 1) as nat, on_cycles, off_cycles));
        lemma_blinks_flash((times - 1) as nat, on_cycles, off_cycles);
    }
}

/// A pattern of `times` blinks lights the LED exactly that often, and the group
/// of a digit exactly as often as the digit says.
pub proof fn law_pattern_counts_its_blinks(times: u32, on_cycles: u32, off_cycles: u32)
    ensures
        flashes(blink_pattern(times, on_cycles, off_cycles)) == times,
        flashes(digit_pattern(times)) == times,
{
    let force = seq![LedOp::ForceOutput];
    assert(flashes(force) == 0) by {
        reveal_with_fuel(flashes, 2);
    }
    lemma_blinks_flash(times as nat, on_cycles, off_cycles);
    lemma_flashes_concat(force, blinks(times as nat, on_cycles, off_cycles));
    lemma_blinks_flash(times as nat, 4_000_000, 4_000_000);
    lemma_flashes_concat(force, blinks(times as nat, 4_000_000, 4_000_000));
    let digit = blink_pattern(times, 4_000_000, 4_000_000);
    assert(digit.push(LedOp::Spin(96_000_000)).drop_last() =~= digit);
}

/// A pattern, operation by operation: the pin is made an output, and each blink is
/// switch on, wait, switch off, wait, with the same two waits every time.
pub proof fn law_blinks_are_alike(times: u32, on_cycles: u32, off_cycles: u32, i: int)
    requires
        0 <= i < times,
    ensures
        ({
            let ops = blink_pattern(times, on_cycles, off_cycles);
            &&& ops.len() == 1 + 4 * times
            &&& ops[0] == LedOp::ForceOutput
            &&& ops[4 * i + 1] == LedOp::Light(true)
            &&& ops[4 * i + 2] == LedOp::Spin(on_cycles)
            &&& ops[4 * i + 3] == LedOp::Light(false)
            &&& ops[4 * i + 4] == LedOp::Spin(off_cycles)
        }),
{
    lemma_blinks_alike(times as nat, on_cycles, off_cycles, i);
    let all = blinks(times as nat, on_cycles, off_cycles);
    let ops = blink_pattern(times, on_cycles, off_cycles);
    assert(ops[4 * i + 1] == all[4 * i]);
    assert(ops[4 * i + 2] == all[4 * i + 1]);
    assert(ops[4 * i + 3] == all[4 * i + 2]);
    assert(ops[4 * i + 4] == all[4 * i + 3]);
}

proof fn lemma_blinks_alike(times: nat, on_cycles: u32, off_cycles: u32, i: int)
    requires
        0 <= i < times,
    ensures
        ({
            let all = blinks(times, on_cycles, off_cycles);
            &&& all.len() == 4 * times
            &&& all[4 * i] == LedOp::Light(true)
            &&& all[4 * i + 1] == LedOp::Spin(on_cycles)
            &&& all[4 * i + 2] == LedOp::Light(false)
            &&& all[4 * i + 3] == LedOp::Spin(off_cycles)
        }),
    decreases times,
{
    let all = blinks(times, on_cycles, off_cycles);
    let rest = blinks((times - 1) as nat, on_cycles, off_cycles);
    if i > 0 {
        lemma_blinks_alike((times - 1) as nat, on_cycles, off_cycles, i - 1);
        assert(all[4 * i] == rest[4 * (i - 1)]);
        assert(all[4 * i + 1] == rest[4 * (i - 1) + 1]);
        assert(all[4 * i + 2] == rest[4 * (i - 1) + 2]);
        assert(all[4 * i + 3] == rest[4 * (i - 1) + 3]);
    } else if times > 1 {
        lemma_blinks_alike((times - 1) as nat, on_cycles, off_cycles, 0);
    } else {
        assert(rest.len() == 0);
    }
}

/// A digit is dictated by quick blinks of 4,000,000 cycles each way and closed by a pause
/// of 96,000,000. A zero is the pause alone.
pub proof fn law_digit_is_blinks_and_a_pause(d: u32)
    ensures
        digit_pattern(d).len() == 2 + 4 * d,
        digit_pattern(d).last() == LedOp::Spin(96_000_000),
        digit_pattern(d).drop_last() == blink_pattern(d, 4_000_000, 4_000_000),
{
    if d > 0 {
        law_blinks_are_alike(d, 4_000_000, 4_000_000, 0);
    }
    assert(digit_pattern(d).drop_last() =~= blink_pattern(d, 4_000_000, 4_000_000));
}

proof fn lemma_played_concat(led: LedChannel, a: Seq<LedOp>, b: Seq<LedOp>, out: u32)
    ensures
        played(led, a + b) == played(played(led, a), b),
        port_after(led, a + b, out) == port_after(played(led, a), b, port_after(led, a, out)),
    decreases b.len(),
{
    if b.len() == 0 {
        assert(a + b =~= a);
    } else {
        assert((a + b).drop_last() =~= a + b.drop_last());
        assert((a + b).last() == b.last());
        lemma_played_concat(led, a, b.drop_last(), out);
    }
}

proof fn lemma_blink_played(led: LedChannel, on_cycles: u32, off_cycles: u32, out: u32)
    ensures
        played(led, blink_once(on_cycles, off_cycles)) == led.taken(),
        !led.lit(port_after(led, blink_once(on_cycles, off_cycles), out)),
        port_after(led, blink_once(on_cycles, off_cycles), out) & !LED_BIT == out & !LED_BIT,
{
    let once = blink_once(on_cycles, off_cycles);
    let dimmed = seq![LedOp::Light(true), LedOp::Spin(on_cycles), LedOp::Light(false)];
    let lit = seq![LedOp::Light(true), LedOp::Spin(on_cycles)];
    let first = seq![LedOp::Light(true)];
    assert(once.drop_last() =~= dimmed);
    assert(dimmed.drop_last() =~= lit);
    assert(lit.drop_last() =~= first);
    assert(first.drop_last() =~= Seq::<LedOp>::empty());
    assert(played(led, first.drop_last()) == led);
    assert(port_after(led, first.drop_last(), out) == out);
    assert(played(led, first) == led.taken());
    assert(played(led, lit) == led.taken());
    assert(played(led, dimmed) == led.taken());
    let bright = led.write(true).applied(out);
    assert(port_after(led, first, out) == bright);
    assert(port_after(led, lit, out) == bright);
    assert(led.taken().write(false) == led.write(false));
    assert(port_after(led, dimmed, out) == led.write(false).applied(bright));
    assert(port_after(led, once, out) == led.write(false).applied(bright));
    law_led_write_switches_only_the_led(led, true, out);
    law_led_write_switches_only_the_led(led, false, bright);
}

proof fn lemma_blinks_played(led: LedChannel, times: nat, on_cycles: u32, off_cycles: u32, out: u32)
    ensures
        played(led, blinks(times, on_cycles, off_cycles)) == (if times > 0 {
            led.taken()
        } else {
            led
        }),
        times == 0 ==> port_after(led, blinks(times, on_cycles, off_cycles), out) == out,
        times > 0 ==> !led.lit(port_after(led, blinks(times, on_cycles, off_cycles), out)),
        port_after(led, blinks(times, on_cycles, off_cycles), out) & !LED_BIT == out & !LED_BIT,
    decreases times,
{
    if times > 0 {
        let once = blink_once(on_cycles, off_cycles);
        let rest = blinks((times - 1) as nat, on_cycles, off_cycles);
        let between = port_after(led, once, out);
        lemma_blink_played(led, on_cycles, off_cycles, out);
        lemma_played_concat(led, once, rest, out);
        lemma_blinks_played(led.taken(), (times - 1) as nat, on_cycles, off_cycles, between);
    }
}

/// A played pattern reserves the LED for diagnostics as soon as it blinks at all, and
/// leaves it dark. One without a blink leaves the channel and the LED as they were. No
/// other pin moves in either case.
pub proof fn law_blinking_reserves_the_led(
    led: LedChannel,
    times: u32,
    on_cycles: u32,
    off_cycles: u32,
    out: u32,
)
    ensures
        ({
            let ops = blink_pattern(times, on_cycles, off_cycles);
            &&& played(led, ops).reserved <==> led.reserved || times > 0
            &&& played(led, ops).active_high == led.active_high
            &&& times == 0 ==> port_after(led, ops, out) == out
            &&& times > 0 ==> !led.lit(port_after(led, ops, out))
            &&& port_after(led, ops, out) & !LED_BIT == out & !LED_BIT
        }),
        ({
            let ops = digit_pattern(times);
            &&& played(led, ops).reserved <==> led.reserved || times > 0
            &&& times == 0 ==> port_after(led, ops, out) == out
            &&& times > 0 ==> !led.lit(port_after(led, ops, out))
        }),
{
    let force = seq![LedOp::ForceOutput];
    assert(force.drop_last() =~= Seq::<LedOp>::empty());
    assert(played(led, force.drop_last()) == led);
    assert(port_after(led, force.drop_last(), out) == out);
    assert(played(led, force) == led);
    assert(port_after(led, force, out) == out);
    lemma_blinks_played(led, times as nat, on_cycles, off_cycles, out);
    lemma_played_concat(led, force, blinks(times as nat, on_cycles, off_cycles), out);
    lemma_blinks_played(led, times as nat, 4_000_000, 4_000_000, out);
    lemma_played_concat(led, force, blinks(times as nat, 4_000_000, 4_000_000), out);
    let digit = blink_pattern(times, 4_000_000, 4_000_000);
    assert(digit_pattern(times).drop_last() =~= digit);
}

/// The groups of the panic pattern for a source line: the marker, hundreds,
/// tens, units, and the closing pause.
pub open spec fn panic_group(line: u32, k: int) -> Seq<LedOp> {
    if k == 0 {
        blink_pattern(5, 16_000_000, 16_000_000).push(LedOp::Spin(96_000_000))
    } else if k == 1 {
        digit_pattern(line / 100)
    } else if k == 2 {
        digit_pattern((line / 10) % 10)
    } else if k == 3 {
        digit_pattern(line % 10)
    } else {
        seq![LedOp::Spin(192_000_000)]
    }
}

/// The groups of the panic pattern from the `k`-th on.
pub open spec fn panic_groups(line: u32, k: int) -> Seq<LedOp>
    decreases 5 - k,
{
    if k >= 5 {
        Seq::empty()
    } else {
        panic_group(line, k) + panic_groups(line, k + 1)
    }
}

/// Blinks the source line of a panic, over and over: five slow blinks as a
/// marker, then the hundreds, the tens and the units of the line number.
pub struct PanicPattern {
    line: u32,
    group: u8,
    script: LedScript,
}

impl View for PanicPattern {
    type V = Seq<LedOp>;

    /// The operations left of the current round.
    closed spec fn view(&self) -> Seq<LedOp> {
        self.script@ + panic_groups(self.line, self.group + 1)
    }
}

fn panic_script(line: u32, k: u8) -> (s: LedScript)
    ensures
        s@ == panic_group(line, k as int),
{
    if k == 0 {
        blink_then(5, 16_000_000, 16_000_000, 96_000_000)
    } else if k == 1 {
        blink_digit(line / 100)
    } else if k == 2 {
        blink_digit((line / 10) % 10)
    } else if k == 3 {
        blink_digit(line % 10)
    } else {
        let s = LedScript {
            force: false,
            left: 0,
            phase: BlinkPhase::Light,
            on_cycles: 0,
            off_cycles: 0,
            tail: Some(192_000_000),
        };
        assert(s@ =~= seq![LedOp::Spin(192_000_000)]);
        s
    }
}

impl PanicPattern {
    /// The line that is blinked.
    pub closed spec fn line(&self) -> u32 {
        self.line
    }

    /// The pattern for `line`, at the start of a round.
    pub fn new(line: u32) -> (p: Self)
        ensures
            p.line() == line,
            p@ == panic_groups(line, 0),
    {
        PanicPattern { line, group: 0, script: panic_script(line, 0) }
    }

    /// The next operation. A round that is over starts again.
    pub fn next(&mut self) -> (op: LedOp)
        ensures
            final(self).line() == old(self).line(),
            ({
                let ops = if old(self)@.len() > 0 {
                    old(self)@
                } else {
                    panic_groups(old(self).line(), 0)
                };
                &&& ops.len() > 0
                &&& op == ops[0]
                &&& final(self)@ == ops.skip(1)
            }),
    {
        let ghost before = self@;
        let ghost line = self.line;
        let ghost group = self.group;
        match self.script.next() {
            Some(op) => {
                assert(before.skip(1) =~= self@);
                return op;
            },
            None => {},
        }
        assert(before =~= panic_groups(line, group + 1));
        self.group = if self.group < 4 {
            self.group + 1
        } else {
            0
        };
        self.script = panic_script(self.line, self.group);
        let ghost ops = self@;
        proof {
            assert(self.script@.len() > 0);
            if group >= 4 {
                assert(before.len() == 0);
            }
            assert(ops =~= panic_groups(line, self.group as int));
        }
        match self.script.next() {
            Some(op) => {
                assert(ops.skip(1) =~= self@);
                op
            },
            None => LedOp::Spin(0),
        }
    }
}

/// The three groups of the panic pattern give the line number back, for every
/// line number: a line past 999 has more than nine blinks in its first group.
pub proof fn law_panic_groups_spell_the_line(line: u32)
    ensures
        100 * flashes(panic_group(line, 1)) + 10 * flashes(panic_group(line, 2)) + flashes(
            panic_group(line, 3),
        ) == line,
        flashes(panic_group(line, 0)) == 5,
        flashes(panic_group(line, 2)) <= 9,
        flashes(panic_group(line, 3)) <= 9,
{
    law_pattern_counts_its_blinks(line / 100, 0, 0);
    law_pattern_counts_its_blinks((line / 10) % 10, 0, 0);
    law_pattern_counts_its_blinks(line % 10, 0, 0);
    law_pattern_counts_its_blinks(5, 16_000_000, 16_000_000);
    let marker = blink_pattern(5, 16_000_000, 16_000_000);
    assert(marker.push(LedOp::Spin(96_000_000)).drop_last() =~= marker);
}

/// A round of the panic pattern is the marker, three digits and a closing pause, in this
/// order. The marker (five blinks of 16,000,000 cycles each way and a pause of
/// 96,000,000) and the closing pause are the same for every line; so a digit that two
/// lines share is dictated alike.
pub proof fn law_panic_round(line: u32, other: u32)
    ensures
        panic_groups(line, 0) == panic_group(line, 0) + panic_group(line, 1) + panic_group(line, 2)
            + panic_group(line, 3) + panic_group(line, 4),
        panic_group(line, 0).drop_last() == blink_pattern(5, 16_000_000, 16_000_000),
        panic_group(line, 0).last() == LedOp::Spin(96_000_000),
        panic_group(line, 4) == seq![LedOp::Spin(192_000_000)],
        line / 100 == other / 100 ==> panic_group(line, 1) == panic_group(other, 1),
        panic_group(line, 1) == digit_pattern(line / 100),
        line % 100 == other % 100 ==> panic_group(line, 2) == panic_group(other, 2),
        panic_group(line, 2) == digit_pattern(line % 100 / 10),
        line % 10 == other % 10 ==> panic_group(line, 3) == panic_group(other, 3),
        panic_group(line, 3) == digit_pattern(line % 10),
{
    reveal_with_fuel(panic_groups, 6);
    assert((line / 10) % 10 == line % 100 / 10);
    assert((other / 10) % 10 == other % 100 / 10);
    assert(panic_groups(line, 0) =~= panic_group(line, 0) + panic_group(line, 1) + panic_group(
        line,
        2,
    ) + panic_group(line, 3) + panic_group(line, 4));
    assert(panic_group(line, 0).drop_last() =~= blink_pattern(5, 16_000_000, 16_000_000));
}

} // verus!
