//! The SuperMini board: one LED that a high level lights, two buttons that pull
//! their pin low, and the set-up of both.
//!
//! Pins: LED P0.15, approve button P0.11, deny button P0.24. The NFC pins
//! P0.09/P0.10, the external supply P0.13, the reset pin P0.18 and the battery
//! divider P0.31 are left alone.
use vstd::prelude::*;

verus! {

/// The pin of the LED on port 0.
pub const LED_PIN: u8 = 15;

/// The pin of the approve button on port 0.
pub const BTN1_PIN: u8 = 11;

/// The pin of the deny button on port 0.
pub const BTN3_PIN: u8 = 24;

/// The PWM output selection that means "not connected".
pub const PSEL_DISCONNECTED: u32 = 0x8000_0000;

/// How long a phase of the boot blinks lasts, in CPU cycles: 200 ms at 64 MHz.
pub const BLINK_CYCLES: u32 = 12_800_000;

/// The LED's output level.
pub struct Leds {
    high: bool,
}

impl View for Leds {
    type V = bool;

    /// The pin is high, which lights the LED.
    closed spec fn view(&self) -> bool {
        self.high
    }
}

impl Leds {
    /// A dark LED.
    pub fn new() -> (l: Self)
        ensures
            !l@,
    {
        Leds { high: false }
    }

    /// Sets the brightness. The LED has two: the upper half of the range is on.
    pub fn set_brightness(&mut self, b: u8)
        ensures
            final(self)@ == (b >= 128),
    {
        self.high = b >= 128;
    }

    /// The level to drive the pin to.
    pub fn is_high(&self) -> (h: bool)
        ensures
            h == self@,
    {
        self.high
    }
}

/// One reading of the button pins: whether the pin is low, if it could be read.
#[derive(Copy, Clone, Debug, PartialEq, Eq, Structural)]
pub struct Buttons {
    /// The approve button's pin.
    pub btn1: Option<bool>,
    /// The deny button's pin.
    pub btn3: Option<bool>,
}

impl Buttons {
    /// The approve button is down. A pin that cannot be read counts as up.
    pub fn left(&self) -> (b: bool)
        ensures
            b == (self.btn1 == Some(true)),
    {
        self.btn1.unwrap_or(false)
    }

    /// There is no second approve button.
    pub fn right(&self) -> (b: bool)
        ensures
            !b,
    {
        false
    }

    /// The deny button is down. A pin that cannot be read counts as up.
    pub fn explicit_deny(&self) -> (b: bool)
        ensures
            b == (self.btn3 == Some(true)),
    {
        self.btn3.unwrap_or(false)
    }
}

/// One operation of the board's set-up.
#[derive(Copy, Clone, Debug, PartialEq, Eq, Structural)]
pub enum BoardOp {
    /// Disable a PWM unit.
    PwmDisable(u8),
    /// Write the output selection of a PWM unit's channel.
    PwmSelect(u8, u8, u32),
    /// Make a pin a push-pull output with a low level.
    OutputLow(u8),
    /// Set the LED's brightness.
    Brightness(u8),
    /// Wait that many CPU cycles.
    Delay(u32),
    /// Make a pin an input with its pull-up on.
    PullUpInput(u8),
}

/// Takes a PWM unit off its pins: the bootloader leaves one running on the LED.
pub open spec fn kill_pwm(p: u8) -> Seq<BoardOp> {
    seq![
        BoardOp::PwmDisable(p),
        BoardOp::PwmSelect(p, 0, PSEL_DISCONNECTED),
        BoardOp::PwmSelect(p, 1, PSEL_DISCONNECTED),
        BoardOp::PwmSelect(p, 2, PSEL_DISCONNECTED),
        BoardOp::PwmSelect(p, 3, PSEL_DISCONNECTED),
    ]
}

/// One blink of the boot indication.
pub open spec fn boot_blink() -> Seq<BoardOp> {
    seq![
        BoardOp::Brightness(255),
        BoardOp::Delay(BLINK_CYCLES),
        BoardOp::Brightness(0),
        BoardOp::Delay(BLINK_CYCLES),
    ]
}

/// The set-up of the board: silence all four PWM units, take the LED, blink three
/// times to show life, take the buttons.
pub open spec fn init_plan() -> Seq<BoardOp> {
    kill_pwm(0) + kill_pwm(1) + kill_pwm(2) + kill_pwm(3) + seq![BoardOp::OutputLow(LED_PIN)]
        + boot_blink() + boot_blink() + boot_blink() + seq![
        BoardOp::PullUpInput(BTN1_PIN),
        BoardOp::PullUpInput(BTN3_PIN),
    ]
}

/// The set-up being carried out.
pub struct BoardInit {
    at: usize,
}

impl View for BoardInit {
    type V = Seq<BoardOp>;

    /// The operations still to come.
    closed spec fn view(&self) -> Seq<BoardOp> {
        if self.at <= init_plan().len() {
            init_plan().skip(self.at as int)
        } else {
            Seq::empty()
        }
    }
}

/// Begins the set-up of the board.
pub fn init() -> (i: BoardInit)
    ensures
        i@ == init_plan(),
{
    let i = BoardInit { at: 0 };
    assert(i@ =~= init_plan());
    i
}

fn pwm_op(p: u8, k: usize) -> (op: BoardOp)
    requires
        k < 5,
    ensures
        op == kill_pwm(p)[k as int],
{
    if k == 0 {
        BoardOp::PwmDisable(p)
    } else {
        BoardOp::PwmSelect(p, (k - 1) as u8, PSEL_DISCONNECTED)
    }
}

fn blink_op(k: usize) -> (op: BoardOp)
    requires
        k < 4,
    ensures
        op == boot_blink()[k as int],
{
    if k == 0 {
        BoardOp::Brightness(255)
    } else if k == 2 {
        BoardOp::Brightness(0)
    } else {
        BoardOp::Delay(BLINK_CYCLES)
    }
}

proof fn lemma_init_plan()
    ensures
        init_plan().len() == 35,
        forall|k: int| 0 <= k < 5 ==> #[trigger] init_plan()[k] == kill_pwm(0)[k],
        forall|k: int| 5 <= k < 10 ==> #[trigger] init_plan()[k] == kill_pwm(1)[k - 5],
        forall|k: int| 10 <= k < 15 ==> #[trigger] init_plan()[k] == kill_pwm(2)[k - 10],
        forall|k: int| 15 <= k < 20 ==> #[trigger] init_plan()[k] == kill_pwm(3)[k - 15],
        init_plan()[20] == BoardOp::OutputLow(LED_PIN),
        forall|k: int| 21 <= k < 25 ==> #[trigger] init_plan()[k] == boot_blink()[k - 21],
        forall|k: int| 25 <= k < 29 ==> #[trigger] init_plan()[k] == boot_blink()[k - 25],
        forall|k: int| 29 <= k < 33 ==> #[trigger] init_plan()[k] == boot_blink()[k - 29],
        init_plan()[33] == BoardOp::PullUpInput(BTN1_PIN),
        init_plan()[34] == BoardOp::PullUpInput(BTN3_PIN),
{
}

impl BoardInit {
    /// The next operation, or nothing when the board is set up.
    pub fn next(&mut self) -> (op: Option<BoardOp>)
        ensures
            old(self)@.len() == 0 ==> op is None && final(self)@ == old(self)@,
            old(self)@.len() > 0 ==> op == Some(old(self)@[0]) && final(self)@ == old(self)@.skip(1),
    {
        proof {
            lemma_init_plan();
        }
        let ghost before = self@;
        let i: usize = self.at;
        if i >= 35 {
            return None;
        }
        self.at = i + 1;
        assert(before.skip(1) =~= self@);
        let op = if i < 5 {
            pwm_op(0, i)
        } else if i < 10 {
            pwm_op(1, i - 5)
        } else if i < 15 {
            pwm_op(2, i - 10)
        } else if i < 20 {
            pwm_op(3, i - 15)
        } else if i == 20 {
            BoardOp::OutputLow(LED_PIN)
        } else if i < 25 {
            blink_op(i - 21)
        } else if i < 29 {
            blink_op(i - 25)
        } else if i < 33 {
            blink_op(i - 29)
        } else if i == 33 {
            BoardOp::PullUpInput(BTN1_PIN)
        } else {
            BoardOp::PullUpInput(BTN3_PIN)
        };
        Some(op)
    }
}

/// The pin that an operation takes over as GPIO, if it takes one.
pub open spec fn pin_taken(op: BoardOp) -> Option<u8> {
    match op {
        BoardOp::OutputLow(p) => Some(p),
        BoardOp::PullUpInput(p) => Some(p),
        _ => None,
    }
}

/// The set-up takes the LED and the two buttons and no other pin, the NFC pins
/// least of all.
pub proof fn law_init_takes_three_pins(k: int)
    requires
        0 <= k < init_plan().len(),
    ensures
        pin_taken(init_plan()[k]) is Some ==> pin_taken(init_plan()[k])->0 == LED_PIN || pin_taken(
            init_plan()[k],
        )->0 == BTN1_PIN || pin_taken(init_plan()[k])->0 == BTN3_PIN,
{
    lemma_init_plan();
}

} // verus!
