//! The user interface: the trussed-facing state, the "waiting for the user"
//! light, and the diagnostics that show one fact by the LED.
use vstd::prelude::*;
use crate::config::{Board, Features};
use crate::gesture::GestureLatch;
use crate::led::{led_raw, GpioWrite, LedChannel, LedOp, LED_BIT};
use crate::presence::{read_presence, Level, Presence, PresenceInputs, APPROVE_PIN, DENY_PIN};

verus! {

/// What the crypto service is doing.
#[derive(Copy, Clone, Debug, PartialEq, Eq, Structural)]
pub enum Status {
    /// Nothing.
    Idle,
    /// It waits for the user.
    WaitingForUserPresence,
    /// It computes.
    Processing,
    /// It failed.
    Error,
    /// Something that an application defines.
    Custom(u8),
}

/// The answer to a presence check.
#[derive(Copy, Clone, Debug, PartialEq, Eq, Structural)]
pub struct PresenceCheck {
    /// The level of presence.
    pub level: Level,
    /// The user refused: the applications are to be interrupted, so that the
    /// check is not repeated until it times out.
    pub interrupt_apps: bool,
}

/// The state that the crypto service sets and asks for.
pub struct UserInterface {
    status: Status,
}

impl View for UserInterface {
    type V = Status;

    closed spec fn view(&self) -> Status {
        self.status
    }
}

impl Default for UserInterface {
    fn default() -> (u: Self)
        ensures
            u@ == Status::Idle,
    {
        UserInterface::new()
    }
}

/// What a presence check answers when presence is `p`.
pub open spec fn checked(p: Presence) -> PresenceCheck {
    match p {
        Presence::Grant(level) => PresenceCheck { level, interrupt_apps: false },
        Presence::Deny => PresenceCheck { level: Level::Absent, interrupt_apps: true },
        Presence::Pending => PresenceCheck { level: Level::Absent, interrupt_apps: false },
    }
}

impl UserInterface {
    /// An idle interface.
    pub fn new() -> (u: Self)
        ensures
            u@ == Status::Idle,
    {
        UserInterface { status: Status::Idle }
    }

    /// Reads presence for the crypto service.
    pub fn check_user_presence(
        &mut self,
        f: &Features,
        up_control: &mut u8,
        inputs: &PresenceInputs,
        latch: &mut GestureLatch,
    ) -> (c: PresenceCheck)
        ensures
            c == checked(
                crate::presence::presence(*f, *old(up_control), *inputs, old(latch)@),
            ),
            final(self)@ == old(self)@,
            *final(up_control) == crate::presence::forced_after(*f, *old(up_control)),
            final(latch)@ == crate::presence::held_after(
                *f,
                *old(up_control),
                *inputs,
                old(latch)@,
            ),
    {
        match read_presence(f, up_control, inputs, latch) {
            Presence::Grant(level) => PresenceCheck { level, interrupt_apps: false },
            Presence::Deny => PresenceCheck { level: Level::Absent, interrupt_apps: true },
            Presence::Pending => PresenceCheck { level: Level::Absent, interrupt_apps: false },
        }
    }

    /// Takes the service's new status and records whether it waits for the user.
    /// On the SuperMini the LED is switched right here, because the idle loop does
    /// not run while the service waits.
    pub fn set_status(&mut self, board: Board, status: Status, ui_waiting: &mut bool) -> (w: Option<
        GpioWrite,
    >)
        ensures
            final(self)@ == status,
            *final(ui_waiting) == (status == Status::WaitingForUserPresence),
            board != Board::Supermini ==> w is None,
            board == Board::Supermini ==> w == Some(
                if status == Status::WaitingForUserPresence {
                    GpioWrite::OutSet(LED_BIT)
                } else {
                    GpioWrite::OutClr(LED_BIT)
                },
            ),
    {
        self.status = status;
        let waiting = match status {
            Status::WaitingForUserPresence => true,
            _ => false,
        };
        *ui_waiting = waiting;
        match board {
            Board::Supermini => if waiting {
                Some(GpioWrite::OutSet(LED_BIT))
            } else {
                Some(GpioWrite::OutClr(LED_BIT))
            },
            _ => None,
        }
    }

    /// The status that was last set.
    pub fn status(&self) -> (s: Status)
        ensures
            s == self@,
    {
        self.status
    }
}

/// The LED is full on.
pub const FULL: u8 = 255;

/// The brightness for a light that is on or off.
pub open spec fn brightness(on: bool) -> u8 {
    if on {
        FULL
    } else {
        0
    }
}

/// What the "waiting for the user" light is set to: full while the crypto service
/// waits or a wallet request does, else dark, and left alone while diagnostics own
/// the LED.
pub open spec fn up_light(f: Features, ui_waiting: bool, up_requested: bool, led: LedChannel) -> Option<
    u8,
> {
    if led.reserved {
        None
    } else {
        Some(brightness(ui_waiting || (f.wallet && up_requested)))
    }
}

/// The brightness for the "waiting for the user" light: full while the crypto
/// service waits or a wallet request does, else none. Nothing is to be done while
/// diagnostics own the LED.
pub fn refresh_up_led(f: &Features, ui_waiting: bool, up_requested: bool, led: &LedChannel) -> (b:
    Option<u8>)
    ensures
        b == up_light(*f, ui_waiting, up_requested, *led),
{
    let waiting = ui_waiting || (f.wallet && up_requested);
    if led.reserved {
        None
    } else if waiting {
        Some(FULL)
    } else {
        Some(0)
    }
}

/// What the pin mirror shows: the deny button blinks, the approve button is
/// steady light.
pub open spec fn mirrored(pins: u32, now: u32) -> bool {
    if pins & DENY_PIN == 0 {
        (now / 100) % 2 == 0
    } else {
        pins & APPROVE_PIN == 0
    }
}

/// The brightness that mirrors the SuperMini's button pins, whose pressed level
/// is low. Nothing is to be done while the crypto service waits for the user: the
/// LED then shows that.
pub fn diag_pin_mirror(ui_waiting: bool, pins: u32, now_ms: u32) -> (b: Option<u8>)
    ensures
        ui_waiting ==> b is None,
        !ui_waiting ==> b == Some(brightness(mirrored(pins, now_ms))),
{
    if ui_waiting {
        return None;
    }
    let approve = pins & APPROVE_PIN == 0;
    let deny = pins & DENY_PIN == 0;
    let on = if deny {
        (now_ms / 100) % 2 == 0
    } else {
        approve
    };
    if on {
        Some(FULL)
    } else {
        Some(0)
    }
}

/// The pressed deny button blinks five times a second: the light changes every
/// 100 ms and repeats every 200 ms.
pub proof fn law_deny_mirror_blinks(pins: u32, now: u32)
    requires
        pins & DENY_PIN == 0,
        now + 200 <= u32::MAX,
    ensures
        mirrored(pins, (now + 100) as u32) != mirrored(pins, now),
        mirrored(pins, (now + 200) as u32) == mirrored(pins, now),
{
}

/// What the steady NFC diagnostic writes when it has shown `shown`.
pub open spec fn nfc_pins_write(shown: Option<bool>, is_nfc: bool, led: LedChannel) -> Option<
    GpioWrite,
> {
    if shown == Some(is_nfc) {
        None
    } else {
        Some(led.write(is_nfc))
    }
}

/// Shows by steady light whether the pins P0.09 and P0.10 belong to NFC. `shown`
/// is what the LED shows so far, if anything: the pin is touched only when that
/// changes, and the first time in any case.
pub fn diag_nfc_pins_steady(shown: &mut Option<bool>, is_nfc: bool, led: &mut LedChannel) -> (w:
    Option<(LedOp, GpioWrite)>)
    ensures
        *final(shown) == Some(is_nfc),
        match nfc_pins_write(*old(shown), is_nfc, *old(led)) {
            None => w is None && *final(led) == *old(led),
            Some(write) => w == Some((LedOp::ForceOutput, write)) && *final(led) == old(
                led,
            ).taken(),
        },
{
    let same = match *shown {
        Some(was) => was == is_nfc,
        None => false,
    };
    *shown = Some(is_nfc);
    if same {
        None
    } else {
        Some((LedOp::ForceOutput, led_raw(led, is_nfc)))
    }
}

/// Shows a reader's field: the LED is lit while the field is on. Nothing is done
/// while the crypto service waits for the user, whose light matters more.
pub fn diag_nfc_field(ui_waiting: bool, field_on: bool, led: &mut LedChannel) -> (w: Option<
    GpioWrite,
>)
    ensures
        ui_waiting ==> w is None && *final(led) == *old(led),
        !ui_waiting ==> w == Some(old(led).write(field_on)) && *final(led) == old(led).taken(),
{
    if ui_waiting {
        return None;
    }
    Some(led_raw(led, field_on))
}

/// The output levels of the port after an optional write.
pub open spec fn written(w: Option<GpioWrite>, out: u32) -> u32 {
    if w is Some {
        w->0.applied(out)
    } else {
        out
    }
}

/// As long as nothing else drives the LED, after every look the LED is lit exactly
/// when the pins belong to NFC, although the pin is touched on changes only.
pub proof fn law_nfc_pins_light_is_current(
    shown: Option<bool>,
    is_nfc: bool,
    led: LedChannel,
    out: u32,
)
    requires
        shown is Some ==> led.lit(out) == shown->0,
    ensures
        led.lit(written(nfc_pins_write(shown, is_nfc, led), out)) == is_nfc,
{
    crate::led::law_led_write_switches_only_the_led(led, is_nfc, out);
}

/// Once diagnostics have switched the LED, the ordinary light keeps off it for
/// good: whoever waits, and however often diagnostics use the LED again.
pub proof fn law_diagnostics_silence_the_ordinary_light(
    f: Features,
    ui_waiting: bool,
    up_requested: bool,
    led: LedChannel,
)
    ensures
        up_light(f, ui_waiting, up_requested, led.taken()) is None,
        led.taken().taken() == led.taken(),
        led.taken().active_high == led.active_high,
{
}

/// A presence check gives the level that was granted, and none without a grant. It
/// interrupts the applications exactly when the user refused.
pub proof fn law_check_tells_presence(p: Presence, level: Level)
    ensures
        checked(Presence::Grant(level)).level == level,
        p !is Grant ==> checked(p).level == Level::Absent,
        checked(p).interrupt_apps <==> p == Presence::Deny,
{
}

/// The light is full on exactly while the crypto service waits, or a wallet request does
/// in an image with the wallet; it is dark exactly while neither does; it is left alone
/// exactly while diagnostics own the LED. No other feature has a say.
pub proof fn law_light_tells_who_waits(
    f: Features,
    g: Features,
    ui_waiting: bool,
    up_requested: bool,
    led: LedChannel,
)
    ensures
        up_light(f, ui_waiting, up_requested, led) is None <==> led.reserved,
        up_light(f, ui_waiting, up_requested, led) == Some(255u8) <==> !led.reserved && (ui_waiting
            || (f.wallet && up_requested)),
        up_light(f, ui_waiting, up_requested, led) == Some(0u8) <==> !led.reserved && !ui_waiting
            && !(f.wallet && up_requested),
        f.wallet == g.wallet ==> up_light(f, ui_waiting, up_requested, led) == up_light(
            g,
            ui_waiting,
            up_requested,
            led,
        ),
{
}

/// With the deny button up, the mirror is lit exactly while the approve button is down, at
/// any time. With the deny button down it is lit in the first half of every fifth of a
/// second, whatever the approve button does.
pub proof fn law_mirror_tells_the_buttons(pins: u32, now: u32)
    ensures
        pins & 0x0100_0000 != 0 ==> (brightness(mirrored(pins, now)) == 255 <==> pins & 0x0000_0800
            == 0),
        pins & 0x0100_0000 == 0 ==> (brightness(mirrored(pins, now)) == 255 <==> now % 200 < 100),
        brightness(mirrored(pins, now)) == 255 || brightness(mirrored(pins, now)) == 0,
{
}

/// The pin of the steady sign is touched exactly when what it shows changes, the first
/// time included, and then it is switched to what is so.
pub proof fn law_nfc_sign_changes_on_news(shown: Option<bool>, is_nfc: bool, led: LedChannel)
    ensures
        nfc_pins_write(shown, is_nfc, led) is None <==> shown is Some && shown->0 == is_nfc,
        shown is None ==> nfc_pins_write(shown, is_nfc, led) is Some,
        shown == Some(!is_nfc) ==> nfc_pins_write(shown, is_nfc, led) is Some,
        nfc_pins_write(shown, is_nfc, led) is Some ==> nfc_pins_write(shown, is_nfc, led)->0
            == led.write(is_nfc),
{
}

} // verus!
