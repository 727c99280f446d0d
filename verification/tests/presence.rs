use solo2_runner::boot::FORCED_AT_BOOT;
use solo2_runner::config::{Board, Features};
use solo2_runner::gesture::{
    latch_gesture, poll_buttons, take_gesture, CapCache, Gesture, GestureDetector, GestureLatch,
    Signals,
};
use solo2_runner::led::{GpioWrite, LedChannel, LedOp};
use solo2_runner::presence::{
    confirm_user_present_non_blocking, consent_answer, read_presence, ConsentClock, Level, Presence,
    PresenceInputs, UpResult,
};
use solo2_runner::ui::{
    diag_nfc_field, diag_nfc_pins_steady, diag_pin_mirror, refresh_up_led, PresenceCheck, Status,
    UserInterface,
};

const APPROVE_DOWN: u32 = !(1 << 11);
const DENY_DOWN: u32 = !(1 << 24);

fn features(board: Board) -> Features {
    Features {
        board,
        ccid: false,
        wallet: false,
        test_up_control: false,
        led_diag: false,
        pin_diag: false,
        nfc_fix: false,
        nfc_diag: false,
    }
}

fn quiet() -> PresenceInputs {
    PresenceInputs { pins: u32::MAX, field_on: false, ndef_override: false }
}

fn read(f: &Features, up: &mut u8, inputs: PresenceInputs, held: Gesture) -> (Presence, Gesture) {
    let mut latch = GestureLatch::new();
    latch_gesture(&mut latch, held);
    let p = read_presence(f, up, &inputs, &mut latch);
    (p, take_gesture(&mut latch))
}

#[test]
fn gesture_answers_once() {
    let f = features(Board::Dk);
    let mut up = 0;
    assert_eq!(
        read(&f, &mut up, quiet(), Gesture::Approve),
        (Presence::Grant(Level::Normal), Gesture::Nothing)
    );
    assert_eq!(read(&f, &mut up, quiet(), Gesture::Deny), (Presence::Deny, Gesture::Nothing));
    assert_eq!(read(&f, &mut up, quiet(), Gesture::Nothing), (Presence::Pending, Gesture::Nothing));
}

#[test]
fn supermini_pins_decide_and_leave_the_latch() {
    let f = features(Board::Supermini);
    let mut up = 0;
    let approve = PresenceInputs { pins: APPROVE_DOWN, ..quiet() };
    let deny = PresenceInputs { pins: DENY_DOWN, ..quiet() };
    let both = PresenceInputs { pins: APPROVE_DOWN & DENY_DOWN, field_on: true, ..quiet() };
    assert_eq!(
        read(&f, &mut up, approve, Gesture::Deny),
        (Presence::Grant(Level::Normal), Gesture::Deny)
    );
    assert_eq!(read(&f, &mut up, deny, Gesture::Approve), (Presence::Deny, Gesture::Approve));
    assert_eq!(read(&f, &mut up, both, Gesture::Approve), (Presence::Deny, Gesture::Approve));
    // Another board does not look at these pins.
    let dk = features(Board::Dk);
    assert_eq!(read(&dk, &mut up, deny, Gesture::Nothing).0, Presence::Pending);
}

#[test]
fn field_grants_unless_overridden() {
    let f = features(Board::Dk);
    let mut up = 0;
    let field = PresenceInputs { field_on: true, ..quiet() };
    assert_eq!(
        read(&f, &mut up, field, Gesture::Deny),
        (Presence::Grant(Level::Normal), Gesture::Deny)
    );
    let overridden = PresenceInputs { ndef_override: true, ..field };
    assert_eq!(read(&f, &mut up, overridden, Gesture::Nothing).0, Presence::Pending);
}

#[test]
fn forced_codes_in_a_test_image() {
    let f = Features { test_up_control: true, ..features(Board::Supermini) };
    let deny = PresenceInputs { pins: DENY_DOWN, ..quiet() };
    for (code, expected, left) in [
        (1u8, Presence::Grant(Level::Normal), 0u8),
        (2, Presence::Grant(Level::Strong), 0),
        (129, Presence::Grant(Level::Normal), 129),
        (130, Presence::Grant(Level::Strong), 130),
        (128, Presence::Pending, 128),
        (77, Presence::Pending, 77),
        (0, Presence::Deny, 0),
    ] {
        let mut up = code;
        assert_eq!(read(&f, &mut up, deny, Gesture::Approve), (expected, Gesture::Approve));
        assert_eq!(up, left);
    }
}

#[test]
fn forced_codes_do_nothing_elsewhere() {
    let f = features(Board::Dk);
    let mut up = 1;
    assert_eq!(read(&f, &mut up, quiet(), Gesture::Nothing).0, Presence::Pending);
    assert_eq!(up, 1);
}

#[test]
fn silent_request_times_out_after_thirty_seconds() {
    let f = features(Board::Dk);
    let mut clock = ConsentClock::new();
    let mut up = 0;
    let mut latch = GestureLatch::new();
    let start = u32::MAX - 1000;
    for (now, expected) in [
        (start, UpResult::Waiting),
        (start.wrapping_add(30_000), UpResult::Waiting),
        (start.wrapping_add(30_001), UpResult::TimedOut),
    ] {
        let r = confirm_user_present_non_blocking(
            &f, true, &mut clock, &mut up, &quiet(), &mut latch, now,
        );
        assert_eq!(r, Some(expected));
    }
    // Without a request the clock is cleared, and the next request starts anew.
    let none = confirm_user_present_non_blocking(
        &f, false, &mut clock, &mut up, &quiet(), &mut latch, 99_000,
    );
    assert_eq!(none, None);
    assert_eq!(clock.start, u32::MAX);
    let again = confirm_user_present_non_blocking(
        &f, true, &mut clock, &mut up, &quiet(), &mut latch, 99_500,
    );
    assert_eq!(again, Some(UpResult::Waiting));
    assert_eq!(clock.start, 99_500);
}

#[test]
fn request_first_seen_at_the_sentinel_starts_over() {
    let mut clock = ConsentClock::new();
    assert_eq!(consent_answer(&mut clock, Presence::Pending, u32::MAX), UpResult::Waiting);
    assert_eq!(consent_answer(&mut clock, Presence::Pending, 10), UpResult::Waiting);
    assert_eq!(clock.start, 10);
}

#[test]
fn answers_beat_the_clock() {
    let f = features(Board::Dk);
    let mut clock = ConsentClock { start: 0 };
    let mut up = 0;
    let mut latch = GestureLatch::new();
    latch_gesture(&mut latch, Gesture::Approve);
    let granted = confirm_user_present_non_blocking(
        &f, true, &mut clock, &mut up, &quiet(), &mut latch, 1_000_000,
    );
    assert_eq!(granted, Some(UpResult::Granted));
    latch_gesture(&mut latch, Gesture::Deny);
    let denied =
        confirm_user_present_non_blocking(&f, true, &mut clock, &mut up, &quiet(), &mut latch, 5);
    assert_eq!(denied, Some(UpResult::TimedOut));
}

#[test]
fn no_request_leaves_the_gesture() {
    let f = features(Board::Dk);
    let mut clock = ConsentClock::new();
    let mut up = 1;
    let mut latch = GestureLatch::new();
    latch_gesture(&mut latch, Gesture::Approve);
    confirm_user_present_non_blocking(&f, false, &mut clock, &mut up, &quiet(), &mut latch, 5);
    assert_eq!(up, 1);
    assert_eq!(take_gesture(&mut latch), Gesture::Approve);
}

#[test]
fn check_interrupts_apps_on_denial_only() {
    let f = features(Board::Dk);
    let mut ui = UserInterface::new();
    let mut up = 0;
    for (held, level, interrupt_apps) in [
        (Gesture::Approve, Level::Normal, false),
        (Gesture::Deny, Level::Absent, true),
        (Gesture::Nothing, Level::Absent, false),
    ] {
        let mut latch = GestureLatch::new();
        latch_gesture(&mut latch, held);
        let c = ui.check_user_presence(&f, &mut up, &quiet(), &mut latch);
        assert_eq!(c, PresenceCheck { level, interrupt_apps });
    }
    assert_eq!(ui.status(), Status::Idle);
}

#[test]
fn status_drives_the_waiting_flag_and_the_pin() {
    let mut ui = UserInterface::default();
    let mut waiting = false;
    let on = ui.set_status(Board::Supermini, Status::WaitingForUserPresence, &mut waiting);
    assert_eq!(on, Some(GpioWrite::OutSet(1 << 15)));
    assert!(waiting);
    assert_eq!(ui.status(), Status::WaitingForUserPresence);
    let off = ui.set_status(Board::Supermini, Status::Processing, &mut waiting);
    assert_eq!(off, Some(GpioWrite::OutClr(1 << 15)));
    assert!(!waiting);
    assert_eq!(ui.set_status(Board::Dk, Status::WaitingForUserPresence, &mut waiting), None);
    assert!(waiting);
    assert_eq!(ui.set_status(Board::Solo, Status::Custom(3), &mut waiting), None);
    assert!(!waiting);
    assert_eq!(ui.status(), Status::Custom(3));
}

#[test]
fn waiting_light_follows_both_sources() {
    let mut f = features(Board::Dk);
    let mut led = LedChannel::new(Board::Dk);
    assert_eq!(refresh_up_led(&f, false, true, &led), Some(0));
    f.wallet = true;
    assert_eq!(refresh_up_led(&f, false, true, &led), Some(255));
    assert_eq!(refresh_up_led(&f, true, false, &led), Some(255));
    assert_eq!(refresh_up_led(&f, false, false, &led), Some(0));
    led.reserved = true;
    assert_eq!(refresh_up_led(&f, true, true, &led), None);
}

#[test]
fn pin_mirror_blinks_for_deny() {
    assert_eq!(diag_pin_mirror(true, 0, 0), None);
    assert_eq!(diag_pin_mirror(false, u32::MAX, 0), Some(0));
    assert_eq!(diag_pin_mirror(false, APPROVE_DOWN, 150), Some(255));
    assert_eq!(diag_pin_mirror(false, DENY_DOWN, 99), Some(255));
    assert_eq!(diag_pin_mirror(false, DENY_DOWN, 100), Some(0));
    assert_eq!(diag_pin_mirror(false, APPROVE_DOWN & DENY_DOWN, 199), Some(0));
    assert_eq!(diag_pin_mirror(false, DENY_DOWN, 200), Some(255));
}

#[test]
fn nfc_pins_light_changes_with_the_setting_only() {
    let mut led = LedChannel::new(Board::Supermini);
    let mut shown = None;
    assert_eq!(
        diag_nfc_pins_steady(&mut shown, false, &mut led),
        Some((LedOp::ForceOutput, GpioWrite::OutClr(1 << 15)))
    );
    assert!(led.reserved);
    assert_eq!(diag_nfc_pins_steady(&mut shown, false, &mut led), None);
    assert_eq!(
        diag_nfc_pins_steady(&mut shown, true, &mut led),
        Some((LedOp::ForceOutput, GpioWrite::OutSet(1 << 15)))
    );
    assert_eq!(diag_nfc_pins_steady(&mut shown, true, &mut led), None);
    assert_eq!(shown, Some(true));
}

#[test]
fn field_light_yields_to_the_waiting_light() {
    let mut led = LedChannel::new(Board::Supermini);
    assert_eq!(diag_nfc_field(true, true, &mut led), None);
    assert!(!led.reserved);
    assert_eq!(diag_nfc_field(false, true, &mut led), Some(GpioWrite::OutSet(1 << 15)));
    assert_eq!(diag_nfc_field(false, false, &mut led), Some(GpioWrite::OutClr(1 << 15)));
    assert!(led.reserved);
}

#[test]
fn test_image_grants_every_request_from_the_start() {
    let f = Features { test_up_control: true, ..features(Board::Supermini) };
    let mut up = FORCED_AT_BOOT;
    for _ in 0..3 {
        let deny = PresenceInputs { pins: DENY_DOWN, ..quiet() };
        assert_eq!(
            read(&f, &mut up, deny, Gesture::Deny),
            (Presence::Grant(Level::Normal), Gesture::Deny)
        );
    }
}

#[test]
fn press_travels_from_the_buttons_to_the_answer() {
    let f = features(Board::Solo);
    let (mut cap, mut d, mut latch) = (CapCache::new(), GestureDetector::new(), GestureLatch::new());
    let down = Signals { left: true, right: false, deny: false };
    let up = Signals { left: false, ..down };
    poll_buttons(&mut cap, &mut d, &mut latch, Some(down), 1000);
    let mut code = 0;
    assert_eq!(read_presence(&f, &mut code, &quiet(), &mut latch), Presence::Pending);
    poll_buttons(&mut cap, &mut d, &mut latch, Some(up), 1050);
    let granted = read_presence(&f, &mut code, &quiet(), &mut latch);
    assert_eq!(granted, Presence::Grant(Level::Normal));
    assert_eq!(read_presence(&f, &mut code, &quiet(), &mut latch), Presence::Pending);
}
