use solo2_runner::boot::{reset_code, Boot, BootOp};
use solo2_runner::config::{Board, Features};
use solo2_runner::runner::{
    ctaphid_keepalive, is_slow_syscall, ndef_clock, nfc_drain, nfct_irq, on_power, on_usb,
    serve_step, Action, IdleLoop, Interrupt, KeepaliveOp, KeepaliveReply, PowerEvents, Reply,
    Syscall, Transport, UsbStatus, UsbStep,
};
use solo2_runner::supermini::{init, BoardOp, Buttons, Leds};

fn features(board: Board) -> Features {
    Features {
        board,
        ccid: false,
        wallet: false,
        test_up_control: false,
        led_diag: false,
        pin_diag: false,
        nfc_fix: false,
        nfc_diag: false,
    }
}

fn everything() -> Features {
    Features {
        board: Board::Supermini,
        ccid: true,
        wallet: true,
        test_up_control: true,
        led_diag: true,
        pin_diag: true,
        nfc_fix: true,
        nfc_diag: true,
    }
}

fn pass(f: Features, n: usize) -> Vec<Action> {
    let mut l = IdleLoop::new(f);
    (0..n).map(|_| l.next(Reply::Nothing)).collect()
}

fn boot(f: Features, reas: u32) -> Vec<BootOp> {
    let mut b = Boot::new(f, reas);
    let mut ops = Vec::new();
    while let Some(op) = b.next() {
        ops.push(op);
    }
    assert_eq!(b.next(), None);
    ops
}

#[test]
fn bare_pass() {
    let plan = [
        Action::PollButtons,
        Action::RefreshUpLed,
        Action::PollNfc,
        Action::DispatchApdu,
        Action::DispatchCtaphid,
        Action::ServeUsb { fetch: true, ccid: false, wallet: false },
    ];
    let mut twice = plan.to_vec();
    twice.extend(plan);
    assert_eq!(pass(features(Board::Dk), 12), twice);
}

#[test]
fn full_pass() {
    assert_eq!(
        pass(everything(), 14),
        vec![
            Action::NoteUsbEvents,
            Action::ReportTick,
            Action::PollButtons,
            Action::RefreshUpLed,
            Action::MirrorPins,
            Action::ShowNfcField,
            Action::PollNfc,
            Action::DispatchApdu,
            Action::CheckCcid,
            Action::DispatchCtaphid,
            Action::ConfirmPresence,
            Action::PollWallet,
            Action::ServeUsb { fetch: true, ccid: true, wallet: true },
            Action::NoteUsbEvents,
        ]
    );
}

#[test]
fn steady_pins_come_behind_the_light_they_override() {
    let f = Features { nfc_fix: true, pin_diag: true, ..features(Board::Solo) };
    assert_eq!(
        pass(f, 4),
        vec![Action::PollButtons, Action::RefreshUpLed, Action::ShowNfcPins, Action::PollNfc]
    );
}

#[test]
fn pending_responses_wake_usb_and_commands_arm_the_keepalive() {
    let f = Features { wallet: true, ..features(Board::Dk) };
    let mut l = IdleLoop::new(f);
    let mut last = l.next(Reply::Nothing);
    while last != Action::DispatchCtaphid {
        // A pending flag from an action that has none is no reason to wake anyone.
        last = l.next(Reply::Pending(true));
    }
    assert_eq!(l.next(Reply::Pending(true)), Action::Pend(Interrupt::Usbd));
    assert_eq!(l.next(Reply::Nothing), Action::ConfirmPresence);
    assert_eq!(l.next(Reply::Nothing), Action::PollWallet);
    assert_eq!(l.next(Reply::Pending(true)), Action::Pend(Interrupt::Usbd));
    let serve = Action::ServeUsb { fetch: true, ccid: false, wallet: true };
    assert_eq!(l.next(Reply::Nothing), serve);
    assert_eq!(l.next(Reply::Usb(UsbStatus::ReceivedData(80))), Action::SendKeepalive(80));
    assert_eq!(l.next(Reply::Nothing), Action::PollButtons);
}

#[test]
fn nothing_pending_adds_nothing() {
    let mut l = IdleLoop::new(features(Board::Dk));
    while l.next(Reply::Nothing) != Action::DispatchCtaphid {}
    let serve = Action::ServeUsb { fetch: true, ccid: false, wallet: false };
    assert_eq!(l.next(Reply::Pending(false)), serve);
    assert_eq!(l.next(Reply::Usb(UsbStatus::Idle)), Action::PollButtons);
}

#[test]
fn usb_interrupt() {
    let mut u = on_usb(features(Board::Dk));
    let serve = Action::ServeUsb { fetch: false, ccid: false, wallet: false };
    assert_eq!(u.next(Reply::Nothing), Some(serve));
    assert_eq!(u.next(Reply::Usb(UsbStatus::Idle)), None);
    assert_eq!(u.next(Reply::Nothing), None);
    let mut u = on_usb(everything());
    assert_eq!(u.next(Reply::Nothing), Some(Action::NoteUsbEvents));
    let serve = Action::ServeUsb { fetch: false, ccid: true, wallet: true };
    assert_eq!(u.next(Reply::Nothing), Some(serve));
    let armed = u.next(Reply::Usb(UsbStatus::ReceivedData(80)));
    assert_eq!(armed, Some(Action::SendKeepalive(80)));
    assert_eq!(u.next(Reply::Nothing), None);
}

#[test]
fn nfc_drain_dispatches_between_two_polls() {
    assert_eq!(nfc_drain(0), Some(Action::PollNfc));
    assert_eq!(nfc_drain(1), Some(Action::DispatchApdu));
    assert_eq!(nfc_drain(2), Some(Action::PollNfc));
    assert_eq!(nfc_drain(3), None);
}

#[test]
fn keepalive_rounds() {
    let mut p = ctaphid_keepalive();
    assert_eq!(p.op(), KeepaliveOp::Receive);
    p.reply(KeepaliveReply::Nothing);
    assert_eq!(p.op(), KeepaliveOp::Receive);
    p.reply(KeepaliveReply::Deadline(80));
    assert_eq!(p.op(), KeepaliveOp::Delay(80));
    p.reply(KeepaliveReply::Nothing);
    assert_eq!(p.op(), KeepaliveOp::Transmit);
    p.reply(KeepaliveReply::Status(UsbStatus::ReceivedData(40)));
    assert_eq!(p.op(), KeepaliveOp::Discard(40));
    p.reply(KeepaliveReply::Deadline(9));
    assert_eq!(p.op(), KeepaliveOp::Rearm(40));
    p.reply(KeepaliveReply::Nothing);
    assert_eq!(p.op(), KeepaliveOp::Receive);
    p.reply(KeepaliveReply::Deadline(40));
    p.reply(KeepaliveReply::Nothing);
    p.reply(KeepaliveReply::Status(UsbStatus::Idle));
    assert_eq!(p.op(), KeepaliveOp::Receive);
}

#[test]
fn ndef_clock_advances_and_wraps() {
    let mut c = 0;
    ndef_clock(&mut c);
    ndef_clock(&mut c);
    assert_eq!(c, 100);
    let mut c = u32::MAX;
    ndef_clock(&mut c);
    assert_eq!(c, 49);
}

#[test]
fn power_events_that_occurred_are_cleared() {
    assert_eq!(
        on_power(1, 0, 7),
        PowerEvents { usbdetected: true, usbpwrrdy: false, usbremoved: true }
    );
    assert_eq!(
        on_power(0, 1, 0),
        PowerEvents { usbdetected: false, usbpwrrdy: true, usbremoved: false }
    );
}

#[test]
fn syscall_raises_its_interrupt() {
    assert_eq!(Syscall::default().syscall(), Interrupt::Swi0Egu0);
}

#[test]
fn reset_codes() {
    assert_eq!(reset_code(1), 1);
    assert_eq!(reset_code(2), 2);
    assert_eq!(reset_code(4), 3);
    assert_eq!(reset_code(8), 4);
    assert_eq!(reset_code(1 << 16), 5);
    assert_eq!(reset_code(0b1100), 3);
    assert_eq!(reset_code(u32::MAX), 1);
}

#[test]
fn bare_boot() {
    assert_eq!(
        boot(features(Board::Dk), 4),
        vec![
            BootOp::ClearResetReason(4),
            BootOp::StartClock(64_000_000),
            BootOp::SetUpBoard,
            BootOp::StartKeepalive,
            BootOp::StartNdefClock,
        ]
    );
}

#[test]
fn full_boot() {
    assert_eq!(
        boot(everything(), 4),
        vec![
            BootOp::FixNfcpins,
            BootOp::ForcePresence(129),
            BootOp::Blink(2, 40_000_000, 12_000_000),
            BootOp::Spin(24_000_000),
            BootOp::Blink(7, 4_000_000, 4_000_000),
            BootOp::Spin(48_000_000),
            BootOp::ClearResetReason(4),
            BootOp::Blink(3, 8_000_000, 8_000_000),
            BootOp::Spin(24_000_000),
            BootOp::StartClock(64_000_000),
            BootOp::SetUpBoard,
            BootOp::StartKeepalive,
            BootOp::StartNdefClock,
        ]
    );
}

#[test]
fn boot_without_a_reset_reason_blinks_no_code() {
    let f = Features { led_diag: true, ..features(Board::Dk) };
    let ops = boot(f, 0);
    assert_eq!(ops.len(), 9);
    assert_eq!(ops[4], BootOp::ClearResetReason(0));
    assert_eq!(ops[5], BootOp::StartClock(64_000_000));
}

#[test]
fn brightness_has_two_levels() {
    let mut leds = Leds::new();
    assert!(!leds.is_high());
    for (b, high) in [(255, true), (128, true), (127, false), (0, false)] {
        leds.set_brightness(b);
        assert_eq!(leds.is_high(), high);
    }
}

#[test]
fn buttons_are_down_when_low() {
    let b = Buttons { btn1: Some(true), btn3: Some(false) };
    assert!(b.left() && !b.right() && !b.explicit_deny());
    let b = Buttons { btn1: Some(false), btn3: Some(true) };
    assert!(!b.left() && !b.right() && b.explicit_deny());
    let unread = Buttons { btn1: None, btn3: None };
    assert!(!unread.left() && !unread.right() && !unread.explicit_deny());
}

#[test]
fn board_set_up() {
    let mut expected = Vec::new();
    for p in 0..4 {
        expected.push(BoardOp::PwmDisable(p));
        for ch in 0..4 {
            expected.push(BoardOp::PwmSelect(p, ch, 0x8000_0000));
        }
    }
    expected.push(BoardOp::OutputLow(15));
    for _ in 0..3 {
        expected.push(BoardOp::Brightness(255));
        expected.push(BoardOp::Delay(64_000_000 / 5));
        expected.push(BoardOp::Brightness(0));
        expected.push(BoardOp::Delay(64_000_000 / 5));
    }
    expected.push(BoardOp::PullUpInput(11));
    expected.push(BoardOp::PullUpInput(24));
    let mut i = init();
    let mut ops = Vec::new();
    while let Some(op) = i.next() {
        ops.push(op);
    }
    assert_eq!(ops, expected);
    assert_eq!(i.next(), None);
}

fn serve(fetch: bool, ccid: bool, wallet: bool) -> Vec<UsbStep> {
    let mut steps = Vec::new();
    while let Some(step) = serve_step(fetch, ccid, wallet, steps.len()) {
        steps.push(step);
    }
    assert_eq!(serve_step(fetch, ccid, wallet, usize::MAX), None);
    steps
}

#[test]
fn usb_is_served_step_by_step() {
    assert_eq!(
        serve(true, true, true),
        vec![
            UsbStep::Fetch(Transport::Ctaphid),
            UsbStep::Fetch(Transport::WalletHid),
            UsbStep::Attach(Transport::Ctaphid),
            UsbStep::Attach(Transport::Ccid),
            UsbStep::Attach(Transport::WalletHid),
            UsbStep::Poll,
            UsbStep::AskStatus,
        ]
    );
    assert_eq!(
        serve(true, true, false),
        vec![
            UsbStep::Fetch(Transport::Ctaphid),
            UsbStep::Attach(Transport::Ctaphid),
            UsbStep::Attach(Transport::Ccid),
            UsbStep::Poll,
            UsbStep::AskStatus,
        ]
    );
    assert_eq!(
        serve(false, false, true),
        vec![
            UsbStep::Attach(Transport::Ctaphid),
            UsbStep::Attach(Transport::WalletHid),
            UsbStep::Poll,
            UsbStep::AskStatus,
        ]
    );
    assert_eq!(
        serve(false, false, false),
        vec![UsbStep::Attach(Transport::Ctaphid), UsbStep::Poll, UsbStep::AskStatus]
    );
}

#[test]
fn nfc_interrupt_wakes_the_drain() {
    assert_eq!(nfct_irq(), Interrupt::Swi1Egu1);
}

#[test]
fn slow_syscalls_are_those_over_thirty_milliseconds() {
    assert!(!is_slow_syscall(0));
    assert!(!is_slow_syscall(30));
    assert!(is_slow_syscall(31));
}
