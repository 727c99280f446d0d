use solo2_runner::config::{memory_source, select_board, Board, ConfigError, Features};
use solo2_runner::led::{
    blink_digit, blink_raw, carry_out, fault_pattern, led_raw, GpioWrite, LedChannel, LedOp, LedScript,
    PanicPattern,
};
use solo2_runner::report::{report_tick, report_values, start_number, Phase, Report};
use solo2_runner::trace::{bump, get, note_usb_events, EpTrace, UsbSeen};

fn play(mut s: LedScript) -> Vec<LedOp> {
    let mut ops = Vec::new();
    while let Some(op) = s.next() {
        ops.push(op);
    }
    ops
}

fn lights(ops: &[LedOp]) -> usize {
    ops.iter().filter(|op| **op == LedOp::Light(true)).count()
}

fn features(board: Board) -> Features {
    Features {
        board,
        ccid: false,
        wallet: false,
        test_up_control: false,
        led_diag: false,
        pin_diag: false,
        nfc_fix: false,
        nfc_diag: false,
    }
}

#[test]
fn boards_exclude_one_another() {
    assert_eq!(select_board(true, false, false), Ok(Board::Dk));
    assert_eq!(select_board(false, true, false), Ok(Board::Solo));
    assert_eq!(select_board(false, false, true), Ok(Board::Supermini));
    assert_eq!(select_board(false, false, false), Err(ConfigError::NoBoard));
    assert_eq!(select_board(true, true, false), Err(ConfigError::BoardsExclude));
    assert_eq!(select_board(true, false, true), Err(ConfigError::BoardsExclude));
    assert_eq!(select_board(false, true, true), Err(ConfigError::BoardsExclude));
    assert_eq!(select_board(true, true, true), Err(ConfigError::BoardsExclude));
}

#[test]
fn field_indication_needs_the_repair() {
    let mut f = features(Board::Supermini);
    assert_eq!(f.check(), Ok(()));
    f.nfc_diag = true;
    assert_eq!(f.check(), Err(ConfigError::NfcDiagWithoutFix));
    f.nfc_fix = true;
    assert_eq!(f.check(), Ok(()));
}

#[test]
fn supermini_has_its_own_memory_layout() {
    assert_eq!(memory_source(Board::Supermini), "memory.x.supermini");
    assert_eq!(memory_source(Board::Dk), "memory.x");
    assert_eq!(memory_source(Board::Solo), "memory.x");
}

#[test]
fn polarity_follows_the_board() {
    let mut dk = LedChannel::new(Board::Dk);
    assert!(!dk.reserved);
    assert_eq!(led_raw(&mut dk, true), GpioWrite::OutClr(1 << 15));
    assert!(dk.reserved);
    assert_eq!(led_raw(&mut dk, false), GpioWrite::OutSet(1 << 15));
    let mut clone = LedChannel::new(Board::Supermini);
    assert_eq!(led_raw(&mut clone, true), GpioWrite::OutSet(1 << 15));
    assert_eq!(led_raw(&mut clone, false), GpioWrite::OutClr(1 << 15));
    let mut solo = LedChannel::new(Board::Solo);
    assert_eq!(led_raw(&mut solo, true), GpioWrite::OutSet(1 << 15));
}

#[test]
fn blink_pattern_is_exact() {
    assert_eq!(
        play(blink_raw(2, 10, 20)),
        vec![
            LedOp::ForceOutput,
            LedOp::Light(true),
            LedOp::Spin(10),
            LedOp::Light(false),
            LedOp::Spin(20),
            LedOp::Light(true),
            LedOp::Spin(10),
            LedOp::Light(false),
            LedOp::Spin(20),
        ]
    );
    assert_eq!(play(blink_raw(0, 1, 1)), vec![LedOp::ForceOutput]);
    let mut over = blink_raw(0, 1, 1);
    over.next();
    assert_eq!(over.next(), None);
    assert_eq!(over.next(), None);
}

#[test]
fn digit_is_blinks_and_a_pause() {
    let zero = play(blink_digit(0));
    assert_eq!(zero, vec![LedOp::ForceOutput, LedOp::Spin(96_000_000)]);
    let seven = play(blink_digit(7));
    assert_eq!(lights(&seven), 7);
    assert_eq!(seven[2], LedOp::Spin(4_000_000));
    assert_eq!(seven[seven.len() - 1], LedOp::Spin(96_000_000));
}

#[test]
fn fault_blinks_fast() {
    assert_eq!(
        play(fault_pattern()),
        vec![
            LedOp::ForceOutput,
            LedOp::Light(true),
            LedOp::Spin(2_000_000),
            LedOp::Light(false),
            LedOp::Spin(2_000_000),
        ]
    );
}

#[test]
fn panic_pattern_spells_the_line_and_repeats() {
    let mut round = Vec::new();
    round.extend(play(blink_raw(5, 16_000_000, 16_000_000)));
    round.push(LedOp::Spin(96_000_000));
    round.extend(play(blink_digit(3)));
    round.extend(play(blink_digit(0)));
    round.extend(play(blink_digit(7)));
    round.push(LedOp::Spin(192_000_000));
    let mut p = PanicPattern::new(307);
    for _ in 0..3 {
        for op in &round {
            assert_eq!(p.next(), *op);
        }
    }
}

#[test]
fn panic_line_past_999_has_a_long_first_group() {
    let mut p = PanicPattern::new(1234);
    let len = 1 + 4 * 5 + 1 + (1 + 4 * 12 + 1) + (1 + 4 * 3 + 1) + (1 + 4 * 4 + 1) + 1;
    let ops: Vec<LedOp> = (0..len).map(|_| p.next()).collect();
    assert_eq!(lights(&ops), 5 + 12 + 3 + 4);
    assert_eq!(ops[len - 1], LedOp::Spin(192_000_000));
    assert_eq!(p.next(), LedOp::ForceOutput);
}

#[test]
fn counters_saturate() {
    let mut c = 0u32;
    bump(&mut c);
    bump(&mut c);
    assert_eq!(get(&c), 2);
    let mut full = u32::MAX - 1;
    bump(&mut full);
    bump(&mut full);
    assert_eq!(get(&full), u32::MAX);
}

#[test]
fn usb_events_stay_noted() {
    let mut seen = UsbSeen::new();
    let none = UsbSeen { usb_reset: false, ep0_setup: false, ep0_datadone: false };
    note_usb_events(&mut seen, UsbSeen { ep0_setup: true, ..none });
    assert_eq!(seen, UsbSeen { ep0_setup: true, ..none });
    note_usb_events(&mut seen, none);
    assert!(seen.ep0_setup);
    note_usb_events(&mut seen, UsbSeen { usb_reset: true, ep0_datadone: true, ..none });
    assert_eq!(seen, UsbSeen { usb_reset: true, ep0_setup: true, ep0_datadone: true });
}

#[test]
fn report_caps_the_counters_and_not_the_request() {
    let mut t = EpTrace::new();
    t.write_ep0_calls = 7;
    t.write_ep0_busy_bit = 1;
    t.write_ep0_epstatus = 2;
    t.write_ep0_ok = 3;
    t.ep0_datadone_in = 4;
    t.last_setup_req = 6;
    assert_eq!(report_values(&t), [3, 1, 2, 3, 3, 6]);
    t.last_setup_req = 11;
    assert_eq!(report_values(&t), [3, 1, 2, 3, 3, 11]);
    t.last_setup_req = 200;
    assert_eq!(report_values(&t)[5], 200);
}

#[test]
fn number_zero_is_one_long_flash() {
    let mut led = LedChannel::new(Board::Supermini);
    let mut r = Report::new();
    assert_eq!(start_number(&mut r, &mut led, 0, 5), GpioWrite::OutSet(1 << 15));
    assert!(r.long);
    assert_eq!((r.left, r.phase, r.t0), (0, Phase::On, 5));
    start_number(&mut r, &mut led, 4, 6);
    assert!(!r.long);
    assert_eq!((r.left, r.phase, r.t0), (3, Phase::On, 6));
}

/// Plays a message millisecond by millisecond and collects (lit, duration).
fn record(t: &EpTrace, start: u32, segments: usize) -> Vec<(bool, u32)> {
    let mut led = LedChannel::new(Board::Supermini);
    let mut r = Report::new();
    let mut now = start;
    let first = report_tick(&mut r, t, &mut led, now);
    assert_eq!(first, Some(GpioWrite::OutSet(1 << 15)));
    let mut lit = true;
    let mut since = now;
    let mut out = Vec::new();
    while out.len() < segments {
        now = now.wrapping_add(1);
        if let Some(w) = report_tick(&mut r, t, &mut led, now) {
            out.push((lit, now.wrapping_sub(since)));
            since = now;
            lit = w == GpioWrite::OutSet(1 << 15);
        }
    }
    assert!(led.reserved);
    out
}

#[test]
fn report_dictates_its_message() {
    let mut t = EpTrace::new();
    t.write_ep0_calls = 2;
    t.last_setup_req = 1;
    let flash = [(true, 300), (false, 300)];
    let zero = [(true, 900), (false, 300)];
    let gap = (false, 1000);
    let mut expected = vec![(true, 3000), gap];
    expected.extend(flash);
    expected.extend(flash);
    expected.push(gap);
    for _ in 0..4 {
        expected.extend(zero);
        expected.push(gap);
    }
    expected.extend(flash);
    expected.push(gap);
    let once = expected.clone();
    expected.extend(once);
    assert_eq!(record(&t, 0, expected.len()), expected);
    assert_eq!(record(&t, u32::MAX - 5000, expected.len()), expected);
}

#[test]
fn report_waits_for_the_end_of_a_phase() {
    let t = EpTrace::new();
    let mut led = LedChannel::new(Board::Dk);
    let mut r = Report::new();
    assert_eq!(report_tick(&mut r, &t, &mut led, 10), Some(GpioWrite::OutClr(1 << 15)));
    let before = r;
    assert_eq!(report_tick(&mut r, &t, &mut led, 3009), None);
    assert_eq!(r, before);
    assert_eq!(report_tick(&mut r, &t, &mut led, 9000), Some(GpioWrite::OutSet(1 << 15)));
    assert_eq!(r.phase, Phase::Gap);
}

#[test]
fn report_reads_each_number_when_it_begins() {
    // Every call brings counters that have moved on, at uneven times.
    let mut led = LedChannel::new(Board::Supermini);
    let mut r = Report::new();
    let mut t = EpTrace::new();
    let mut now = 0u32;
    let mut lit = None;
    let mut since = 0;
    let mut shown = Vec::new();
    let mut begun = Vec::new();
    while begun.len() < 7 {
        let num = r.num;
        if let Some(w) = report_tick(&mut r, &t, &mut led, now) {
            if r.num == num + 1 {
                begun.push((report_values(&t)[num as usize], shown.len() + 1));
            } else if r.num < num {
                begun.push((0, shown.len() + 1));
            }
            if let Some(on) = lit {
                shown.push((on, now - since));
            }
            lit = Some(w == GpioWrite::OutSet(1 << 15));
            since = now;
        }
        t.write_ep0_calls = (now / 700) % 4;
        t.write_ep0_busy_bit = (now / 900) % 4;
        t.write_ep0_epstatus = (now / 1100) % 4;
        t.write_ep0_ok = (now / 1300) % 4;
        t.ep0_datadone_in = (now / 1700) % 4;
        t.last_setup_req = (now / 2000) % 12;
        now += 1 + (now / 10) % 29;
    }
    for pair in begun.windows(2) {
        let (n, from) = pair[0];
        let segments = &shown[from..pair[1].1];
        let flashes = segments.iter().filter(|(on, _)| *on).count();
        assert_eq!(flashes as u32, n.max(1));
        assert_eq!(segments.len(), 2 * flashes + 1);
        for (i, (on, ms)) in segments.iter().enumerate() {
            assert_eq!(*on, i % 2 == 0 && i + 1 < segments.len());
            let least = if i + 1 == segments.len() {
                1000
            } else if n == 0 && i == 0 {
                900
            } else {
                300
            };
            assert!(*ms >= least);
        }
    }
}

/// Plays a pattern on a channel and a port and returns the levels of the port.
fn play_on(mut s: LedScript, led: &mut LedChannel, mut out: u32) -> u32 {
    while let Some(op) = s.next() {
        match carry_out(op, led) {
            Some(GpioWrite::OutSet(mask)) => out |= mask,
            Some(GpioWrite::OutClr(mask)) => out &= !mask,
            None => assert!(!matches!(op, LedOp::Light(_))),
        }
    }
    out
}

#[test]
fn blinking_reserves_the_led_and_leaves_it_dark() {
    for board in [Board::Dk, Board::Solo, Board::Supermini] {
        let dark = if board == Board::Dk { 1 << 15 } else { 0 };
        for out in [0x0123_0055, 0x0123_8055] {
            let mut led = LedChannel::new(board);
            assert_eq!(play_on(blink_raw(3, 1, 1), &mut led, out), 0x0123_0055 | dark);
            assert!(led.reserved);
            let mut led = LedChannel::new(board);
            assert_eq!(play_on(blink_digit(2), &mut led, out), 0x0123_0055 | dark);
            assert!(led.reserved);
        }
    }
}

#[test]
fn pattern_without_a_blink_leaves_the_led() {
    let mut led = LedChannel::new(Board::Dk);
    assert_eq!(play_on(blink_raw(0, 1, 1), &mut led, 0x8001), 0x8001);
    assert_eq!(play_on(blink_digit(0), &mut led, 0x0001), 0x0001);
    assert!(!led.reserved);
    led.reserved = true;
    play_on(blink_raw(0, 1, 1), &mut led, 0);
    assert!(led.reserved);
}
