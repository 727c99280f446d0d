use solo2_runner::clock::{elapsed_ms, uptime_ms, Uptime};
use solo2_runner::gesture::{
    latch_gesture, poll_buttons, take_gesture, CapCache, Gesture, GestureDetector, GestureLatch,
    Signals,
};

#[test]
fn clock_counts_across_the_wrap() {
    assert_eq!(elapsed_ms(24, 4_294_967_290), 30);
    assert_eq!(elapsed_ms(100, 40), 60);
    assert_eq!(elapsed_ms(5, 5), 0);
}

#[test]
fn uptime_goes_on_where_the_clock_wraps() {
    let mut u = Uptime::new();
    let mut time = 0u64;
    for step in [0, 1, 4_000_000_000, 4_294_967_295, 30_000, 3_999_999_999, 0, 17] {
        time += step;
        assert_eq!(uptime_ms(&mut u, time as u32), time);
    }
    assert!(time > 2 * (1 << 32));
}

#[test]
fn single_press_approves_on_release() {
    let mut d = GestureDetector::new();
    assert_eq!(d.poll(true, false, false, 1000), Gesture::Nothing);
    assert_eq!(d.poll(true, false, false, 1500), Gesture::Nothing);
    assert_eq!(d.poll(false, false, false, 1600), Gesture::Approve);
    assert_eq!(d.poll(false, false, false, 1700), Gesture::Nothing);
}

#[test]
fn right_button_approves_too() {
    let mut d = GestureDetector::default();
    assert_eq!(d.poll(false, true, false, 0), Gesture::Nothing);
    assert_eq!(d.poll(false, false, false, 30), Gesture::Approve);
}

#[test]
fn both_held_denies_on_release() {
    let mut d = GestureDetector::new();
    assert_eq!(d.poll(true, false, false, 0), Gesture::Nothing);
    assert_eq!(d.poll(true, true, false, 10), Gesture::Nothing);
    assert_eq!(d.poll(false, true, false, 20), Gesture::Nothing);
    assert_eq!(d.poll(false, false, false, 40), Gesture::Deny);
    assert_eq!(d.poll(true, false, false, 50), Gesture::Nothing);
    assert_eq!(d.poll(false, false, false, 100), Gesture::Approve);
}

#[test]
fn bounce_is_no_gesture() {
    let mut d = GestureDetector::new();
    assert_eq!(d.poll(true, false, false, 100), Gesture::Nothing);
    assert_eq!(d.poll(false, false, false, 129), Gesture::Nothing);
    assert_eq!(d.poll(true, false, false, 200), Gesture::Nothing);
    assert_eq!(d.poll(false, false, false, 230), Gesture::Approve);
}

#[test]
fn press_across_the_clock_wrap() {
    let mut d = GestureDetector::new();
    assert_eq!(d.poll(true, false, false, u32::MAX - 9), Gesture::Nothing);
    assert_eq!(d.poll(false, false, false, 20), Gesture::Approve);
}

#[test]
fn explicit_deny_is_immediate_and_one_shot() {
    let mut d = GestureDetector::new();
    assert_eq!(d.poll(true, false, false, 0), Gesture::Nothing);
    assert_eq!(d.poll(true, false, true, 100), Gesture::Deny);
    assert_eq!(d.poll(false, false, true, 200), Gesture::Nothing);
    assert_eq!(d.poll(false, false, true, 300), Gesture::Nothing);
    assert_eq!(d.poll(false, false, false, 400), Gesture::Nothing);
    assert_eq!(d.poll(false, false, true, 500), Gesture::Deny);
}

#[test]
fn held_deny_does_not_hide_a_press() {
    let mut d = GestureDetector::new();
    assert_eq!(d.poll(false, false, true, 0), Gesture::Deny);
    assert_eq!(d.poll(true, false, true, 100), Gesture::Nothing);
    assert_eq!(d.poll(false, false, true, 200), Gesture::Approve);
}

#[test]
fn latch_survives_silence_and_is_taken_once() {
    let mut l = GestureLatch::new();
    assert_eq!(take_gesture(&mut l), Gesture::Nothing);
    latch_gesture(&mut l, Gesture::Approve);
    latch_gesture(&mut l, Gesture::Nothing);
    latch_gesture(&mut l, Gesture::Nothing);
    assert_eq!(take_gesture(&mut l), Gesture::Approve);
    assert_eq!(take_gesture(&mut l), Gesture::Nothing);
}

#[test]
fn fresh_gesture_replaces_the_latched_one() {
    let mut l = GestureLatch::new();
    latch_gesture(&mut l, Gesture::Approve);
    latch_gesture(&mut l, Gesture::Deny);
    assert_eq!(take_gesture(&mut l), Gesture::Deny);
    latch_gesture(&mut l, Gesture::Deny);
    latch_gesture(&mut l, Gesture::Approve);
    assert_eq!(take_gesture(&mut l), Gesture::Approve);
}

#[test]
fn buttons_are_read_at_most_every_fifty_milliseconds() {
    let mut cap = CapCache::new();
    let mut d = GestureDetector::new();
    let mut l = GestureLatch::new();
    assert!(!cap.read_due(49));
    assert!(cap.read_due(50));
    let down = Signals { left: true, right: false, deny: false };
    poll_buttons(&mut cap, &mut d, &mut l, Some(down), 50);
    assert!(!cap.read_due(99));
    // The kept press goes on although nothing is read, and whatever is offered.
    poll_buttons(&mut cap, &mut d, &mut l, None, 70);
    let early = Signals { left: false, right: false, deny: true };
    poll_buttons(&mut cap, &mut d, &mut l, Some(early), 99);
    assert_eq!(take_gesture(&mut l), Gesture::Nothing);
    assert!(cap.read_due(100));
    let up = Signals { left: false, right: false, deny: false };
    poll_buttons(&mut cap, &mut d, &mut l, Some(up), 100);
    assert_eq!(take_gesture(&mut l), Gesture::Approve);
}

#[test]
fn polled_deny_is_latched() {
    let mut cap = CapCache::new();
    let mut d = GestureDetector::new();
    let mut l = GestureLatch::new();
    let deny = Signals { left: false, right: false, deny: true };
    poll_buttons(&mut cap, &mut d, &mut l, Some(deny), 60);
    poll_buttons(&mut cap, &mut d, &mut l, None, 80);
    assert_eq!(take_gesture(&mut l), Gesture::Deny);
}

#[test]
fn one_button_board_denies_by_its_deny_button_only() {
    let mut d = GestureDetector::new();
    let mut seen = Vec::new();
    for (now, left, deny) in [
        (0, true, false),
        (100, true, false),
        (200, false, false),
        (300, true, false),
        (310, false, false),
        (400, false, true),
        (500, true, true),
        (600, false, true),
    ] {
        seen.push(d.poll(left, false, deny, now));
    }
    assert_eq!(
        seen,
        vec![
            Gesture::Nothing,
            Gesture::Nothing,
            Gesture::Approve,
            Gesture::Nothing,
            Gesture::Nothing,
            Gesture::Deny,
            Gesture::Nothing,
            Gesture::Approve,
        ]
    );
}

#[test]
fn due_poll_without_a_reading_goes_by_the_kept_one() {
    let mut cap = CapCache::new();
    let mut d = GestureDetector::new();
    let mut l = GestureLatch::new();
    let down = Signals { left: true, right: false, deny: false };
    poll_buttons(&mut cap, &mut d, &mut l, Some(down), 50);
    poll_buttons(&mut cap, &mut d, &mut l, None, 500);
    assert_eq!(take_gesture(&mut l), Gesture::Nothing);
    assert!(cap.read_due(500));
    let up = Signals { left: false, ..down };
    poll_buttons(&mut cap, &mut d, &mut l, Some(up), 501);
    assert_eq!(take_gesture(&mut l), Gesture::Approve);
    assert!(!cap.read_due(550));
}
