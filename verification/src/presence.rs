//! User presence: where it is read from, and the answer to a wallet that waits
//! for it.
use vstd::prelude::*;
use crate::clock::elapsed_ms;
use crate::config::{Board, Features};
use crate::gesture::{take_gesture, Gesture, GestureLatch};

verus! {

/// The approve button of the SuperMini (P0.11) among the input levels of port 0.
pub const APPROVE_PIN: u32 = 0x0000_0800;

/// The deny button of the SuperMini (P0.24) among the input levels of port 0.
pub const DENY_PIN: u32 = 0x0100_0000;

/// How long a wallet request waits for the user.
pub const CONSENT_BUDGET_MS: u32 = 30_000;

/// The start time that stands for "no wallet request in flight".
pub const NO_REQUEST: u32 = 0xFFFF_FFFF;

/// How sure it is that the user agrees.
#[derive(Copy, Clone, Debug, PartialEq, Eq, Structural)]
pub enum Level {
    /// Nobody is there.
    Absent,
    /// A touch.
    Normal,
    /// A deliberate gesture.
    Strong,
}

/// What the presence inputs say.
#[derive(Copy, Clone, Debug, PartialEq, Eq, Structural)]
pub enum Presence {
    /// The user agrees.
    Grant(Level),
    /// The user refuses.
    Deny,
    /// Nothing yet.
    Pending,
}

/// The readings from which presence is told, besides the latched gesture.
#[derive(Copy, Clone, Debug, PartialEq, Eq, Structural)]
pub struct PresenceInputs {
    /// The input levels of port 0. Its buttons pull their pin low.
    pub pins: u32,
    /// A reader's field is on.
    pub field_on: bool,
    /// The NDEF application holds an override, so the field means nothing.
    pub ndef_override: bool,
}

impl PresenceInputs {
    /// The deny button is down.
    pub open spec fn denied(self) -> bool {
        self.pins & DENY_PIN == 0
    }

    /// The approve button is down.
    pub open spec fn approved(self) -> bool {
        self.pins & APPROVE_PIN == 0
    }
}

/// What a forced presence `code` says; nothing for 0. The codes 1 and 2 are for one
/// reading, all others for every reading: 129 and 130 grant it, the rest keep it
/// waiting.
pub open spec fn forced(code: u8) -> Option<Presence> {
    if code == 0 {
        None
    } else if code == 1 || code == 129 {
        Some(Presence::Grant(Level::Normal))
    } else if code == 2 || code == 130 {
        Some(Presence::Grant(Level::Strong))
    } else {
        Some(Presence::Pending)
    }
}

/// The forced presence code that is left after a reading.
pub open spec fn forced_after(f: Features, code: u8) -> u8 {
    if f.test_up_control && (code == 1 || code == 2) {
        0
    } else {
        code
    }
}

/// What is known about presence without looking at the latch. In this order: the
/// forced code, the SuperMini's buttons (deny before approve), a reader's field.
pub open spec fn before_latch(f: Features, code: u8, inputs: PresenceInputs) -> Option<Presence> {
    if f.test_up_control && forced(code) is Some {
        forced(code)
    } else if f.board == Board::Supermini && inputs.denied() {
        Some(Presence::Deny)
    } else if f.board == Board::Supermini && inputs.approved() {
        Some(Presence::Grant(Level::Normal))
    } else if inputs.field_on && !inputs.ndef_override {
        Some(Presence::Grant(Level::Normal))
    } else {
        None
    }
}

/// What a taken gesture says about presence.
pub open spec fn by_gesture(g: Gesture) -> Presence {
    match g {
        Gesture::Approve => Presence::Grant(Level::Normal),
        Gesture::Deny => Presence::Deny,
        Gesture::Nothing => Presence::Pending,
    }
}

/// What presence is, all inputs considered.
pub open spec fn presence(f: Features, code: u8, inputs: PresenceInputs, held: Gesture) -> Presence {
    if before_latch(f, code, inputs) is Some {
        before_latch(f, code, inputs)->0
    } else {
        by_gesture(held)
    }
}

/// What the latch holds after presence was read: the gesture is taken only where
/// no other input decided.
pub open spec fn held_after(
    f: Features,
    code: u8,
    inputs: PresenceInputs,
    held: Gesture,
) -> Gesture {
    if before_latch(f, code, inputs) is Some {
        held
    } else {
        Gesture::Nothing
    }
}

/// Reads presence from all its inputs.
pub fn read_presence(
    f: &Features,
    up_control: &mut u8,
    inputs: &PresenceInputs,
    latch: &mut GestureLatch,
) -> (p: Presence)
    ensures
        p == presence(*f, *old(up_control), *inputs, old(latch)@),
        *final(up_control) == forced_after(*f, *old(up_control)),
        final(latch)@ == held_after(*f, *old(up_control), *inputs, old(latch)@),
{
    if f.test_up_control {
        let code: u8 = *up_control;
        if code == 1 {
            *up_control = 0;
            return Presence::Grant(Level::Normal);
        } else if code == 2 {
            *up_control = 0;
            return Presence::Grant(Level::Strong);
        } else if code == 129 {
            return Presence::Grant(Level::Normal);
        } else if code == 130 {
            return Presence::Grant(Level::Strong);
        } else if code != 0 {
            return Presence::Pending;
        }
    }
    if f.board == Board::Supermini {
        if inputs.pins & DENY_PIN == 0 {
            return Presence::Deny;
        }
        if inputs.pins & APPROVE_PIN == 0 {
            return Presence::Grant(Level::Normal);
        }
    }
    if inputs.field_on && !inputs.ndef_override {
        return Presence::Grant(Level::Normal);
    }
    match take_gesture(latch) {
        Gesture::Approve => Presence::Grant(Level::Normal),
        Gesture::Deny => Presence::Deny,
        Gesture::Nothing => Presence::Pending,
    }
}

/// Only a test image can be made to grant presence without the user: otherwise a
/// grant needs the approve button, a reader's field or a latched approval, and
/// the forced code is neither read nor changed.
pub proof fn law_grant_needs_the_user(f: Features, code: u8, inputs: PresenceInputs, held: Gesture)
    requires
        !f.test_up_control,
    ensures
        presence(f, code, inputs, held) is Grant ==> (f.board == Board::Supermini
            && inputs.approved()) || (inputs.field_on && !inputs.ndef_override) || held
            == Gesture::Approve,
        presence(f, code, inputs, held) is Grant ==> presence(f, code, inputs, held)
            == Presence::Grant(Level::Normal),
        forced_after(f, code) == code,
{
}

/// A held deny button wins over everything but a forced code.
pub proof fn law_deny_button_wins(f: Features, code: u8, inputs: PresenceInputs, held: Gesture)
    requires
        f.board == Board::Supermini,
        inputs.denied(),
        !f.test_up_control || code == 0,
    ensures
        presence(f, code, inputs, held) == Presence::Deny,
{
}

/// A latched gesture answers one reading: once taken, the next reading with the
/// other inputs silent finds nothing.
pub proof fn law_gesture_answers_once(f: Features, code: u8, inputs: PresenceInputs, held: Gesture)
    requires
        before_latch(f, code, inputs) is None,
    ensures
        presence(f, code, inputs, held) == by_gesture(held),
        presence(f, forced_after(f, code), inputs, held_after(f, code, inputs, held))
            == Presence::Pending,
{
}

/// In a test image the codes 1 and 2 grant one reading and are then used up, 129
/// and 130 grant every reading, and 128 keeps every reading waiting.
pub proof fn law_forced_codes(f: Features, inputs: PresenceInputs, held: Gesture)
    requires
        f.test_up_control,
    ensures
        presence(f, 1, inputs, held) == Presence::Grant(Level::Normal),
        forced_after(f, 1) == 0,
        presence(f, 2, inputs, held) == Presence::Grant(Level::Strong),
        forced_after(f, 2) == 0,
        presence(f, 128, inputs, held) == Presence::Pending,
        forced_after(f, 128) == 128,
        presence(f, 129, inputs, held) == Presence::Grant(Level::Normal),
        forced_after(f, 129) == 129,
        presence(f, 130, inputs, held) == Presence::Grant(Level::Strong),
        forced_after(f, 130) == 130,
        forced(0) is None,
{
}

/// A grant is owed, not only allowed. With no code forced and the deny button up,
/// presence is granted exactly when the SuperMini's approve button is down, a reader's
/// field is on without an override, or an approval is latched: on every board, and
/// whatever the rest says.
pub proof fn law_grant_is_owed(f: Features, code: u8, inputs: PresenceInputs, held: Gesture)
    requires
        !f.test_up_control || code == 0,
        f.board == Board::Supermini ==> inputs.pins & 0x0100_0000 != 0,
    ensures
        presence(f, code, inputs, held) == Presence::Grant(Level::Normal) <==> (f.board
            == Board::Supermini && inputs.pins & 0x0000_0800 == 0) || (inputs.field_on
            && !inputs.ndef_override) || held == Gesture::Approve,
        presence(f, code, inputs, held) is Grant ==> presence(f, code, inputs, held)
            == Presence::Grant(Level::Normal),
{
}

/// With no code forced, presence is denied exactly when the SuperMini's deny button is
/// down, or when a denial is latched and nothing grants; it is pending exactly when no
/// input says anything.
pub proof fn law_denial_and_silence(f: Features, code: u8, inputs: PresenceInputs, held: Gesture)
    requires
        !f.test_up_control || code == 0,
    ensures
        ({
            let p = presence(f, code, inputs, held);
            let deny_down = f.board == Board::Supermini && inputs.pins & 0x0100_0000 == 0;
            let approve_down = f.board == Board::Supermini && inputs.pins & 0x0000_0800 == 0;
            let field = inputs.field_on && !inputs.ndef_override;
            &&& p == Presence::Deny <==> deny_down || (held == Gesture::Deny && !approve_down
                && !field)
            &&& p == Presence::Pending <==> held == Gesture::Nothing && !deny_down && !approve_down
                && !field
        }),
{
}

/// The latched gesture is taken exactly when it was needed: where a forced code, a button
/// of the SuperMini or a reader's field has spoken, it stays for the next reading.
pub proof fn law_gesture_is_taken_when_needed(
    f: Features,
    code: u8,
    inputs: PresenceInputs,
    held: Gesture,
)
    ensures
        ({
            let spoken = (f.test_up_control && code != 0) || (f.board == Board::Supermini && (
            inputs.pins & 0x0100_0000 == 0 || inputs.pins & 0x0000_0800 == 0)) || (inputs.field_on
                && !inputs.ndef_override);
            &&& spoken ==> held_after(f, code, inputs, held) == held
            &&& !spoken ==> held_after(f, code, inputs, held) == Gesture::Nothing
            &&& spoken ==> forall|other: Gesture|
                #[trigger] presence(f, code, inputs, other) == presence(f, code, inputs, held)
        }),
{
}

/// A board without those buttons does not look at their pins, and an override leaves the
/// field without a say.
pub proof fn law_inputs_without_a_say(f: Features, code: u8, inputs: PresenceInputs, pins: u32, held: Gesture)
    ensures
        f.board != Board::Supermini ==> presence(f, code, inputs, held) == presence(
            f,
            code,
            PresenceInputs { pins, ..inputs },
            held,
        ),
        inputs.ndef_override ==> presence(f, code, inputs, held) == presence(
            f,
            code,
            PresenceInputs { field_on: !inputs.field_on, ..inputs },
            held,
        ),
        !f.test_up_control ==> presence(f, code, inputs, held) == presence(f, 0, inputs, held),
{
}

/// Every forced code of a test image, whatever the inputs and the board: 1 and 129 grant,
/// 2 and 130 grant strongly, any other but 0 keeps the reading waiting. Only 1 and 2 are
/// used up. An image that is no test image never changes the code.
pub proof fn law_every_forced_code(f: Features, code: u8, inputs: PresenceInputs, held: Gesture)
    ensures
        f.test_up_control && code != 0 ==> {
            let p = presence(f, code, inputs, held);
            &&& p == Presence::Grant(Level::Normal) <==> code % 128 == 1
            &&& p == Presence::Grant(Level::Strong) <==> code % 128 == 2
            &&& p == Presence::Pending <==> code % 128 != 1 && code % 128 != 2
        },
        f.test_up_control && 1 <= code <= 2 ==> forced_after(f, code) == 0,
        f.test_up_control && !(1 <= code <= 2) ==> forced_after(f, code) == code,
        !f.test_up_control ==> forced_after(f, code) == code,
{
}

/// What a waiting wallet is told.
#[derive(Copy, Clone, Debug, PartialEq, Eq, Structural)]
pub enum UpResult {
    /// The user agreed.
    Granted,
    /// The user refused, or the time is up.
    TimedOut,
    /// Keep waiting.
    Waiting,
}

/// When the wallet request in flight was first seen.
#[derive(Copy, Clone, Debug, PartialEq, Eq, Structural)]
pub struct ConsentClock {
    /// The time, or `NO_REQUEST`.
    pub start: u32,
}

impl ConsentClock {
    /// No request in flight.
    pub fn new() -> (c: Self)
        ensures
            c.start == NO_REQUEST,
    {
        ConsentClock { start: NO_REQUEST }
    }

    /// When the request counts as begun if it is seen at `now`.
    pub open spec fn begun(self, now: u32) -> u32 {
        if self.start == NO_REQUEST {
            now
        } else {
            self.start
        }
    }

    /// The clock after the request was seen at `now`.
    pub open spec fn seen(self, now: u32) -> ConsentClock {
        ConsentClock { start: self.begun(now) }
    }

    /// The clock after the request was seen at all the times `nows`.
    pub open spec fn seen_all(self, nows: Seq<u32>) -> ConsentClock
        decreases nows.len(),
    {
        if nows.len() == 0 {
            self
        } else {
            self.seen_all(nows.drop_last()).seen(nows.last())
        }
    }

    /// The answer at `now` when presence is `p`.
    pub open spec fn answer(self, p: Presence, now: u32) -> UpResult {
        match p {
            Presence::Grant(_) => UpResult::Granted,
            Presence::Deny => UpResult::TimedOut,
            Presence::Pending => if crate::clock::elapsed(now, self.begun(now))
                > CONSENT_BUDGET_MS {
                UpResult::TimedOut
            } else {
                UpResult::Waiting
            },
        }
    }
}

/// The answer for a wallet request when presence is `p`, and the record of when
/// the request was first seen.
pub fn consent_answer(clock: &mut ConsentClock, p: Presence, now_ms: u32) -> (r: UpResult)
    ensures
        r == old(clock).answer(p, now_ms),
        *final(clock) == old(clock).seen(now_ms),
{
    if clock.start == NO_REQUEST {
        clock.start = now_ms;
    }
    match p {
        Presence::Grant(_) => UpResult::Granted,
        Presence::Deny => UpResult::TimedOut,
        Presence::Pending => {
            if elapsed_ms(now_ms, clock.start) > CONSENT_BUDGET_MS {
                UpResult::TimedOut
            } else {
                UpResult::Waiting
            }
        },
    }
}

/// One look at the wallet's request. Without a request nothing is read and the
/// clock is cleared, so that the next request gets its whole time. With one, the
/// answer for the wallet is returned.
pub fn confirm_user_present_non_blocking(
    f: &Features,
    requested: bool,
    clock: &mut ConsentClock,
    up_control: &mut u8,
    inputs: &PresenceInputs,
    latch: &mut GestureLatch,
    now_ms: u32,
) -> (r: Option<UpResult>)
    ensures
        !requested ==> {
            &&& r is None
            &&& final(clock).start == NO_REQUEST
            &&& *final(up_control) == *old(up_control)
            &&& final(latch)@ == old(latch)@
        },
        requested ==> {
            &&& r == Some(
                old(clock).answer(presence(*f, *old(up_control), *inputs, old(latch)@), now_ms),
            )
            &&& *final(clock) == old(clock).seen(now_ms)
            &&& *final(up_control) == forced_after(*f, *old(up_control))
            &&& final(latch)@ == held_after(*f, *old(up_control), *inputs, old(latch)@)
        },
{
    if !requested {
        clock.start = NO_REQUEST;
        return None;
    }
    let p = read_presence(f, up_control, inputs, latch);
    Some(consent_answer(clock, p, now_ms))
}

proof fn lemma_request_start(nows: Seq<u32>)
    requires
        nows.len() > 0,
        nows[0] != NO_REQUEST,
    ensures
        (ConsentClock { start: NO_REQUEST }).seen_all(nows) == (ConsentClock { start: nows[0] }),
    decreases nows.len(),
{
    let none = ConsentClock { start: NO_REQUEST };
    if nows.len() == 1 {
        assert(none.seen_all(nows.drop_last()) == none);
    } else {
        assert(nows.drop_last()[0] == nows[0]);
        lemma_request_start(nows.drop_last());
    }
}

/// A request whose user stays silent waits for the whole budget from the moment
/// it was first seen, and times out after it. A request first seen at the very
/// moment that stands for "no request" is left out: its start is not remembered.
pub proof fn law_silent_request_times_out(nows: Seq<u32>, i: int)
    requires
        0 <= i < nows.len(),
        nows[0] != NO_REQUEST,
    ensures
        (ConsentClock { start: NO_REQUEST }).seen_all(nows.take(i)).answer(
            Presence::Pending,
            nows[i],
        ) == (if crate::clock::elapsed(nows[i], nows[0]) > CONSENT_BUDGET_MS {
            UpResult::TimedOut
        } else {
            UpResult::Waiting
        }),
{
    if i > 0 {
        assert(nows.take(i)[0] == nows[0]);
        lemma_request_start(nows.take(i));
    } else {
        assert(nows.take(0) =~= Seq::<u32>::empty());
    }
}

/// A user who answers is heard however long the request has waited.
pub proof fn law_answer_beats_the_clock(c: ConsentClock, level: Level, now: u32)
    ensures
        c.answer(Presence::Grant(level), now) == UpResult::Granted,
        c.answer(Presence::Deny, now) == UpResult::TimedOut,
{
}

/// A request is timed from when it was first seen and from nothing else: the clock starts
/// with a request that finds none in flight, and is left alone by every later look. While
/// nothing is said the request waits for 30 seconds, the last of them included.
pub proof fn law_request_is_timed_from_its_start(c: ConsentClock, now: u32, later: u32)
    ensures
        c.start == u32::MAX ==> c.seen(now).start == now,
        c.start != u32::MAX ==> c.seen(now) == c,
        c.start == u32::MAX ==> c.answer(Presence::Pending, now) == UpResult::Waiting,
        c.start != u32::MAX ==> (c.answer(Presence::Pending, later) == UpResult::Waiting <==>
            crate::clock::elapsed(later, c.start) <= 30_000),
        c.start != u32::MAX ==> (c.answer(Presence::Pending, later) == UpResult::TimedOut <==>
            crate::clock::elapsed(later, c.start) > 30_000),
{
}

} // verus!
