//! The order in which the firmware serves its parts: the idle loop, the USB and
//! NFC interrupts, the keep-alive pump and the small tasks beside them.
//!
//! Each task asks for its next action, carries it out, and hands back what it
//! brought.
use vstd::prelude::*;
use crate::config::{Board, Features};

verus! {

/// The interrupts that one task raises to wake another.
#[derive(Copy, Clone, Debug, PartialEq, Eq, Structural)]
pub enum Interrupt {
    /// The USB peripheral.
    Usbd,
    /// The crypto service.
    Swi0Egu0,
    /// The NFC drain.
    Swi1Egu1,
}

/// What the USB transport wants after it was served.
#[derive(Copy, Clone, Debug, PartialEq, Eq, Structural)]
pub enum UsbStatus {
    /// Nothing.
    Idle,
    /// A command has come in; a keep-alive is due in so many milliseconds.
    ReceivedData(u32),
}

/// One action of a task.
#[derive(Copy, Clone, Debug, PartialEq, Eq, Structural)]
pub enum Action {
    /// Show by the LED whether the NFC pins are NFC pins.
    ShowNfcPins,
    /// Note the events that the USB peripheral shows.
    NoteUsbEvents,
    /// Step the LED report.
    ReportTick,
    /// Poll the buttons.
    PollButtons,
    /// Refresh the "waiting for the user" light.
    RefreshUpLed,
    /// Mirror the button pins by the LED.
    MirrorPins,
    /// Show a reader's field by the LED.
    ShowNfcField,
    /// Move requests and responses between NFC and the dispatch.
    PollNfc,
    /// Let the smart-card applications work.
    DispatchApdu,
    /// Fetch a response for the USB smart-card transport.
    CheckCcid,
    /// Let the CTAPHID applications work. Brings whether a response is pending.
    DispatchCtaphid,
    /// Answer a wallet that waits for the user.
    ConfirmPresence,
    /// Let the wallet work. Brings whether a response is pending.
    PollWallet,
    /// Serve the USB transports by the steps of [`serve_step`]. Brings the CTAPHID
    /// status.
    ServeUsb {
        /// Fetch the responses first.
        fetch: bool,
        /// The smart-card transport takes part.
        ccid: bool,
        /// The wallet transport takes part.
        wallet: bool,
    },
    /// Raise an interrupt.
    Pend(Interrupt),
    /// Tell the keep-alive pump when the keep-alive is due.
    SendKeepalive(u32),
}

/// What an action brought.
#[derive(Copy, Clone, Debug, PartialEq, Eq, Structural)]
pub enum Reply {
    /// Nothing.
    Nothing,
    /// Whether a response is pending.
    Pending(bool),
    /// The CTAPHID status.
    Usb(UsbStatus),
}

/// The action that a reply calls for before the plan goes on: a pending response
/// wakes the USB interrupt, a received command arms the keep-alive.
pub open spec fn follow_up(last: Option<Action>, reply: Reply) -> Option<Action> {
    match (last, reply) {
        (Some(Action::DispatchCtaphid), Reply::Pending(true)) => Some(
            Action::Pend(Interrupt::Usbd),
        ),
        (Some(Action::PollWallet), Reply::Pending(true)) => Some(Action::Pend(Interrupt::Usbd)),
        (Some(Action::ServeUsb { .. }), Reply::Usb(UsbStatus::ReceivedData(ms))) => Some(
            Action::SendKeepalive(ms),
        ),
        _ => None,
    }
}

fn follow(last: Option<Action>, reply: Reply) -> (a: Option<Action>)
    ensures
        a == follow_up(last, reply),
{
    match (last, reply) {
        (Some(Action::DispatchCtaphid), Reply::Pending(true)) => Some(
            Action::Pend(Interrupt::Usbd),
        ),
        (Some(Action::PollWallet), Reply::Pending(true)) => Some(Action::Pend(Interrupt::Usbd)),
        (Some(Action::ServeUsb { .. }), Reply::Usb(UsbStatus::ReceivedData(ms))) => Some(
            Action::SendKeepalive(ms),
        ),
        _ => None,
    }
}

/// The action, if it takes part.
pub open spec fn given(takes_part: bool, a: Action) -> Seq<Action> {
    if takes_part {
        seq![a]
    } else {
        Seq::empty()
    }
}

/// The actions of one pass of the idle loop. The LED diagnostics of the NFC pins, of
/// the button pins and of a reader's field come behind the light that they override.
pub open spec fn idle_plan(f: Features) -> Seq<Action> {
    given(f.led_diag, Action::NoteUsbEvents)
        + given(f.led_diag, Action::ReportTick)
        + seq![Action::PollButtons]
        + seq![Action::RefreshUpLed]
        + given(f.nfc_fix && !f.nfc_diag, Action::ShowNfcPins)
        + given(f.pin_diag && f.board == Board::Supermini, Action::MirrorPins)
        + given(f.nfc_diag && f.board == Board::Supermini, Action::ShowNfcField)
        + seq![Action::PollNfc]
        + seq![Action::DispatchApdu]
        + given(f.ccid, Action::CheckCcid)
        + seq![Action::DispatchCtaphid]
        + given(f.wallet, Action::ConfirmPresence)
        + given(f.wallet, Action::PollWallet)
        + seq![Action::ServeUsb { fetch: true, ccid: f.ccid, wallet: f.wallet }]
}

/// The number of places in the plan of a pass.
const PLACES: u8 = 14;

spec fn place(f: Features, k: int) -> Option<Action> {
    if k == 0 && f.led_diag {
        Some(Action::NoteUsbEvents)
    } else if k == 1 && f.led_diag {
        Some(Action::ReportTick)
    } else if k == 2 {
        Some(Action::PollButtons)
    } else if k == 3 {
        Some(Action::RefreshUpLed)
    } else if k == 4 && f.nfc_fix && !f.nfc_diag {
        Some(Action::ShowNfcPins)
    } else if k == 5 && f.pin_diag && f.board == Board::Supermini {
        Some(Action::MirrorPins)
    } else if k == 6 && f.nfc_diag && f.board == Board::Supermini {
        Some(Action::ShowNfcField)
    } else if k == 7 {
        Some(Action::PollNfc)
    } else if k == 8 {
        Some(Action::DispatchApdu)
    } else if k == 9 && f.ccid {
        Some(Action::CheckCcid)
    } else if k == 10 {
        Some(Action::DispatchCtaphid)
    } else if k == 11 && f.wallet {
        Some(Action::ConfirmPresence)
    } else if k == 12 && f.wallet {
        Some(Action::PollWallet)
    } else if k == 13 {
        Some(Action::ServeUsb { fetch: true, ccid: f.ccid, wallet: f.wallet })
    } else {
        None
    }
}

spec fn plan_from(f: Features, k: int) -> Seq<Action>
    decreases PLACES - k,
{
    if k >= PLACES {
        Seq::empty()
    } else {
        (if place(f, k) is Some {
            seq![place(f, k)->0]
        } else {
            Seq::empty()
        }) + plan_from(f, k + 1)
    }
}

proof fn lemma_next_place(before: Seq<Action>, f: Features, k: int) -> (here: Seq<Action>)
    requires
        0 <= k < PLACES,
    ensures
        place(f, k) is Some ==> here == seq![place(f, k)->0],
        place(f, k) is None ==> here == Seq::<Action>::empty(),
        before + plan_from(f, k) == (before + here) + plan_from(f, k + 1),
{
    let here = if place(f, k) is Some {
        seq![place(f, k)->0]
    } else {
        Seq::empty()
    };
    assert(plan_from(f, k) == here + plan_from(f, k + 1));
    assert(before + (here + plan_from(f, k + 1)) =~= (before + here) + plan_from(f, k + 1));
    here
}

proof fn lemma_idle_plan(f: Features)
    ensures
        plan_from(f, 0) == idle_plan(f),
{
    let none = Seq::<Action>::empty();
    let supermini = f.board == Board::Supermini;
    let h0 = lemma_next_place(none, f, 0);
    let p0 = given(f.led_diag, Action::NoteUsbEvents);
    assert(none + h0 =~= p0);
    assert(none + plan_from(f, 0) =~= plan_from(f, 0));
    let h1 = lemma_next_place(p0, f, 1);
    let p1 = p0 + given(f.led_diag, Action::ReportTick);
    let h2 = lemma_next_place(p1, f, 2);
    let p2 = p1 + seq![Action::PollButtons];
    let h3 = lemma_next_place(p2, f, 3);
    let p3 = p2 + seq![Action::RefreshUpLed];
    let h4 = lemma_next_place(p3, f, 4);
    let p4 = p3 + given(f.nfc_fix && !f.nfc_diag, Action::ShowNfcPins);
    let h5 = lemma_next_place(p4, f, 5);
    let p5 = p4 + given(f.pin_diag && supermini, Action::MirrorPins);
    let h6 = lemma_next_place(p5, f, 6);
    let p6 = p5 + given(f.nfc_diag && supermini, Action::ShowNfcField);
    let h7 = lemma_next_place(p6, f, 7);
    let p7 = p6 + seq![Action::PollNfc];
    let h8 = lemma_next_place(p7, f, 8);
    let p8 = p7 + seq![Action::DispatchApdu];
    let h9 = lemma_next_place(p8, f, 9);
    let p9 = p8 + given(f.ccid, Action::CheckCcid);
    let h10 = lemma_next_place(p9, f, 10);
    let p10 = p9 + seq![Action::DispatchCtaphid];
    let h11 = lemma_next_place(p10, f, 11);
    let p11 = p10 + given(f.wallet, Action::ConfirmPresence);
    let h12 = lemma_next_place(p11, f, 12);
    let p12 = p11 + given(f.wallet, Action::PollWallet);
    let h13 = lemma_next_place(p12, f, 13);
    let p13 = p12 + seq![Action::ServeUsb { fetch: true, ccid: f.ccid, wallet: f.wallet }];
    assert(p13 + plan_from(f, 14) =~= p13);
}

spec fn rank(a: Action) -> int {
    match a {
        Action::NoteUsbEvents => 0,
        Action::ReportTick => 1,
        Action::PollButtons => 2,
        Action::RefreshUpLed => 3,
        Action::ShowNfcPins => 4,
        Action::MirrorPins => 5,
        Action::ShowNfcField => 6,
        Action::PollNfc => 7,
        Action::DispatchApdu => 8,
        Action::CheckCcid => 9,
        Action::DispatchCtaphid => 10,
        Action::ConfirmPresence => 11,
        Action::PollWallet => 12,
        Action::ServeUsb { .. } => 13,
        Action::Pend(_) => -1,
        Action::SendKeepalive(_) => -1,
    }
}

proof fn lemma_plan_is_ranked(f: Features, k: int)
    requires
        0 <= k <= PLACES,
    ensures
        forall|i: int| 0 <= i < plan_from(f, k).len() ==> rank(#[trigger] plan_from(f, k)[i]) >= k,
        forall|i: int, j: int|
            0 <= i < j < plan_from(f, k).len() ==> rank(#[trigger] plan_from(f, k)[i]) < rank(
                #[trigger] plan_from(f, k)[j],
            ),
    decreases PLACES - k,
{
    if k < PLACES {
        lemma_plan_is_ranked(f, k + 1);
        let rest = plan_from(f, k + 1);
        let all = plan_from(f, k);
        if place(f, k) is Some {
            assert(all =~= seq![place(f, k)->0] + rest);
            assert(rank(place(f, k)->0) == k);
            assert forall|i: int| 0 <= i < all.len() implies rank(#[trigger] all[i]) >= k by {
                if i > 0 {
                    assert(all[i] == rest[i - 1]);
                }
            }
            assert forall|i: int, j: int| 0 <= i < j < all.len() implies rank(#[trigger] all[i])
                < rank(#[trigger] all[j]) by {
                assert(all[j] == rest[j - 1]);
                if i > 0 {
                    assert(all[i] == rest[i - 1]);
                }
            }
        } else {
            assert(all =~= rest);
        }
    }
}

fn action_at(f: &Features, k: u8) -> (a: Option<Action>)
    ensures
        a == place(*f, k as int),
{
    let supermini = f.board == Board::Supermini;
    if k == 0 && f.led_diag {
        Some(Action::NoteUsbEvents)
    } else if k == 1 && f.led_diag {
        Some(Action::ReportTick)
    } else if k == 2 {
        Some(Action::PollButtons)
    } else if k == 3 {
        Some(Action::RefreshUpLed)
    } else if k == 4 && f.nfc_fix && !f.nfc_diag {
        Some(Action::ShowNfcPins)
    } else if k == 5 && f.pin_diag && supermini {
        Some(Action::MirrorPins)
    } else if k == 6 && f.nfc_diag && supermini {
        Some(Action::ShowNfcField)
    } else if k == 7 {
        Some(Action::PollNfc)
    } else if k == 8 {
        Some(Action::DispatchApdu)
    } else if k == 9 && f.ccid {
        Some(Action::CheckCcid)
    } else if k == 10 {
        Some(Action::DispatchCtaphid)
    } else if k == 11 && f.wallet {
        Some(Action::ConfirmPresence)
    } else if k == 12 && f.wallet {
        Some(Action::PollWallet)
    } else if k == 13 {
        Some(Action::ServeUsb { fetch: true, ccid: f.ccid, wallet: f.wallet })
    } else {
        None
    }
}

/// Where the idle loop stands.
pub struct IdleState {
    /// The rest of the pass.
    pub left: Seq<Action>,
    /// The last action.
    pub last: Option<Action>,
}

impl IdleState {
    /// What the plan has next: the rest of the pass, or a new pass.
    pub open spec fn planned(self, f: Features) -> Seq<Action> {
        if self.left.len() > 0 {
            self.left
        } else {
            idle_plan(f)
        }
    }

    /// The next action when the last one brought `reply`.
    pub open spec fn action(self, f: Features, reply: Reply) -> Action {
        if follow_up(self.last, reply) is Some {
            follow_up(self.last, reply)->0
        } else {
            self.planned(f)[0]
        }
    }

    /// The state after that action.
    pub open spec fn after(self, f: Features, reply: Reply) -> IdleState {
        if follow_up(self.last, reply) is Some {
            IdleState { left: self.left, last: follow_up(self.last, reply) }
        } else {
            IdleState { left: self.planned(f).skip(1), last: Some(self.planned(f)[0]) }
        }
    }

    /// The actions that a run of replies brings.
    pub open spec fn actions(self, f: Features, replies: Seq<Reply>) -> Seq<Action>
        decreases replies.len(),
    {
        if replies.len() == 0 {
            Seq::empty()
        } else {
            seq![self.action(f, replies[0])] + self.after(f, replies[0]).actions(f, replies.skip(1))
        }
    }
}

/// The idle loop.
pub struct IdleLoop {
    features: Features,
    at: u8,
    last: Option<Action>,
}

impl View for IdleLoop {
    type V = IdleState;

    closed spec fn view(&self) -> IdleState {
        IdleState { left: plan_from(self.features, self.at as int), last: self.last }
    }
}

impl IdleLoop {
    /// What the image is built for.
    pub closed spec fn features(&self) -> Features {
        self.features
    }

    /// The loop before its first pass.
    pub fn new(features: Features) -> (l: Self)
        ensures
            l.features() == features,
            l@ == (IdleState { left: idle_plan(features), last: None }),
    {
        proof {
            lemma_idle_plan(features);
        }
        IdleLoop { features, at: 0, last: None }
    }

    /// The next action of the plan, from the rest of the pass or from a new one.
    fn next_planned(&mut self) -> (a: Action)
        ensures
            final(self).features == old(self).features,
            ({
                let planned = if old(self)@.left.len() > 0 {
                    old(self)@.left
                } else {
                    plan_from(old(self).features, 0)
                };
                &&& a == planned[0]
                &&& final(self)@ == (IdleState { left: planned.skip(1), last: Some(planned[0]) })
            }),
    {
        let ghost f = self.features;
        let ghost before = self@;
        let mut k: u8 = self.at;
        while k < PLACES && action_at(&self.features, k).is_none()
            invariant
                self.features == f,
                self.last == before.last,
                plan_from(f, k as int) == before.left,
            decreases PLACES - k,
        {
            assert(plan_from(f, k as int) =~= plan_from(f, k + 1));
            k = k + 1;
        }
        if k >= PLACES {
            assert(before.left.len() == 0);
            k = 0;
            while k < 2 && action_at(&self.features, k).is_none()
                invariant
                    k <= 2,
                    self.features == f,
                    self.last == before.last,
                    plan_from(f, k as int) == plan_from(f, 0),
                decreases PLACES - k,
            {
                assert(plan_from(f, k as int) =~= plan_from(f, k + 1));
                k = k + 1;
            }
        }
        assert(place(f, k as int) is Some);
        assert(plan_from(f, k as int) =~= seq![place(f, k as int)->0] + plan_from(f, k + 1));
        assert(plan_from(f, k as int).skip(1) =~= plan_from(f, k + 1));
        match action_at(&self.features, k) {
            Some(a) => {
                self.at = k + 1;
                self.last = Some(a);
                a
            },
            None => Action::PollButtons,
        }
    }

    /// The next action, given what the last one brought. A pass that is over is
    /// followed by another.
    pub fn next(&mut self, reply: Reply) -> (a: Action)
        ensures
            final(self).features() == old(self).features(),
            a == old(self)@.action(old(self).features(), reply),
            final(self)@ == old(self)@.after(old(self).features(), reply),
    {
        match follow(self.last, reply) {
            Some(a) => {
                self.last = Some(a);
                a
            },
            None => {
                proof {
                    lemma_idle_plan(self.features);
                }
                self.next_planned()
            },
        }
    }
}

/// An action that answers a reply rather than the plan.
pub open spec fn answers(a: Action) -> bool {
    a is Pend || a is SendKeepalive
}

/// The actions of a list that come from the plan.
pub open spec fn from_plan(actions: Seq<Action>) -> Seq<Action>
    decreases actions.len(),
{
    if actions.len() == 0 {
        Seq::empty()
    } else {
        (if answers(actions[0]) {
            Seq::empty()
        } else {
            seq![actions[0]]
        }) + from_plan(actions.skip(1))
    }
}

proof fn lemma_pass_begins_by_plan(f: Features)
    ensures
        plan_from(f, 0).len() > 0,
        !answers(plan_from(f, 0)[0]),
{
    lemma_idle_plan(f);
    lemma_plan_is_ranked(f, 0);
    assert(rank(plan_from(f, 0)[0]) >= 0);
}

proof fn lemma_rest_follows_the_plan(s: IdleState, f: Features, replies: Seq<Reply>)
    requires
        forall|i: int| 0 <= i < s.left.len() ==> !answers(#[trigger] s.left[i]),
        from_plan(s.actions(f, replies)).len() <= s.left.len(),
    ensures
        from_plan(s.actions(f, replies)) == s.left.take(
            from_plan(s.actions(f, replies)).len() as int,
        ),
    decreases replies.len(),
{
    let all = s.actions(f, replies);
    if replies.len() > 0 {
        let a = s.action(f, replies[0]);
        let t = s.after(f, replies[0]);
        let rest = t.actions(f, replies.skip(1));
        assert(all == seq![a] + rest);
        assert(all.skip(1) =~= rest);
        if follow_up(s.last, replies[0]) is Some {
            assert(answers(a));
            assert(from_plan(all) =~= from_plan(rest));
            lemma_rest_follows_the_plan(t, f, replies.skip(1));
        } else {
            if s.left.len() == 0 {
                lemma_idle_plan(f);
                lemma_pass_begins_by_plan(f);
                assert(!answers(a));
                assert(from_plan(all).len() >= 1);
                assert(false);
            }
            assert(a == s.left[0]);
            assert(!answers(a));
            assert(t.left == s.left.skip(1));
            assert forall|i: int| 0 <= i < t.left.len() implies !answers(#[trigger] t.left[i]) by {
                assert(t.left[i] == s.left[i + 1]);
            }
            assert(from_plan(all) == seq![a] + from_plan(rest));
            lemma_rest_follows_the_plan(t, f, replies.skip(1));
            assert(from_plan(all) =~= s.left.take(from_plan(all).len() as int));
        }
    } else {
        assert(s.left.take(0) =~= Seq::<Action>::empty());
    }
}

proof fn lemma_plan_never_answers(f: Features, plan: Seq<Action>)
    requires
        plan == plan_from(f, 0),
    ensures
        forall|i: int| 0 <= i < plan.len() ==> !answers(#[trigger] plan[i]),
{
    lemma_plan_is_ranked(f, 0);
    assert forall|i: int| 0 <= i < plan.len() implies !answers(#[trigger] plan[i]) by {
        assert(rank(plan_from(f, 0)[i]) >= 0);
    }
}

/// Whatever the actions bring, the planned ones among them follow the plan of the
/// pass in its order, each once, until the pass is over: replies only put their own
/// actions in between.
pub proof fn law_pass_follows_the_plan(s: IdleState, f: Features, replies: Seq<Reply>)
    requires
        s.left == idle_plan(f),
        from_plan(s.actions(f, replies)).len() <= s.left.len(),
    ensures
        from_plan(s.actions(f, replies)) == idle_plan(f).take(
            from_plan(s.actions(f, replies)).len() as int,
        ),
{
    lemma_idle_plan(f);
    lemma_plan_never_answers(f, s.left);
    lemma_rest_follows_the_plan(s, f, replies);
}

/// Every `a` of the plan comes before every `b` of it.
pub open spec fn goes_before<A>(plan: Seq<A>, a: A, b: A) -> bool {
    forall|i: int, j: int|
        0 <= i < plan.len() && 0 <= j < plan.len() && #[trigger] plan[i] == a && #[trigger] plan[j]
            == b ==> i < j
}

proof fn lemma_lower_rank_first(f: Features, plan: Seq<Action>, a: Action, b: Action)
    requires
        plan == plan_from(f, 0),
        rank(a) < rank(b),
    ensures
        goes_before(plan, a, b),
{
    lemma_plan_is_ranked(f, 0);
    assert forall|i: int, j: int|
        0 <= i < plan.len() && 0 <= j < plan.len() && #[trigger] plan[i] == a && #[trigger] plan[j]
            == b implies i < j by {
        assert(i > j ==> rank(plan_from(f, 0)[j]) < rank(plan_from(f, 0)[i]));
    }
}

proof fn lemma_usb_is_last(f: Features, k: int)
    requires
        0 <= k < PLACES,
    ensures
        plan_from(f, k).len() > 0,
        plan_from(f, k).last() == (Action::ServeUsb {
            fetch: true,
            ccid: f.ccid,
            wallet: f.wallet,
        }),
    decreases PLACES - k,
{
    if k + 1 < PLACES {
        lemma_usb_is_last(f, k + 1);
    } else {
        reveal_with_fuel(plan_from, 2);
    }
}

proof fn lemma_no_action_twice(f: Features, plan: Seq<Action>)
    requires
        plan == plan_from(f, 0),
    ensures
        plan.no_duplicates(),
{
    lemma_plan_is_ranked(f, 0);
    assert forall|i: int, j: int| 0 <= i < j < plan.len() implies plan[i] != plan[j] by {
        assert(rank(plan_from(f, 0)[i]) < rank(plan_from(f, 0)[j]));
    }
}

proof fn lemma_members(f: Features, k: int)
    requires
        0 <= k <= PLACES,
    ensures
        forall|j: int|
            k <= j < PLACES && (#[trigger] place(f, j)) is Some ==> plan_from(f, k).contains(
                place(f, j)->0,
            ),
        forall|i: int|
            0 <= i < plan_from(f, k).len() ==> {
                let a = #[trigger] plan_from(f, k)[i];
                &&& k <= rank(a) < PLACES
                &&& place(f, rank(a)) == Some(a)
            },
    decreases PLACES - k,
{
    if k < PLACES {
        lemma_members(f, k + 1);
        let rest = plan_from(f, k + 1);
        let all = plan_from(f, k);
        if place(f, k) is Some {
            let here = place(f, k)->0;
            assert(all =~= seq![here] + rest);
            assert(rank(here) == k);
            assert(all[0] == here);
            assert forall|j: int| k <= j < PLACES && (#[trigger] place(f, j)) is Some implies all.contains(
                place(f, j)->0,
            ) by {
                if j > k {
                    let i = choose|i: int| 0 <= i < rest.len() && rest[i] == place(f, j)->0;
                    assert(all[i + 1] == place(f, j)->0);
                }
            }
            assert forall|i: int| 0 <= i < all.len() implies {
                let a = #[trigger] all[i];
                &&& k <= rank(a) < PLACES
                &&& place(f, rank(a)) == Some(a)
            } by {
                if i > 0 {
                    assert(all[i] == rest[i - 1]);
                }
            }
        } else {
            assert(all =~= rest);
        }
    }
}

proof fn lemma_member(f: Features, plan: Seq<Action>, a: Action)
    requires
        plan == plan_from(f, 0),
    ensures
        plan.contains(a) <==> rank(a) >= 0 && place(f, rank(a)) == Some(a),
{
    lemma_members(f, 0);
    if plan.contains(a) {
        let i = choose|i: int| 0 <= i < plan.len() && plan[i] == a;
        assert(plan_from(f, 0)[i] == a);
    }
    if rank(a) >= 0 && place(f, rank(a)) == Some(a) {
        assert(place(f, rank(a)) is Some);
    }
}

proof fn lemma_every_pass(f: Features, plan: Seq<Action>)
    requires
        plan == plan_from(f, 0),
    ensures
        plan.contains(Action::PollButtons),
        plan.contains(Action::RefreshUpLed),
        plan.contains(Action::PollNfc),
        plan.contains(Action::DispatchApdu),
        plan.contains(Action::DispatchCtaphid),
        forall|fetch: bool, ccid: bool, wallet: bool|
            #[trigger] plan.contains(Action::ServeUsb { fetch, ccid, wallet }) <==> fetch
                && ccid == f.ccid && wallet == f.wallet,
{
    lemma_member(f, plan, Action::PollButtons);
    lemma_member(f, plan, Action::RefreshUpLed);
    lemma_member(f, plan, Action::PollNfc);
    lemma_member(f, plan, Action::DispatchApdu);
    lemma_member(f, plan, Action::DispatchCtaphid);
    assert forall|fetch: bool, ccid: bool, wallet: bool| #[trigger]
        plan.contains(Action::ServeUsb { fetch, ccid, wallet }) <==> fetch && ccid == f.ccid
            && wallet == f.wallet by {
        lemma_member(f, plan, Action::ServeUsb { fetch, ccid, wallet });
    }
}

/// What every image does on every pass: poll the buttons, refresh the light, move what
/// NFC has, let the smart-card and the CTAPHID applications work, and serve USB with
/// the transports that the image has.
pub proof fn law_every_pass_serves_the_transports(f: Features)
    ensures
        idle_plan(f).contains(Action::PollButtons),
        idle_plan(f).contains(Action::RefreshUpLed),
        idle_plan(f).contains(Action::PollNfc),
        idle_plan(f).contains(Action::DispatchApdu),
        idle_plan(f).contains(Action::DispatchCtaphid),
        forall|fetch: bool, ccid: bool, wallet: bool|
            #[trigger] idle_plan(f).contains(Action::ServeUsb { fetch, ccid, wallet }) <==> fetch
                && ccid == f.ccid && wallet == f.wallet,
{
    lemma_idle_plan(f);
    lemma_every_pass(f, idle_plan(f));
}

proof fn lemma_optional_actions(f: Features, plan: Seq<Action>)
    requires
        plan == plan_from(f, 0),
    ensures
        plan.contains(Action::CheckCcid) <==> f.ccid,
        plan.contains(Action::ConfirmPresence) <==> f.wallet,
        plan.contains(Action::PollWallet) <==> f.wallet,
        plan.contains(Action::NoteUsbEvents) <==> f.led_diag,
        plan.contains(Action::ReportTick) <==> f.led_diag,
        plan.contains(Action::ShowNfcPins) <==> f.nfc_fix && !f.nfc_diag,
        plan.contains(Action::MirrorPins) <==> f.pin_diag && f.board == Board::Supermini,
        plan.contains(Action::ShowNfcField) <==> f.nfc_diag && f.board == Board::Supermini,
        forall|i: Interrupt| !#[trigger] plan.contains(Action::Pend(i)),
        forall|ms: u32| !#[trigger] plan.contains(Action::SendKeepalive(ms)),
{
    lemma_member(f, plan, Action::CheckCcid);
    lemma_member(f, plan, Action::ConfirmPresence);
    lemma_member(f, plan, Action::PollWallet);
    lemma_member(f, plan, Action::NoteUsbEvents);
    lemma_member(f, plan, Action::ReportTick);
    lemma_member(f, plan, Action::ShowNfcPins);
    lemma_member(f, plan, Action::MirrorPins);
    lemma_member(f, plan, Action::ShowNfcField);
    assert forall|i: Interrupt| !#[trigger] plan.contains(Action::Pend(i)) by {
        lemma_member(f, plan, Action::Pend(i));
    }
    assert forall|ms: u32| !#[trigger] plan.contains(Action::SendKeepalive(ms)) by {
        lemma_member(f, plan, Action::SendKeepalive(ms));
    }
}

/// Each optional action is in a pass exactly when its own feature is built in, whatever
/// else is: the fetch of the smart-card response with the smart-card transport, the
/// wallet's two actions with the wallet, the USB trace and its report with the LED
/// diagnostics, the steady sign of the NFC pins with their repair unless the field is
/// indicated, and the mirror of the buttons and the field with their diagnostics on the
/// SuperMini. Nothing else is ever planned.
pub proof fn law_optional_actions_follow_their_feature(f: Features)
    ensures
        idle_plan(f).contains(Action::CheckCcid) <==> f.ccid,
        idle_plan(f).contains(Action::ConfirmPresence) <==> f.wallet,
        idle_plan(f).contains(Action::PollWallet) <==> f.wallet,
        idle_plan(f).contains(Action::NoteUsbEvents) <==> f.led_diag,
        idle_plan(f).contains(Action::ReportTick) <==> f.led_diag,
        idle_plan(f).contains(Action::ShowNfcPins) <==> f.nfc_fix && !f.nfc_diag,
        idle_plan(f).contains(Action::MirrorPins) <==> f.pin_diag && f.board == Board::Supermini,
        idle_plan(f).contains(Action::ShowNfcField) <==> f.nfc_diag && f.board == Board::Supermini,
        forall|i: Interrupt| !#[trigger] idle_plan(f).contains(Action::Pend(i)),
        forall|ms: u32| !#[trigger] idle_plan(f).contains(Action::SendKeepalive(ms)),
{
    lemma_idle_plan(f);
    lemma_optional_actions(f, idle_plan(f));
}

/// The actions that every pass has come in one order: buttons, light, NFC, smart cards,
/// CTAPHID, and USB last. The events of the USB peripheral are noted before USB is served,
/// the LED diagnostics come after the light that they override, and no action comes
/// twice.
pub proof fn law_order_within_a_pass(f: Features)
    ensures
        goes_before(
            idle_plan(f),
            Action::NoteUsbEvents,
            Action::ServeUsb { fetch: true, ccid: f.ccid, wallet: f.wallet },
        ),
        goes_before(idle_plan(f), Action::PollButtons, Action::RefreshUpLed),
        goes_before(idle_plan(f), Action::RefreshUpLed, Action::ShowNfcPins),
        goes_before(idle_plan(f), Action::RefreshUpLed, Action::MirrorPins),
        goes_before(idle_plan(f), Action::RefreshUpLed, Action::ShowNfcField),
        goes_before(idle_plan(f), Action::RefreshUpLed, Action::PollNfc),
        goes_before(idle_plan(f), Action::PollNfc, Action::DispatchApdu),
        goes_before(idle_plan(f), Action::DispatchApdu, Action::DispatchCtaphid),
        idle_plan(f).len() > 0,
        idle_plan(f).last() == (Action::ServeUsb { fetch: true, ccid: f.ccid, wallet: f.wallet }),
        idle_plan(f).no_duplicates(),
{
    let plan = idle_plan(f);
    let serve = Action::ServeUsb { fetch: true, ccid: f.ccid, wallet: f.wallet };
    lemma_idle_plan(f);
    lemma_lower_rank_first(f, plan, Action::NoteUsbEvents, serve);
    lemma_lower_rank_first(f, plan, Action::RefreshUpLed, Action::ShowNfcPins);
    lemma_lower_rank_first(f, plan, Action::RefreshUpLed, Action::MirrorPins);
    lemma_lower_rank_first(f, plan, Action::RefreshUpLed, Action::ShowNfcField);
    lemma_lower_rank_first(f, plan, Action::PollButtons, Action::RefreshUpLed);
    lemma_lower_rank_first(f, plan, Action::RefreshUpLed, Action::PollNfc);
    lemma_lower_rank_first(f, plan, Action::PollNfc, Action::DispatchApdu);
    lemma_lower_rank_first(f, plan, Action::DispatchApdu, Action::DispatchCtaphid);
    lemma_no_action_twice(f, plan);
    lemma_usb_is_last(f, 0);
}

/// The optional actions have their place among those of every pass. The events of the
/// USB peripheral are noted, and reported, before anything else can clear them. The LED
/// diagnostics of the NFC pins, of the button pins and of the field come after the light
/// that they override, and before NFC is served.
pub proof fn law_place_of_the_diagnostics(f: Features)
    ensures
        goes_before(idle_plan(f), Action::NoteUsbEvents, Action::ReportTick),
        goes_before(idle_plan(f), Action::NoteUsbEvents, Action::PollButtons),
        goes_before(idle_plan(f), Action::ReportTick, Action::PollButtons),
        goes_before(idle_plan(f), Action::RefreshUpLed, Action::ShowNfcPins),
        goes_before(idle_plan(f), Action::RefreshUpLed, Action::MirrorPins),
        goes_before(idle_plan(f), Action::RefreshUpLed, Action::ShowNfcField),
        goes_before(idle_plan(f), Action::ShowNfcPins, Action::MirrorPins),
        goes_before(idle_plan(f), Action::MirrorPins, Action::ShowNfcField),
        goes_before(idle_plan(f), Action::ShowNfcPins, Action::PollNfc),
        goes_before(idle_plan(f), Action::MirrorPins, Action::PollNfc),
        goes_before(idle_plan(f), Action::ShowNfcField, Action::PollNfc),
{
    let plan = idle_plan(f);
    lemma_idle_plan(f);
    lemma_lower_rank_first(f, plan, Action::NoteUsbEvents, Action::ReportTick);
    lemma_lower_rank_first(f, plan, Action::NoteUsbEvents, Action::PollButtons);
    lemma_lower_rank_first(f, plan, Action::ReportTick, Action::PollButtons);
    lemma_lower_rank_first(f, plan, Action::RefreshUpLed, Action::ShowNfcPins);
    lemma_lower_rank_first(f, plan, Action::RefreshUpLed, Action::MirrorPins);
    lemma_lower_rank_first(f, plan, Action::RefreshUpLed, Action::ShowNfcField);
    lemma_lower_rank_first(f, plan, Action::ShowNfcPins, Action::MirrorPins);
    lemma_lower_rank_first(f, plan, Action::MirrorPins, Action::ShowNfcField);
    lemma_lower_rank_first(f, plan, Action::ShowNfcPins, Action::PollNfc);
    lemma_lower_rank_first(f, plan, Action::MirrorPins, Action::PollNfc);
    lemma_lower_rank_first(f, plan, Action::ShowNfcField, Action::PollNfc);
}

/// The response of the smart-card applications is fetched after they have worked, and
/// the wallet is answered and let work after CTAPHID, all before USB is served.
pub proof fn law_place_of_the_transports(f: Features)
    ensures
        ({
            let serve = Action::ServeUsb { fetch: true, ccid: f.ccid, wallet: f.wallet };
            &&& goes_before(idle_plan(f), Action::DispatchApdu, Action::CheckCcid)
            &&& goes_before(idle_plan(f), Action::CheckCcid, Action::DispatchCtaphid)
            &&& goes_before(idle_plan(f), Action::DispatchCtaphid, Action::ConfirmPresence)
            &&& goes_before(idle_plan(f), Action::ConfirmPresence, Action::PollWallet)
            &&& goes_before(idle_plan(f), Action::DispatchCtaphid, Action::PollWallet)
            &&& goes_before(idle_plan(f), Action::CheckCcid, serve)
            &&& goes_before(idle_plan(f), Action::ConfirmPresence, serve)
            &&& goes_before(idle_plan(f), Action::PollWallet, serve)
            &&& goes_before(idle_plan(f), Action::DispatchCtaphid, serve)
            &&& goes_before(idle_plan(f), Action::NoteUsbEvents, serve)
        }),
{
    let plan = idle_plan(f);
    let serve = Action::ServeUsb { fetch: true, ccid: f.ccid, wallet: f.wallet };
    lemma_idle_plan(f);
    lemma_lower_rank_first(f, plan, Action::DispatchApdu, Action::CheckCcid);
    lemma_lower_rank_first(f, plan, Action::CheckCcid, Action::DispatchCtaphid);
    lemma_lower_rank_first(f, plan, Action::DispatchCtaphid, Action::ConfirmPresence);
    lemma_lower_rank_first(f, plan, Action::ConfirmPresence, Action::PollWallet);
    lemma_lower_rank_first(f, plan, Action::DispatchCtaphid, Action::PollWallet);
    lemma_lower_rank_first(f, plan, Action::CheckCcid, serve);
    lemma_lower_rank_first(f, plan, Action::ConfirmPresence, serve);
    lemma_lower_rank_first(f, plan, Action::PollWallet, serve);
    lemma_lower_rank_first(f, plan, Action::DispatchCtaphid, serve);
    lemma_lower_rank_first(f, plan, Action::NoteUsbEvents, serve);
}

/// A reply calls for an action of its own in these cases and in no other: a pending
/// response of CTAPHID or of the wallet wakes USB, and a command that USB received arms
/// the keep-alive with the deadline that came with it.
pub proof fn law_replies_that_call_for_an_action(last: Option<Action>, reply: Reply, ms: u32)
    ensures
        follow_up(last, reply) == Some(Action::Pend(Interrupt::Usbd)) <==> reply == Reply::Pending(
            true,
        ) && (last == Some(Action::DispatchCtaphid) || last == Some(Action::PollWallet)),
        follow_up(last, reply) == Some(Action::SendKeepalive(ms)) <==> reply == Reply::Usb(
            UsbStatus::ReceivedData(ms),
        ) && last is Some && last->0 is ServeUsb,
        follow_up(last, reply) is Some ==> follow_up(last, reply)->0 == Action::Pend(
            Interrupt::Usbd,
        ) || follow_up(last, reply)->0 is SendKeepalive,
{
}

/// The loop takes one action at a time and remembers it. What a reply calls for comes at
/// once and costs the pass nothing; otherwise the pass goes on where it stands, and a
/// pass that is over is followed by a whole new one.
pub proof fn law_loop_goes_on(s: IdleState, f: Features, reply: Reply)
    ensures
        s.after(f, reply).last == Some(s.action(f, reply)),
        follow_up(s.last, reply) is Some ==> Some(s.action(f, reply)) == follow_up(s.last, reply)
            && s.after(f, reply).left == s.left,
        follow_up(s.last, reply) is None && s.left.len() > 0 ==> s.left == seq![s.action(f, reply)]
            + s.after(f, reply).left,
        follow_up(s.last, reply) is None && s.left.len() == 0 ==> idle_plan(f) == seq![
            s.action(f, reply),
        ] + s.after(f, reply).left,
{
    lemma_idle_plan(f);
    lemma_pass_begins_by_plan(f);
    let plan = idle_plan(f);
    if s.left.len() > 0 {
        assert(s.left =~= seq![s.left[0]] + s.left.skip(1));
    }
    lemma_first_and_rest(plan);
}

proof fn lemma_first_and_rest(plan: Seq<Action>)
    requires
        plan.len() > 0,
    ensures
        plan == seq![plan[0]] + plan.skip(1),
{
    assert(plan =~= seq![plan[0]] + plan.skip(1));
}

/// The actions of the USB interrupt.
pub open spec fn usb_irq_plan(f: Features) -> Seq<Action> {
    given(f.led_diag, Action::NoteUsbEvents) + seq![
        Action::ServeUsb { fetch: false, ccid: f.ccid, wallet: f.wallet },
    ]
}

/// The USB interrupt being served.
pub struct UsbIrq {
    features: Features,
    note: bool,
    serve: bool,
    last: Option<Action>,
}

impl View for UsbIrq {
    type V = IdleState;

    closed spec fn view(&self) -> IdleState {
        IdleState {
            left: given(self.note, Action::NoteUsbEvents) + given(
                self.serve,
                Action::ServeUsb {
                    fetch: false,
                    ccid: self.features.ccid,
                    wallet: self.features.wallet,
                },
            ),
            last: self.last,
        }
    }
}

/// Begins to serve the USB interrupt.
pub fn on_usb(features: Features) -> (u: UsbIrq)
    ensures
        u@ == (IdleState { left: usb_irq_plan(features), last: None }),
{
    let u = UsbIrq { features, note: features.led_diag, serve: true, last: None };
    assert(u@.left =~= usb_irq_plan(features));
    u
}

impl UsbIrq {
    /// The next action, given what the last one brought, or nothing when the
    /// interrupt is served.
    pub fn next(&mut self, reply: Reply) -> (a: Option<Action>)
        ensures
            follow_up(old(self)@.last, reply) is Some ==> {
                &&& a == follow_up(old(self)@.last, reply)
                &&& final(self)@ == (IdleState { left: old(self)@.left, last: a })
            },
            follow_up(old(self)@.last, reply) is None && old(self)@.left.len() > 0 ==> {
                &&& a == Some(old(self)@.left[0])
                &&& final(self)@ == (IdleState { left: old(self)@.left.skip(1), last: a })
            },
            follow_up(old(self)@.last, reply) is None && old(self)@.left.len() == 0 ==> {
                &&& a is None
                &&& final(self)@ == old(self)@
            },
    {
        let ghost before = self@;
        match follow(self.last, reply) {
            Some(a) => {
                self.last = Some(a);
                return Some(a);
            },
            None => {},
        }
        if self.note {
            self.note = false;
            self.last = Some(Action::NoteUsbEvents);
            assert(before.left.skip(1) =~= self@.left);
            return self.last;
        }
        if self.serve {
            self.serve = false;
            self.last = Some(
                Action::ServeUsb {
                    fetch: false,
                    ccid: self.features.ccid,
                    wallet: self.features.wallet,
                },
            );
            assert(before.left.skip(1) =~= self@.left);
            return self.last;
        }
        None
    }
}

/// The transports on the USB device.
#[derive(Copy, Clone, Debug, PartialEq, Eq, Structural)]
pub enum Transport {
    /// FIDO.
    Ctaphid,
    /// Smart cards.
    Ccid,
    /// The wallet.
    WalletHid,
}

/// One step of serving USB.
#[derive(Copy, Clone, Debug, PartialEq, Eq, Structural)]
pub enum UsbStep {
    /// Fetch the response of a transport's application.
    Fetch(Transport),
    /// Let a transport take part in the poll, behind those that already do.
    Attach(Transport),
    /// Poll the device with the transports that take part.
    Poll,
    /// Ask CTAPHID whether it has begun to work on a command. Brings the status.
    AskStatus,
}

/// The step, if it takes part.
pub open spec fn step_if(takes_part: bool, step: UsbStep) -> Seq<UsbStep> {
    if takes_part {
        seq![step]
    } else {
        Seq::empty()
    }
}

/// The steps of serving USB. Responses are fetched before the device is polled, so that
/// they go out with that poll; the transports take part in the order CTAPHID, smart
/// cards, wallet; and the status is asked for last.
pub open spec fn serve_plan(fetch: bool, ccid: bool, wallet: bool) -> Seq<UsbStep> {
    step_if(fetch, UsbStep::Fetch(Transport::Ctaphid)) + step_if(
        fetch && wallet,
        UsbStep::Fetch(Transport::WalletHid),
    ) + seq![UsbStep::Attach(Transport::Ctaphid)] + step_if(
        ccid,
        UsbStep::Attach(Transport::Ccid),
    ) + step_if(wallet, UsbStep::Attach(Transport::WalletHid)) + seq![
        UsbStep::Poll,
        UsbStep::AskStatus,
    ]
}

/// The `step`-th step of serving USB, or nothing when it is done.
pub fn serve_step(fetch: bool, ccid: bool, wallet: bool, step: usize) -> (s: Option<UsbStep>)
    ensures
        step < serve_plan(fetch, ccid, wallet).len() ==> s == Some(
            serve_plan(fetch, ccid, wallet)[step as int],
        ),
        step >= serve_plan(fetch, ccid, wallet).len() ==> s is None,
{
    let mut at: usize = step;
    if fetch {
        if at == 0 {
            return Some(UsbStep::Fetch(Transport::Ctaphid));
        }
        at = at - 1;
        if wallet {
            if at == 0 {
                return Some(UsbStep::Fetch(Transport::WalletHid));
            }
            at = at - 1;
        }
    }
    if at == 0 {
        return Some(UsbStep::Attach(Transport::Ctaphid));
    }
    at = at - 1;
    if ccid {
        if at == 0 {
            return Some(UsbStep::Attach(Transport::Ccid));
        }
        at = at - 1;
    }
    if wallet {
        if at == 0 {
            return Some(UsbStep::Attach(Transport::WalletHid));
        }
        at = at - 1;
    }
    if at == 0 {
        Some(UsbStep::Poll)
    } else if at == 1 {
        Some(UsbStep::AskStatus)
    } else {
        None
    }
}

proof fn lemma_serve_plans()
    ensures
        serve_plan(false, false, false) == seq![
            UsbStep::Attach(Transport::Ctaphid),
            UsbStep::Poll,
            UsbStep::AskStatus,
        ],
        serve_plan(false, true, false) == seq![
            UsbStep::Attach(Transport::Ctaphid),
            UsbStep::Attach(Transport::Ccid),
            UsbStep::Poll,
            UsbStep::AskStatus,
        ],
        serve_plan(false, false, true) == seq![
            UsbStep::Attach(Transport::Ctaphid),
            UsbStep::Attach(Transport::WalletHid),
            UsbStep::Poll,
            UsbStep::AskStatus,
        ],
        serve_plan(false, true, true) == seq![
            UsbStep::Attach(Transport::Ctaphid),
            UsbStep::Attach(Transport::Ccid),
            UsbStep::Attach(Transport::WalletHid),
            UsbStep::Poll,
            UsbStep::AskStatus,
        ],
{
}

/// The transports that a list of steps attaches before it polls, in order.
pub open spec fn attached(steps: Seq<UsbStep>) -> Seq<Transport>
    decreases steps.len(),
{
    if steps.len() == 0 || steps[0] == UsbStep::Poll {
        Seq::empty()
    } else {
        match steps[0] {
            UsbStep::Attach(t) => seq![t] + attached(steps.skip(1)),
            _ => attached(steps.skip(1)),
        }
    }
}

/// The transports whose responses a list of steps fetches before it polls, in order.
pub open spec fn fetched(steps: Seq<UsbStep>) -> Seq<Transport>
    decreases steps.len(),
{
    if steps.len() == 0 || steps[0] == UsbStep::Poll {
        Seq::empty()
    } else {
        match steps[0] {
            UsbStep::Fetch(t) => seq![t] + fetched(steps.skip(1)),
            _ => fetched(steps.skip(1)),
        }
    }
}

proof fn lemma_attached_by_interrupt(ccid: bool, wallet: bool)
    ensures
        attached(serve_plan(false, ccid, wallet)).len() == 1 + (if ccid {
            1int
        } else {
            0
        }) + (if wallet {
            1int
        } else {
            0
        }),
        attached(serve_plan(false, ccid, wallet))[0] == Transport::Ctaphid,
        ccid ==> attached(serve_plan(false, ccid, wallet))[1] == Transport::Ccid,
        wallet ==> attached(serve_plan(false, ccid, wallet)).last() == Transport::WalletHid,
        fetched(serve_plan(false, ccid, wallet)) == Seq::<Transport>::empty(),
{
    lemma_serve_plans();
    reveal_with_fuel(attached, 6);
    reveal_with_fuel(fetched, 6);
    let steps = serve_plan(false, ccid, wallet);
    let s1 = steps.skip(1);
    let s2 = s1.skip(1);
    let s3 = s2.skip(1);
    assert(s1[0] == steps[1]);
    assert(s2[0] == steps[2]);
    if ccid && wallet {
        assert(s3[0] == steps[3]);
    }
}

proof fn lemma_fetching_comes_first(ccid: bool, wallet: bool)
    ensures
        attached(serve_plan(true, ccid, wallet)) == attached(serve_plan(false, ccid, wallet)),
        fetched(serve_plan(true, ccid, wallet)) == (if wallet {
            seq![Transport::Ctaphid, Transport::WalletHid]
        } else {
            seq![Transport::Ctaphid]
        }),
{
    let all = serve_plan(true, ccid, wallet);
    let rest = serve_plan(false, ccid, wallet);
    lemma_attached_by_interrupt(ccid, wallet);
    if wallet {
        assert(all.skip(1).skip(1) =~= rest);
        assert(all.skip(1)[0] == UsbStep::Fetch(Transport::WalletHid));
        assert(attached(all.skip(1)) == attached(rest));
        assert(fetched(all.skip(1)) == seq![Transport::WalletHid] + fetched(rest));
        assert(fetched(all) =~= seq![Transport::Ctaphid, Transport::WalletHid]);
    } else {
        assert(all.skip(1) =~= rest);
        assert(fetched(all) =~= seq![Transport::Ctaphid]);
    }
}

/// Whether or not responses are fetched first, the transports that take part in the poll
/// are CTAPHID, then smart cards exactly if the image has them, then the wallet exactly
/// if the image has it: the USB interrupt polls the same transports as the idle loop.
pub proof fn law_transports_take_part_in_every_poll(fetch: bool, ccid: bool, wallet: bool)
    ensures
        ({
            let polled = attached(serve_plan(fetch, ccid, wallet));
            &&& polled.len() == 1 + (if ccid {
                1int
            } else {
                0
            }) + (if wallet {
                1int
            } else {
                0
            })
            &&& polled[0] == Transport::Ctaphid
            &&& ccid ==> polled[1] == Transport::Ccid
            &&& wallet ==> polled.last() == Transport::WalletHid
        }),
        attached(serve_plan(fetch, ccid, wallet)) == attached(serve_plan(!fetch, ccid, wallet)),
{
    lemma_attached_by_interrupt(ccid, wallet);
    lemma_fetching_comes_first(ccid, wallet);
}

/// Responses are fetched only if asked for, from CTAPHID always and from the wallet
/// exactly if the image has it, and all of them before any transport is attached. The
/// device is polled once, and the status is asked for right after that, last of all.
pub proof fn law_usb_is_served_in_order(fetch: bool, ccid: bool, wallet: bool)
    ensures
        ({
            let steps = serve_plan(fetch, ccid, wallet);
            &&& !fetch ==> fetched(steps) == Seq::<Transport>::empty()
            &&& fetch && !wallet ==> fetched(steps) == seq![Transport::Ctaphid]
            &&& fetch && wallet ==> fetched(steps) == seq![
                Transport::Ctaphid,
                Transport::WalletHid,
            ]
            &&& steps.len() == fetched(steps).len() + attached(steps).len() + 2
            &&& steps[steps.len() - 2] == UsbStep::Poll
            &&& steps.last() == UsbStep::AskStatus
            &&& forall|i: int|
                0 <= i < fetched(steps).len() ==> (#[trigger] steps[i]) is Fetch
            &&& forall|i: int|
                fetched(steps).len() <= i < steps.len() - 2 ==> (#[trigger] steps[i]) is Attach
        }),
{
    lemma_serve_plans();
    lemma_attached_by_interrupt(ccid, wallet);
    lemma_fetching_comes_first(ccid, wallet);
}

/// The USB interrupt notes the events first, if they are traced at all, and serves USB
/// last, without fetching, with the transports that the image has. It does nothing else.
pub proof fn law_usb_interrupt(f: Features)
    ensures
        usb_irq_plan(f).last() == (Action::ServeUsb {
            fetch: false,
            ccid: f.ccid,
            wallet: f.wallet,
        }),
        usb_irq_plan(f).len() == 2 <==> f.led_diag,
        usb_irq_plan(f).len() == 1 <==> !f.led_diag,
        f.led_diag ==> usb_irq_plan(f)[0] == Action::NoteUsbEvents,
{
}

/// The actions of the NFC drain: take a request in, let the applications answer
/// it, give the response out.
pub open spec fn nfc_drain_plan() -> Seq<Action> {
    seq![Action::PollNfc, Action::DispatchApdu, Action::PollNfc]
}

/// The `step`-th action of the NFC drain, or nothing when it is done.
pub fn nfc_drain(step: usize) -> (a: Option<Action>)
    ensures
        step < nfc_drain_plan().len() ==> a == Some(nfc_drain_plan()[step as int]),
        step >= nfc_drain_plan().len() ==> a is None,
{
    if step == 0 || step == 2 {
        Some(Action::PollNfc)
    } else if step == 1 {
        Some(Action::DispatchApdu)
    } else {
        None
    }
}

/// What the keep-alive pump does.
#[derive(Copy, Clone, Debug, PartialEq, Eq, Structural)]
pub enum KeepaliveOp {
    /// Wait for a deadline. Brings it.
    Receive,
    /// Sleep so many milliseconds.
    Delay(u32),
    /// Transmit a keep-alive. Brings the CTAPHID status.
    Transmit,
    /// Throw away a deadline that came in meanwhile; the one named replaces it.
    Discard(u32),
    /// Arm the pump again with a deadline.
    Rearm(u32),
}

/// What an operation of the keep-alive pump brought.
#[derive(Copy, Clone, Debug, PartialEq, Eq, Structural)]
pub enum KeepaliveReply {
    /// Nothing.
    Nothing,
    /// A deadline.
    Deadline(u32),
    /// The CTAPHID status.
    Status(UsbStatus),
}

/// The pump that keeps the host waiting while a command is worked on.
pub struct KeepalivePump {
    op: KeepaliveOp,
}

impl View for KeepalivePump {
    type V = KeepaliveOp;

    /// The operation to carry out.
    closed spec fn view(&self) -> KeepaliveOp {
        self.op
    }
}

/// The operation that follows `op` when it brought `reply`.
pub open spec fn keepalive_after(op: KeepaliveOp, reply: KeepaliveReply) -> KeepaliveOp {
    match op {
        KeepaliveOp::Receive => match reply {
            KeepaliveReply::Deadline(ms) => KeepaliveOp::Delay(ms),
            _ => KeepaliveOp::Receive,
        },
        KeepaliveOp::Delay(_) => KeepaliveOp::Transmit,
        KeepaliveOp::Transmit => match reply {
            KeepaliveReply::Status(UsbStatus::ReceivedData(ms)) => KeepaliveOp::Discard(ms),
            _ => KeepaliveOp::Receive,
        },
        KeepaliveOp::Discard(ms) => KeepaliveOp::Rearm(ms),
        KeepaliveOp::Rearm(_) => KeepaliveOp::Receive,
    }
}

/// Starts the pump.
pub fn ctaphid_keepalive() -> (p: KeepalivePump)
    ensures
        p@ == KeepaliveOp::Receive,
{
    KeepalivePump { op: KeepaliveOp::Receive }
}

impl KeepalivePump {
    /// The operation to carry out next.
    pub fn op(&self) -> (op: KeepaliveOp)
        ensures
            op == self@,
    {
        self.op
    }

    /// Takes what the operation brought.
    pub fn reply(&mut self, reply: KeepaliveReply)
        ensures
            final(self)@ == keepalive_after(old(self)@, reply),
    {
        self.op = match self.op {
            KeepaliveOp::Receive => match reply {
                KeepaliveReply::Deadline(ms) => KeepaliveOp::Delay(ms),
                _ => KeepaliveOp::Receive,
            },
            KeepaliveOp::Delay(_) => KeepaliveOp::Transmit,
            KeepaliveOp::Transmit => match reply {
                KeepaliveReply::Status(UsbStatus::ReceivedData(ms)) => KeepaliveOp::Discard(ms),
                _ => KeepaliveOp::Receive,
            },
            KeepaliveOp::Discard(ms) => KeepaliveOp::Rearm(ms),
            KeepaliveOp::Rearm(_) => KeepaliveOp::Receive,
        };
    }
}

/// A received deadline is slept out and then a keep-alive goes out; if the
/// transport asks for another, the pump is armed with that deadline, and either
/// way it waits for a deadline again.
pub proof fn law_keepalive_round(ms: u32, status: UsbStatus, r: KeepaliveReply)
    ensures
        ({
            let delay = keepalive_after(KeepaliveOp::Receive, KeepaliveReply::Deadline(ms));
            let transmit = keepalive_after(delay, r);
            let next = keepalive_after(transmit, KeepaliveReply::Status(status));
            &&& delay == KeepaliveOp::Delay(ms)
            &&& transmit == KeepaliveOp::Transmit
            &&& status == UsbStatus::Idle ==> next == KeepaliveOp::Receive
            &&& status matches UsbStatus::ReceivedData(due) ==> {
                &&& next == KeepaliveOp::Discard(due)
                &&& keepalive_after(next, r) == KeepaliveOp::Rearm(due)
                &&& keepalive_after(keepalive_after(next, r), r) == KeepaliveOp::Receive
            }
        }),
{
}

/// The pump sleeps only for a deadline that it received, transmits only after a sleep,
/// and arms itself only with the deadline that the transport gave with that transmission:
/// any other reply leaves it waiting for a deadline.
pub proof fn law_keepalive_has_a_reason(op: KeepaliveOp, reply: KeepaliveReply, ms: u32)
    ensures
        keepalive_after(op, reply) == KeepaliveOp::Delay(ms) <==> op == KeepaliveOp::Receive
            && reply == KeepaliveReply::Deadline(ms),
        keepalive_after(op, reply) == KeepaliveOp::Transmit <==> op is Delay,
        keepalive_after(op, reply) == KeepaliveOp::Discard(ms) <==> op == KeepaliveOp::Transmit
            && reply == KeepaliveReply::Status(UsbStatus::ReceivedData(ms)),
        keepalive_after(op, reply) == KeepaliveOp::Rearm(ms) <==> op == KeepaliveOp::Discard(ms),
{
}

/// How often the NDEF clock is advanced, and by how much.
pub const REFRESH_MS: u32 = 50;

/// The NDEF clock after one more refresh. It wraps.
pub open spec fn refreshed(clock: u32) -> u32 {
    ((clock + REFRESH_MS) % 0x1_0000_0000) as u32
}

/// The NDEF clock after `n` more refreshes.
pub open spec fn refreshed_times(clock: u32, n: nat) -> u32
    decreases n,
{
    if n == 0 {
        clock
    } else {
        refreshed(refreshed_times(clock, (n - 1) as nat))
    }
}

/// Advances the NDEF clock after a sleep of `REFRESH_MS`.
pub fn ndef_clock(clock: &mut u32)
    ensures
        *final(clock) == refreshed(*old(clock)),
{
    *clock = (*clock).wrapping_add(REFRESH_MS);
}

/// The NDEF clock counts the milliseconds slept, modulo its range.
pub proof fn law_ndef_clock_counts(clock: u32, n: nat)
    ensures
        refreshed_times(clock, n) == (clock + REFRESH_MS * n) % 0x1_0000_0000,
        crate::clock::elapsed(refreshed(clock), clock) == 50,
    decreases n,
{
    if n > 0 {
        let m = (n - 1) as nat;
        law_ndef_clock_counts(clock, m);
        assert(REFRESH_MS * n == REFRESH_MS * m + REFRESH_MS);
        assert(((clock + 50 * m) % 0x1_0000_0000 + 50) % 0x1_0000_0000 == (clock + 50 * m + 50)
            % 0x1_0000_0000);
    }
}

/// Which power events are to be cleared.
#[derive(Copy, Clone, Debug, PartialEq, Eq, Structural)]
pub struct PowerEvents {
    /// USB supply detected.
    pub usbdetected: bool,
    /// USB supply ready.
    pub usbpwrrdy: bool,
    /// USB supply removed.
    pub usbremoved: bool,
}

/// The power events to clear, from the words of their registers: those that
/// occurred.
pub fn on_power(usbdetected: u32, usbpwrrdy: u32, usbremoved: u32) -> (e: PowerEvents)
    ensures
        e.usbdetected == (usbdetected != 0),
        e.usbpwrrdy == (usbpwrrdy != 0),
        e.usbremoved == (usbremoved != 0),
{
    PowerEvents {
        usbdetected: usbdetected != 0,
        usbpwrrdy: usbpwrrdy != 0,
        usbremoved: usbremoved != 0,
    }
}

/// The way by which an application calls the crypto service.
pub struct Syscall;

impl Default for Syscall {
    fn default() -> Self {
        Syscall
    }
}

impl Syscall {
    /// The interrupt to raise.
    pub fn syscall(&mut self) -> (i: Interrupt)
        ensures
            i == Interrupt::Swi0Egu0,
    {
        Interrupt::Swi0Egu0
    }
}

/// The interrupt to raise once an NFC interrupt has been handled: it may have brought a
/// request, and the drain takes it even while the idle loop waits for the user.
pub fn nfct_irq() -> (i: Interrupt)
    ensures
        i == Interrupt::Swi1Egu1,
{
    Interrupt::Swi1Egu1
}

/// A request to the crypto service that takes longer than this is worth a warning.
pub const SLOW_SYSCALL_MS: u32 = 30;

/// Whether a request to the crypto service that took `ms` milliseconds is worth a
/// warning.
pub fn is_slow_syscall(ms: u32) -> (slow: bool)
    ensures
        slow == (ms > SLOW_SYSCALL_MS),
{
    ms > SLOW_SYSCALL_MS
}

} // verus!
