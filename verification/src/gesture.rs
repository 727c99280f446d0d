//! Button gestures: the detector that recognises them, the throttled reading of
//! the buttons, and the latch that holds a gesture until someone asks for it.
//!
//! A board offers three signals: left, right and explicit deny. A press of left
//! or right is judged when both are released, so that "one pressed" (approve)
//! can be told from "both held" (deny). Explicit deny takes effect at once and
//! once per press.
use vstd::prelude::*;
use crate::clock::elapsed_ms;

verus! {

/// A press shorter than this is a bounce, not a gesture.
pub const DEBOUNCE_MS: u32 = 30;

/// Least time between two readings of the buttons.
pub const CAP_THROTTLE_MS: u32 = 50;

/// What the user has said with the buttons.
#[derive(Copy, Clone, Debug, PartialEq, Eq, Structural)]
pub enum Gesture {
    /// Nothing yet.
    Nothing,
    /// Yes.
    Approve,
    /// No.
    Deny,
}

/// The three button signals at one moment.
#[derive(Copy, Clone, Debug, PartialEq, Eq, Structural)]
pub struct Signals {
    /// The left approve button is down.
    pub left: bool,
    /// The right approve button is down.
    pub right: bool,
    /// The deny button is down.
    pub deny: bool,
}

/// One call of the detector: the signals and the time at which they were seen.
#[derive(Copy, Clone, Debug, PartialEq, Eq, Structural)]
pub struct Sample {
    /// What was read.
    pub signals: Signals,
    /// When.
    pub now_ms: u32,
}

/// What a detector remembers between two samples.
#[derive(Copy, Clone, Debug, PartialEq, Eq, Structural)]
pub struct DetectorState {
    /// When the press in progress began.
    pub pending: Option<u32>,
    /// Both approve buttons were down at once during the press in progress.
    pub both_seen: bool,
    /// The deny button was down in the last sample.
    pub deny_held: bool,
}

impl Sample {
    /// An approve button is down.
    pub open spec fn pressed(self) -> bool {
        self.signals.left || self.signals.right
    }

    /// Both approve buttons are down.
    pub open spec fn both(self) -> bool {
        self.signals.left && self.signals.right
    }
}

impl DetectorState {
    /// No press is in progress.
    pub open spec fn at_rest(self) -> bool {
        self.pending is None && !self.both_seen
    }

    /// The deny button went down with sample `x`.
    pub open spec fn new_deny(self, x: Sample) -> bool {
        x.signals.deny && !self.deny_held
    }

    /// The gesture that sample `x` completes.
    pub open spec fn verdict(self, x: Sample) -> Gesture {
        if self.new_deny(x) {
            Gesture::Deny
        } else if x.pressed() || self.pending is None {
            Gesture::Nothing
        } else if crate::clock::elapsed(x.now_ms, self.pending->0) < DEBOUNCE_MS {
            Gesture::Nothing
        } else if self.both_seen {
            Gesture::Deny
        } else {
            Gesture::Approve
        }
    }

    /// The state after sample `x`.
    pub open spec fn after(self, x: Sample) -> DetectorState {
        if self.new_deny(x) || !x.pressed() {
            DetectorState { pending: None, both_seen: false, deny_held: x.signals.deny }
        } else {
            DetectorState {
                pending: if self.pending is None { Some(x.now_ms) } else { self.pending },
                both_seen: self.both_seen || x.both(),
                deny_held: x.signals.deny,
            }
        }
    }

    /// The state after all the samples of `xs`.
    pub open spec fn after_all(self, xs: Seq<Sample>) -> DetectorState
        decreases xs.len(),
    {
        if xs.len() == 0 {
            self
        } else {
            self.after_all(xs.drop_last()).after(xs.last())
        }
    }

    /// The gesture reported for the `i`-th sample of `xs`.
    pub open spec fn verdict_at(self, xs: Seq<Sample>, i: int) -> Gesture {
        self.after_all(xs.take(i)).verdict(xs[i])
    }
}

/// Recognises gestures in a stream of button samples.
pub struct GestureDetector {
    pending_started_ms: Option<u32>,
    both_seen: bool,
    last_explicit_deny: bool,
}

impl View for GestureDetector {
    type V = DetectorState;

    closed spec fn view(&self) -> DetectorState {
        DetectorState {
            pending: self.pending_started_ms,
            both_seen: self.both_seen,
            deny_held: self.last_explicit_deny,
        }
    }
}

impl Default for GestureDetector {
    fn default() -> (d: Self)
        ensures
            d@ == (DetectorState { pending: None, both_seen: false, deny_held: false }),
    {
        GestureDetector::new()
    }
}

impl GestureDetector {
    /// A detector that has seen no button down.
    pub fn new() -> (d: Self)
        ensures
            d@ == (DetectorState { pending: None, both_seen: false, deny_held: false }),
    {
        GestureDetector { pending_started_ms: None, both_seen: false, last_explicit_deny: false }
    }

    /// Takes one sample and reports the gesture that it completes.
    pub fn poll(&mut self, left: bool, right: bool, explicit_deny: bool, now_ms: u32) -> (g: Gesture)
        ensures
            ({
                let x = Sample { signals: Signals { left, right, deny: explicit_deny }, now_ms };
                &&& g == old(self)@.verdict(x)
                &&& final(self)@ == old(self)@.after(x)
            }),
    {
        if explicit_deny && !self.last_explicit_deny {
            self.last_explicit_deny = true;
            self.pending_started_ms = None;
            self.both_seen = false;
            return Gesture::Deny;
        }
        if !explicit_deny {
            self.last_explicit_deny = false;
        }
        if !left && !right {
            let result = match self.pending_started_ms {
                Some(start) => if elapsed_ms(now_ms, start) >= DEBOUNCE_MS {
                    if self.both_seen {
                        Gesture::Deny
                    } else {
                        Gesture::Approve
                    }
                } else {
                    Gesture::Nothing
                },
                None => Gesture::Nothing,
            };
            self.pending_started_ms = None;
            self.both_seen = false;
            result
        } else {
            if self.pending_started_ms.is_none() {
                self.pending_started_ms = Some(now_ms);
            }
            if left && right {
                self.both_seen = true;
            }
            Gesture::Nothing
        }
    }
}

/// The deny button was down just before the `i`-th sample of `xs`, seen from `s`.
pub open spec fn deny_before(s: DetectorState, xs: Seq<Sample>, i: int) -> bool {
    if i == 0 {
        s.deny_held
    } else {
        xs[i - 1].signals.deny
    }
}

/// No sample of `xs` brings a new press of the deny button, seen from `s`.
pub open spec fn no_new_deny(s: DetectorState, xs: Seq<Sample>) -> bool {
    forall|i: int|
        0 <= i < xs.len() && xs[i].signals.deny ==> #[trigger] deny_before(s, xs, i)
}

/// Some sample of `xs` has both approve buttons down.
pub open spec fn both_at_once(xs: Seq<Sample>) -> bool {
    exists|i: int| 0 <= i < xs.len() && (#[trigger] xs[i]).both()
}

/// Every sample of `xs` has an approve button down.
pub open spec fn all_pressed(xs: Seq<Sample>) -> bool {
    forall|i: int| 0 <= i < xs.len() ==> (#[trigger] xs[i]).pressed()
}

proof fn lemma_prefix_no_new_deny(s: DetectorState, xs: Seq<Sample>, n: int)
    requires
        no_new_deny(s, xs),
        0 <= n <= xs.len(),
    ensures
        no_new_deny(s, xs.take(n)),
{
    assert forall|i: int| 0 <= i < n && xs.take(n)[i].signals.deny implies #[trigger] deny_before(
        s,
        xs.take(n),
        i,
    ) by {
        assert(deny_before(s, xs, i));
    }
}

proof fn lemma_deny_held(s: DetectorState, xs: Seq<Sample>)
    ensures
        s.after_all(xs).deny_held == deny_before(s, xs, xs.len() as int),
{
    if xs.len() > 0 {
        let last = s.after_all(xs.drop_last()).after(xs.last());
        assert(last.deny_held == xs.last().signals.deny);
    }
}

proof fn lemma_press_in_progress(s: DetectorState, xs: Seq<Sample>)
    requires
        s.at_rest(),
        xs.len() > 0,
        all_pressed(xs),
        no_new_deny(s, xs),
    ensures
        s.after_all(xs).pending == Some(xs[0].now_ms),
        s.after_all(xs).both_seen == both_at_once(xs),
    decreases xs.len(),
{
    let init = xs.drop_last();
    let last = xs.last();
    let before = s.after_all(init);
    lemma_deny_held(s, init);
    assert(deny_before(s, xs, xs.len() - 1) == deny_before(s, init, init.len() as int));
    assert(!before.new_deny(last));
    assert(last.pressed());
    assert(init =~= xs.take(xs.len() - 1));
    if init.len() == 0 {
        assert(before == s);
        assert(both_at_once(xs) == xs[0].both());
    } else {
        lemma_prefix_no_new_deny(s, xs, xs.len() - 1);
        assert(all_pressed(init)) by {
            assert forall|i: int| 0 <= i < init.len() implies (#[trigger] init[i]).pressed() by {
                assert(xs[i].pressed());
            }
        }
        lemma_press_in_progress(s, init);
        assert(both_at_once(xs) == (both_at_once(init) || last.both())) by {
            if both_at_once(init) {
                let k = choose|i: int| 0 <= i < init.len() && (#[trigger] init[i]).both();
                assert(xs[k].both());
            }
            if both_at_once(xs) {
                let k = choose|i: int| 0 <= i < xs.len() && (#[trigger] xs[i]).both();
                assert(k < init.len() ==> init[k].both());
            }
        }
    }
}

/// A press is judged when it is released, and only then. While an approve button
/// stays down nothing is reported; the release reports nothing if it comes less
/// than `DEBOUNCE_MS` after the press began, a denial if both buttons were down
/// at once at some moment, and an approval otherwise. Either way the detector is
/// at rest again.
pub proof fn law_press_is_judged_on_release(s: DetectorState, xs: Seq<Sample>, release: Sample)
    requires
        s.at_rest(),
        xs.len() > 0,
        all_pressed(xs),
        !release.pressed(),
        no_new_deny(s, xs.push(release)),
    ensures
        forall|i: int| 0 <= i < xs.len() ==> #[trigger] s.verdict_at(xs, i) == Gesture::Nothing,
        s.after_all(xs).verdict(release) == (if crate::clock::elapsed(release.now_ms, xs[0].now_ms)
            < DEBOUNCE_MS {
            Gesture::Nothing
        } else if both_at_once(xs) {
            Gesture::Deny
        } else {
            Gesture::Approve
        }),
        s.after_all(xs).after(release).at_rest(),
{
    let ys = xs.push(release);
    assert(ys.take(xs.len() as int) =~= xs);
    lemma_prefix_no_new_deny(s, ys, xs.len() as int);
    lemma_press_in_progress(s, xs);
    lemma_deny_held(s, xs);
    assert(deny_before(s, ys, xs.len() as int) == deny_before(s, xs, xs.len() as int));
    assert(!s.after_all(xs).new_deny(release));
    assert forall|i: int| 0 <= i < xs.len() implies #[trigger] s.verdict_at(xs, i)
        == Gesture::Nothing by {
        lemma_deny_held(s, xs.take(i));
        assert(deny_before(s, xs, i) == deny_before(s, xs.take(i), i));
        assert(xs[i].pressed());
    }
}

/// A new press of the deny button denies at once, whatever else is down, and
/// drops the press that was in progress.
pub proof fn law_deny_is_immediate(s: DetectorState, x: Sample)
    requires
        s.new_deny(x),
    ensures
        s.verdict(x) == Gesture::Deny,
        s.after(x).at_rest(),
{
}

/// Holding the deny button down is one denial, not many: the samples after the
/// first are judged by the approve buttons alone.
pub proof fn law_deny_is_one_shot(s: DetectorState, first: Sample, next: Sample)
    requires
        s.new_deny(first),
        next.signals.deny,
    ensures
        ({
            let without = Sample { signals: Signals { deny: false, ..next.signals }, ..next };
            &&& s.after(first).verdict(next) == s.after(first).verdict(without)
            &&& !s.after(first).after(next).new_deny(next)
        }),
{
}

/// With all buttons up and no press in progress nothing is ever reported.
pub proof fn law_rest_is_silent(s: DetectorState, x: Sample)
    requires
        s.at_rest(),
        !x.pressed(),
        !x.signals.deny,
    ensures
        s.verdict(x) == Gesture::Nothing,
        s.after(x).at_rest(),
{
}

/// The detector at work on plain signals. With the deny button up throughout and no press
/// in progress, a press that some button opens and all buttons up closes is a bounce if
/// it lasts less than 30 ms; otherwise it denies exactly if left and right were down
/// together at some sample, and approves exactly if they never were. Until it closes
/// nothing is reported.
pub proof fn law_press_by_signals(s: DetectorState, xs: Seq<Sample>, release: Sample)
    requires
        s.pending is None,
        !s.both_seen,
        xs.len() > 0,
        forall|i: int|
            0 <= i < xs.len() ==> !(#[trigger] xs[i]).signals.deny && (xs[i].signals.left
                || xs[i].signals.right),
        !release.signals.left,
        !release.signals.right,
        !release.signals.deny,
    ensures
        ({
            let g = s.after_all(xs).verdict(release);
            let long = crate::clock::elapsed(release.now_ms, xs[0].now_ms) >= 30;
            let both = exists|i: int|
                0 <= i < xs.len() && (#[trigger] xs[i]).signals.left && xs[i].signals.right;
            &&& g == Gesture::Approve <==> long && !both
            &&& g == Gesture::Deny <==> long && both
        }),
        forall|i: int| 0 <= i < xs.len() ==> #[trigger] s.verdict_at(xs, i) == Gesture::Nothing,
{
    let ys = xs.push(release);
    assert forall|i: int| 0 <= i < ys.len() && ys[i].signals.deny implies #[trigger] deny_before(
        s,
        ys,
        i,
    ) by {
        if i < xs.len() {
            assert(ys[i] == xs[i]);
        }
    }
    assert(all_pressed(xs)) by {
        assert forall|i: int| 0 <= i < xs.len() implies (#[trigger] xs[i]).pressed() by {
            assert(!xs[i].signals.deny);
        }
    }
    law_press_is_judged_on_release(s, xs, release);
    if both_at_once(xs) {
        let k = choose|i: int| 0 <= i < xs.len() && (#[trigger] xs[i]).both();
        assert(xs[k].signals.left && xs[k].signals.right);
    }
    if exists|i: int| 0 <= i < xs.len() && (#[trigger] xs[i]).signals.left && xs[i].signals.right {
        let k = choose|i: int|
            0 <= i < xs.len() && (#[trigger] xs[i]).signals.left && xs[i].signals.right;
        assert(xs[k].both());
    }
}

/// The deny button denies whenever it is down in a sample and was up in the one before,
/// however often that was so already and whatever the other buttons do.
pub proof fn law_every_press_of_deny_denies(s: DetectorState, xs: Seq<Sample>, i: int)
    requires
        0 < i < xs.len(),
        xs[i].signals.deny,
        !xs[i - 1].signals.deny,
    ensures
        s.verdict_at(xs, i) == Gesture::Deny,
        s.after_all(xs.take(i)).after(xs[i]).pending is None,
        !s.after_all(xs.take(i)).after(xs[i]).both_seen,
{
    assert(xs.take(i).last() == xs[i - 1]);
}

/// The detector remembers of the deny button whether it was down in the last sample. A
/// deny button that stays down changes neither what is reported nor the press in
/// progress. All approve buttons up end any press.
pub proof fn law_what_a_sample_leaves(s: DetectorState, x: Sample)
    ensures
        s.after(x).deny_held == x.signals.deny,
        s.deny_held ==> {
            let up = Sample { signals: Signals { deny: false, ..x.signals }, ..x };
            &&& s.verdict(x) == s.verdict(up)
            &&& s.after(x).pending == s.after(up).pending
            &&& s.after(x).both_seen == s.after(up).both_seen
        },
        !x.signals.left && !x.signals.right ==> s.after(x).pending is None && !s.after(
            x,
        ).both_seen,
{
}

/// On a board with one approve button the only way to deny is the deny button: a
/// press of the approve button never ends as a denial.
pub proof fn law_one_button_never_denies(s: DetectorState, xs: Seq<Sample>, i: int)
    requires
        !s.both_seen,
        0 <= i < xs.len(),
        forall|j: int| 0 <= j < xs.len() ==> !(#[trigger] xs[j]).signals.right,
    ensures
        !s.after_all(xs.take(i)).both_seen,
        s.verdict_at(xs, i) == Gesture::Deny ==> xs[i].signals.deny,
    decreases i,
{
    if i == 0 {
        assert(xs.take(0) =~= Seq::<Sample>::empty());
    } else {
        law_one_button_never_denies(s, xs, i - 1);
        assert(xs.take(i).drop_last() =~= xs.take(i - 1));
        assert(xs.take(i).last() == xs[i - 1]);
        assert(!xs[i - 1].both());
    }
}

/// Holds the last gesture until someone takes it.
///
/// One latch serves every consumer, because only one consent is asked for at a
/// time.
pub struct GestureLatch {
    held: Gesture,
}

impl View for GestureLatch {
    type V = Gesture;

    closed spec fn view(&self) -> Gesture {
        self.held
    }
}

impl GestureLatch {
    /// An empty latch.
    pub fn new() -> (l: Self)
        ensures
            l@ == Gesture::Nothing,
    {
        GestureLatch { held: Gesture::Nothing }
    }
}

/// What a latch that holds `held` holds after `g`.
pub open spec fn latched(held: Gesture, g: Gesture) -> Gesture {
    if g == Gesture::Nothing {
        held
    } else {
        g
    }
}

/// What a latch that holds `held` holds after all of `gs`.
pub open spec fn latched_all(held: Gesture, gs: Seq<Gesture>) -> Gesture
    decreases gs.len(),
{
    if gs.len() == 0 {
        held
    } else {
        latched(latched_all(held, gs.drop_last()), gs.last())
    }
}

/// Latches a gesture. An approval or a denial replaces what is there; `Nothing`
/// leaves it, so that a gesture survives until it is taken.
pub fn latch_gesture(latch: &mut GestureLatch, g: Gesture)
    ensures
        final(latch)@ == latched(old(latch)@, g),
{
    match g {
        Gesture::Approve => latch.held = Gesture::Approve,
        Gesture::Deny => latch.held = Gesture::Deny,
        Gesture::Nothing => {},
    }
}

/// Takes the latched gesture and leaves the latch empty.
pub fn take_gesture(latch: &mut GestureLatch) -> (g: Gesture)
    ensures
        g == old(latch)@,
        final(latch)@ == Gesture::Nothing,
{
    let g = latch.held;
    latch.held = Gesture::Nothing;
    g
}

/// A latched approval or denial stays for any number of samples that bring no
/// gesture, so the consumer that comes late still finds it.
pub proof fn law_latch_survives_silence(held: Gesture, g: Gesture, gs: Seq<Gesture>)
    requires
        g != Gesture::Nothing,
        forall|i: int| 0 <= i < gs.len() ==> #[trigger] gs[i] == Gesture::Nothing,
    ensures
        latched_all(latched(held, g), gs) == g,
    decreases gs.len(),
{
    if gs.len() > 0 {
        assert(gs.last() == Gesture::Nothing);
        law_latch_survives_silence(held, g, gs.drop_last());
    }
}

/// What the throttled reading of the buttons remembers.
#[derive(Copy, Clone, Debug, PartialEq, Eq, Structural)]
pub struct CapState {
    /// When the buttons were last read.
    pub last_ms: u32,
    /// What was read then.
    pub signals: Signals,
}

impl CapState {
    /// The buttons are to be read again at `now_ms`.
    pub open spec fn due(self, now_ms: u32) -> bool {
        crate::clock::elapsed(now_ms, self.last_ms) >= CAP_THROTTLE_MS
    }

    /// The signals to go by at `now_ms`: those of a fresh reading where one is due and
    /// was made, the kept ones otherwise.
    pub open spec fn signals_at(self, fresh: Option<Signals>, now_ms: u32) -> Signals {
        if self.due(now_ms) && fresh is Some {
            fresh->0
        } else {
            self.signals
        }
    }

    /// The state after the poll at `now_ms`. A reading that was due and was not made is
    /// still due.
    pub open spec fn after(self, fresh: Option<Signals>, now_ms: u32) -> CapState {
        if self.due(now_ms) && fresh is Some {
            CapState { last_ms: now_ms, signals: fresh->0 }
        } else {
            self
        }
    }
}

/// The last reading of the buttons. A reading can take tens of milliseconds, so
/// it is made at most once per `CAP_THROTTLE_MS` and kept in between.
pub struct CapCache {
    last_ms: u32,
    signals: Signals,
}

impl View for CapCache {
    type V = CapState;

    closed spec fn view(&self) -> CapState {
        CapState { last_ms: self.last_ms, signals: self.signals }
    }
}

impl CapCache {
    /// A cache that counts as read at time zero with every button up.
    pub fn new() -> (c: Self)
        ensures
            c@ == (CapState {
                last_ms: 0,
                signals: Signals { left: false, right: false, deny: false },
            }),
    {
        CapCache { last_ms: 0, signals: Signals { left: false, right: false, deny: false } }
    }

    /// Whether the poll at `now_ms` has to read the buttons.
    pub fn read_due(&self, now_ms: u32) -> (due: bool)
        ensures
            due == self@.due(now_ms),
    {
        elapsed_ms(now_ms, self.last_ms) >= CAP_THROTTLE_MS
    }
}

/// One poll of the buttons: the reading that was made, if one was, and the time.
#[derive(Copy, Clone, Debug, PartialEq, Eq, Structural)]
pub struct Poll {
    /// The reading.
    pub fresh: Option<Signals>,
    /// When.
    pub now_ms: u32,
}

/// All that the polling of the buttons remembers.
#[derive(Copy, Clone, Debug, PartialEq, Eq, Structural)]
pub struct PollState {
    /// The kept reading.
    pub cap: CapState,
    /// The detector.
    pub detector: DetectorState,
    /// The latched gesture.
    pub held: Gesture,
}

impl PollState {
    /// The sample that the poll `p` judges.
    pub open spec fn sample(self, p: Poll) -> Sample {
        Sample { signals: self.cap.signals_at(p.fresh, p.now_ms), now_ms: p.now_ms }
    }

    /// The state after the poll `p`.
    pub open spec fn after(self, p: Poll) -> PollState {
        PollState {
            cap: self.cap.after(p.fresh, p.now_ms),
            detector: self.detector.after(self.sample(p)),
            held: latched(self.held, self.detector.verdict(self.sample(p))),
        }
    }

    /// The state after all of `ps`.
    pub open spec fn after_all(self, ps: Seq<Poll>) -> PollState
        decreases ps.len(),
    {
        if ps.len() == 0 {
            self
        } else {
            self.after_all(ps.drop_last()).after(ps.last())
        }
    }
}

/// One poll of the buttons: goes by the fresh reading where one is due and was made and
/// by the kept one otherwise, runs the detector and latches what it reports.
pub fn poll_buttons(
    cap: &mut CapCache,
    gesture: &mut GestureDetector,
    latch: &mut GestureLatch,
    fresh: Option<Signals>,
    now_ms: u32,
)
    ensures
        ({
            let x = Sample { signals: old(cap)@.signals_at(fresh, now_ms), now_ms };
            &&& final(cap)@ == old(cap)@.after(fresh, now_ms)
            &&& final(gesture)@ == old(gesture)@.after(x)
            &&& final(latch)@ == latched(old(latch)@, old(gesture)@.verdict(x))
        }),
        old(cap)@.due(now_ms) && fresh is Some ==> {
            let x = Sample { signals: fresh->0, now_ms };
            &&& final(gesture)@ == old(gesture)@.after(x)
            &&& final(latch)@ == latched(old(latch)@, old(gesture)@.verdict(x))
        },
        (PollState { cap: final(cap)@, detector: final(gesture)@, held: final(latch)@ }) == (
        PollState { cap: old(cap)@, detector: old(gesture)@, held: old(latch)@ }).after(
            Poll { fresh, now_ms },
        ),
{
    if cap.read_due(now_ms) {
        match fresh {
            Some(s) => {
                cap.signals = s;
                cap.last_ms = now_ms;
            },
            None => {},
        }
    }
    let s = cap.signals;
    let g = gesture.poll(s.left, s.right, s.deny, now_ms);
    latch_gesture(latch, g);
}

/// What a poll judges. A reading that is due, 50 ms after the last, and was made is judged
/// as it is, all three signals of it, and kept. Any other poll judges the kept reading as
/// it is and keeps it.
pub proof fn law_poll_judges_what_was_read(s: PollState, p: Poll)
    ensures
        ({
            let due = crate::clock::elapsed(p.now_ms, s.cap.last_ms) >= 50;
            &&& s.cap.due(p.now_ms) <==> due
            &&& due && p.fresh is Some ==> {
                let x = Sample { signals: p.fresh->0, now_ms: p.now_ms };
                &&& s.after(p).detector == s.detector.after(x)
                &&& s.after(p).held == latched(s.held, s.detector.verdict(x))
                &&& s.after(p).cap.signals == p.fresh->0
                &&& s.after(p).cap.last_ms == p.now_ms
            }
            &&& !due || p.fresh is None ==> {
                let x = Sample { signals: s.cap.signals, now_ms: p.now_ms };
                &&& s.after(p).detector == s.detector.after(x)
                &&& s.after(p).held == latched(s.held, s.detector.verdict(x))
                &&& s.after(p).cap == s.cap
            }
        }),
{
}

/// When the reading before the `i`-th of `ps` was made, if each of them brings one and the
/// last before them was made at `last_ms`.
pub open spec fn read_before(last_ms: u32, ps: Seq<Poll>, i: int) -> u32 {
    if i == 0 {
        last_ms
    } else {
        ps[i - 1].now_ms
    }
}

/// Each of `ps` is due and brings a reading, the last before them being of `last_ms`.
pub open spec fn all_read(last_ms: u32, ps: Seq<Poll>) -> bool {
    forall|i: int|
        0 <= i < ps.len() ==> (#[trigger] ps[i]).fresh is Some && crate::clock::elapsed(
            ps[i].now_ms,
            read_before(last_ms, ps, i),
        ) >= 50
}

/// The readings of `ps`, with their times.
pub open spec fn readings(ps: Seq<Poll>) -> Seq<Sample> {
    Seq::new(ps.len(), |i: int| Sample { signals: ps[i].fresh->0, now_ms: ps[i].now_ms })
}

/// What the detector reports for each of `xs`.
pub open spec fn verdicts(s: DetectorState, xs: Seq<Sample>) -> Seq<Gesture> {
    Seq::new(xs.len(), |i: int| s.verdict_at(xs, i))
}

/// From the buttons to the latch: polls that each bring a due reading leave the detector
/// as exactly those readings leave it, and the latch with what the detector reports for
/// exactly those readings.
pub proof fn law_readings_reach_the_latch(s: PollState, ps: Seq<Poll>)
    requires
        all_read(s.cap.last_ms, ps),
    ensures
        s.after_all(ps).detector == s.detector.after_all(readings(ps)),
        s.after_all(ps).held == latched_all(s.held, verdicts(s.detector, readings(ps))),
        ps.len() > 0 ==> s.after_all(ps).cap == (CapState {
            last_ms: ps.last().now_ms,
            signals: ps.last().fresh->0,
        }),
    decreases ps.len(),
{
    let xs = readings(ps);
    if ps.len() > 0 {
        let init = ps.drop_last();
        let n = init.len() as int;
        assert(all_read(s.cap.last_ms, init)) by {
            assert forall|i: int| 0 <= i < init.len() implies (#[trigger] init[i]).fresh is Some
                && crate::clock::elapsed(init[i].now_ms, read_before(s.cap.last_ms, init, i))
                >= 50 by {
                assert(ps[i].fresh is Some);
                assert(read_before(s.cap.last_ms, init, i) == read_before(s.cap.last_ms, ps, i));
            }
        }
        law_readings_reach_the_latch(s, init);
        assert(readings(init) =~= xs.drop_last());
        assert(xs.take(n) =~= xs.drop_last());
        assert(ps[n].fresh is Some);
        let before = s.after_all(init);
        assert(before.cap.last_ms == read_before(s.cap.last_ms, ps, n));
        law_poll_judges_what_was_read(before, ps.last());
        assert(xs.last() == Sample { signals: ps.last().fresh->0, now_ms: ps.last().now_ms });
        let gs = verdicts(s.detector, xs);
        assert(gs.drop_last() =~= verdicts(s.detector, readings(init))) by {
            assert forall|i: int| 0 <= i < n implies s.detector.verdict_at(xs, i)
                == s.detector.verdict_at(readings(init), i) by {
                assert(xs.take(i) =~= readings(init).take(i));
            }
        }
        assert(gs.last() == s.detector.verdict_at(xs, n));
    } else {
        assert(xs =~= Seq::<Sample>::empty());
        assert(verdicts(s.detector, xs) =~= Seq::<Gesture>::empty());
    }
}

proof fn lemma_silence_is_not_latched(held: Gesture, gs: Seq<Gesture>)
    requires
        forall|i: int| 0 <= i < gs.len() ==> #[trigger] gs[i] == Gesture::Nothing,
    ensures
        latched_all(held, gs) == held,
    decreases gs.len(),
{
    if gs.len() > 0 {
        assert(gs.last() == Gesture::Nothing);
        lemma_silence_is_not_latched(held, gs.drop_last());
    }
}

/// From the press to the latch, in plain signals. From rest, with the deny button up, due
/// readings with a button down and then one with all up leave in the latch: a denial if
/// left and right were read down together at least once, and an approval if not, be it
/// left or right that was pressed. A press of less than 30 ms leaves what was there.
pub proof fn law_press_reaches_the_latch(s: PollState, ps: Seq<Poll>)
    requires
        s.detector.pending is None,
        !s.detector.both_seen,
        ps.len() >= 2,
        all_read(s.cap.last_ms, ps),
        forall|i: int|
            0 <= i < ps.len() - 1 ==> !(#[trigger] ps[i]).fresh->0.deny && (ps[i].fresh->0.left
                || ps[i].fresh->0.right),
        ps.last().fresh == Some(Signals { left: false, right: false, deny: false }),
    ensures
        ({
            let long = crate::clock::elapsed(ps.last().now_ms, ps[0].now_ms) >= 30;
            let both = exists|i: int|
                0 <= i < ps.len() - 1 && (#[trigger] ps[i]).fresh->0.left && ps[i].fresh->0.right;
            &&& long && both ==> s.after_all(ps).held == Gesture::Deny
            &&& long && !both ==> s.after_all(ps).held == Gesture::Approve
            &&& !long ==> s.after_all(ps).held == s.held
        }),
{
    let all = readings(ps);
    let n = ps.len() - 1;
    let xs = all.drop_last();
    let release = all.last();
    law_readings_reach_the_latch(s, ps);
    assert forall|i: int| 0 <= i < xs.len() implies !(#[trigger] xs[i]).signals.deny && (
    xs[i].signals.left || xs[i].signals.right) by {
        assert(!ps[i].fresh->0.deny);
    }
    law_press_by_signals(s.detector, xs, release);
    let gs = verdicts(s.detector, all);
    assert(all.take(n) =~= xs);
    assert(gs.last() == s.detector.after_all(xs).verdict(release));
    let quiet = gs.drop_last();
    assert forall|i: int| 0 <= i < quiet.len() implies #[trigger] quiet[i] == Gesture::Nothing by {
        assert(all.take(i) =~= xs.take(i));
        assert(s.detector.verdict_at(xs, i) == Gesture::Nothing);
    }
    lemma_silence_is_not_latched(s.held, quiet);
    assert(latched_all(s.held, gs) == latched(s.held, gs.last()));
    if exists|i: int|
        0 <= i < ps.len() - 1 && (#[trigger] ps[i]).fresh->0.left && ps[i].fresh->0.right {
        let k = choose|i: int|
            0 <= i < ps.len() - 1 && (#[trigger] ps[i]).fresh->0.left && ps[i].fresh->0.right;
        assert(xs[k].signals.left && xs[k].signals.right);
    }
    if exists|i: int| 0 <= i < xs.len() && (#[trigger] xs[i]).signals.left && xs[i].signals.right {
        let k = choose|i: int|
            0 <= i < xs.len() && (#[trigger] xs[i]).signals.left && xs[i].signals.right;
        assert(ps[k].fresh->0.left && ps[k].fresh->0.right);
    }
}

/// A due reading in which the deny button is down, after one in which it was not, leaves a
/// denial in the latch at once, whatever else is down and whatever was latched.
pub proof fn law_deny_reaches_the_latch(s: PollState, p: Poll)
    requires
        !s.detector.deny_held,
        crate::clock::elapsed(p.now_ms, s.cap.last_ms) >= 50,
        p.fresh is Some,
        p.fresh->0.deny,
    ensures
        s.after(p).held == Gesture::Deny,
        s.after(p).detector.deny_held,
{
    law_poll_judges_what_was_read(s, p);
}

/// The latch holds the last gesture that said something, and what it held before if none
/// did.
pub proof fn law_latch_holds_the_last_word(held: Gesture, gs: Seq<Gesture>, i: int)
    requires
        -1 <= i < gs.len(),
        i >= 0 ==> gs[i] != Gesture::Nothing,
        forall|j: int| i < j < gs.len() ==> #[trigger] gs[j] == Gesture::Nothing,
    ensures
        i >= 0 ==> latched_all(held, gs) == gs[i],
        i < 0 ==> latched_all(held, gs) == held,
    decreases gs.len(),
{
    if gs.len() > 0 {
        if i == gs.len() - 1 {
            assert(gs.last() == gs[i]);
        } else {
            assert(gs.last() == Gesture::Nothing);
            law_latch_holds_the_last_word(held, gs.drop_last(), i);
        }
    }
}

/// After a reading at `now_ms` the next one is due only when `CAP_THROTTLE_MS`
/// have passed, and until then every poll goes by that reading and leaves it.
pub proof fn law_reads_are_throttled(
    c: CapState,
    s: Signals,
    now_ms: u32,
    later_ms: u32,
    other: Option<Signals>,
)
    requires
        c.due(now_ms),
    ensures
        ({
            let read = c.after(Some(s), now_ms);
            &&& read.due(later_ms) <==> crate::clock::elapsed(later_ms, now_ms) >= CAP_THROTTLE_MS
            &&& !read.due(later_ms) ==> read.signals_at(other, later_ms) == s && read.after(
                other,
                later_ms,
            ) == read
        }),
{
}

} // verus!
