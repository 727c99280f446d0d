//! The repair of the NFC pins.
//!
//! An earlier firmware may have configured P0.09 and P0.10 as ordinary pins, and
//! then no antenna makes NFC work. The setting is a word of the UICR, a page of
//! flash that can only be erased as a whole. So the page is read, erased, and
//! written back with the one word changed.
//!
//! The repair decides one operation at a time: [`NfcpinsFix::op`] says what to do
//! next and [`NfcpinsFix::reply`] takes what it brought. There is no reset at the
//! end: the setting takes effect with the next one, and resetting after a failure
//! could go on for ever.
use vstd::prelude::*;

verus! {

/// Words of the UICR page.
pub const UICR_WORDS: usize = 256;

/// The word that holds the pin setting.
pub const NFCPINS_WORD: usize = 131;

/// A word of erased flash.
pub const ERASED: u32 = 0xFFFF_FFFF;

/// How often the flash controller is asked whether it is ready before the repair
/// gives up on it.
pub const READY_POLLS: u32 = 4_000_000;

/// The pins were NFC pins already; nothing was done.
pub const ALREADY_NFC: u32 = 1;

/// The page was erased and written back with the pins set to NFC.
pub const REPAIRED: u32 = 2;

/// The page was empty; only the pin setting was written.
pub const WAS_EMPTY: u32 = 3;

/// The flash controller did not finish, or the setting did not stick.
pub const FAILED: u32 = 4;

/// The access modes of the flash controller.
#[derive(Copy, Clone, Debug, PartialEq, Eq, Structural)]
pub enum NvmcMode {
    /// Reading only.
    Read,
    /// Writing allowed.
    Write,
    /// Erasing allowed.
    Erase,
}

/// One operation of the repair.
#[derive(Copy, Clone, Debug, PartialEq, Eq, Structural)]
pub enum FixOp {
    /// Read the pin setting. Its word is the reply.
    ReadNfcpins,
    /// Read a word of the page. It is the reply.
    ReadWord(usize),
    /// Switch the flash controller's mode.
    Config(NvmcMode),
    /// Read the flash controller's ready register. Its word is the reply.
    PollReady,
    /// Erase the page.
    EraseUicr,
    /// Write a word of the page.
    WriteWord(usize, u32),
    /// The repair is over with this code.
    Done(u32),
}

/// What the repair is doing.
#[derive(Copy, Clone, Debug, PartialEq, Eq, Structural)]
pub enum FixPhase {
    /// Looking whether there is anything to repair.
    Check,
    /// Reading a word.
    Reading(usize),
    /// Switching to erasing.
    EraseMode,
    /// Waiting for that, after so many looks.
    EraseModeWait(u32),
    /// Erasing.
    Erasing,
    /// Waiting for that, after so many looks.
    EraseWait(u32),
    /// Switching back to reading after the erasure succeeded or not.
    EraseEnd(bool),
    /// Switching to writing.
    WriteMode,
    /// Waiting for that, after so many looks.
    WriteModeWait(u32),
    /// Writing a word.
    Writing(usize),
    /// Waiting for the last write, after so many looks.
    FinalWait(u32),
    /// Switching back to reading after the writes succeeded or not.
    FinalEnd(bool),
    /// Looking whether the setting stuck.
    Verify,
    /// Over.
    Done(u32),
}

/// The outcome of one look at the ready register.
#[derive(Copy, Clone, Debug, PartialEq, Eq, Structural)]
pub enum Wait {
    /// The flash controller is ready.
    Ready,
    /// It has been asked often enough.
    TimedOut,
    /// Ask again; so many looks were in vain.
    Again(u32),
}

/// The pin setting says NFC. Erased flash reads so too.
pub open spec fn says_nfc(nfcpins: u32) -> bool {
    nfcpins & 1 != 0
}

/// The ready register says ready.
pub open spec fn says_ready(ready: u32) -> bool {
    ready & 1 != 0
}

/// The outcome of a look that finds `ready` after `polls` looks in vain.
pub open spec fn look(polls: u32, ready: u32) -> Wait {
    if says_ready(ready) {
        Wait::Ready
    } else if polls + 1 >= READY_POLLS {
        Wait::TimedOut
    } else {
        Wait::Again((polls + 1) as u32)
    }
}

/// Whether the pin setting gives P0.09 and P0.10 to NFC.
pub fn nfcpins_is_nfc(nfcpins: u32) -> (r: bool)
    ensures
        r == says_nfc(nfcpins),
{
    nfcpins & 1 != 0
}

/// Judges one look at the ready register.
pub fn wait_ready(polls: u32, ready: u32) -> (w: Wait)
    ensures
        w == look(polls, ready),
{
    if ready & 1 != 0 {
        Wait::Ready
    } else if polls >= READY_POLLS - 1 {
        Wait::TimedOut
    } else {
        Wait::Again(polls + 1)
    }
}

/// Only the lowest bit of the pin setting and of the ready register counts.
pub proof fn law_lowest_bit_counts(word: u32)
    ensures
        says_nfc(word) <==> word % 2 == 1,
        says_ready(word) <==> word % 2 == 1,
{
    assert(word & 1 != 0 <==> word % 2 == 1) by (bit_vector);
}

/// A look ends the wait in success exactly if the controller is ready, and in failure
/// exactly if it is not and was asked four million times with this look. Otherwise the
/// look is counted.
pub proof fn law_a_look_is_counted(polls: u32, ready: u32)
    ensures
        look(polls, ready) == Wait::Ready <==> ready % 2 == 1,
        look(polls, ready) == Wait::TimedOut <==> ready % 2 == 0 && polls >= 3_999_999,
        look(polls, ready) is Again <==> ready % 2 == 0 && polls < 3_999_999,
        look(polls, ready) is Again ==> look(polls, ready)->Again_0 == polls + 1,
{
    law_lowest_bit_counts(ready);
}

/// How a wait ends that finds `readings` after `polls` looks in vain: ready, timed
/// out, or not yet over.
pub open spec fn wait_outcome(polls: u32, readings: Seq<u32>) -> Option<bool>
    decreases readings.len(),
{
    if readings.len() == 0 {
        None
    } else {
        match look(polls, readings[0]) {
            Wait::Ready => Some(true),
            Wait::TimedOut => Some(false),
            Wait::Again(n) => wait_outcome(n, readings.skip(1)),
        }
    }
}

proof fn lemma_wait_outcome(polls: u32, readings: Seq<u32>)
    requires
        polls < READY_POLLS,
    ensures
        wait_outcome(polls, readings) == Some(true) <==> exists|i: int|
            0 <= i < readings.len() && i < READY_POLLS - polls && says_ready(#[trigger] readings[i]),
        wait_outcome(polls, readings) == Some(false) ==> readings.len() >= READY_POLLS - polls,
        wait_outcome(polls, readings) is None ==> readings.len() < READY_POLLS - polls,
    decreases readings.len(),
{
    if readings.len() > 0 {
        let rest = readings.skip(1);
        if says_ready(readings[0]) {
            assert(0 < READY_POLLS - polls && says_ready(readings[0]));
        } else if polls + 1 < READY_POLLS {
            lemma_wait_outcome((polls + 1) as u32, rest);
            if exists|i: int|
                0 <= i < rest.len() && i < READY_POLLS - (polls + 1) && says_ready(
                    #[trigger] rest[i],
                ) {
                let k = choose|i: int|
                    0 <= i < rest.len() && i < READY_POLLS - (polls + 1) && says_ready(
                        #[trigger] rest[i],
                    );
                assert(says_ready(readings[k + 1]));
            }
            if exists|i: int|
                0 <= i < readings.len() && i < READY_POLLS - polls && says_ready(
                    #[trigger] readings[i],
                ) {
                let k = choose|i: int|
                    0 <= i < readings.len() && i < READY_POLLS - polls && says_ready(
                        #[trigger] readings[i],
                    );
                assert(says_ready(rest[k - 1]));
            }
        }
    }
}

/// A wait succeeds exactly when one of the first `READY_POLLS` looks finds the
/// flash controller ready, and otherwise ends with the last of those looks.
pub proof fn law_wait_is_bounded(readings: Seq<u32>)
    ensures
        wait_outcome(0, readings) == Some(true) <==> exists|i: int|
            0 <= i < readings.len() && i < READY_POLLS && says_ready(#[trigger] readings[i]),
        readings.len() >= READY_POLLS ==> wait_outcome(0, readings) is Some,
        wait_outcome(0, readings) == Some(false) ==> readings.len() >= READY_POLLS,
{
    lemma_wait_outcome(0, readings);
}

/// The switch to erasing.
pub fn mode_erase() -> (op: FixOp)
    ensures
        op == FixOp::Config(NvmcMode::Erase),
{
    FixOp::Config(NvmcMode::Erase)
}

/// The switch to writing.
pub fn mode_write() -> (op: FixOp)
    ensures
        op == FixOp::Config(NvmcMode::Write),
{
    FixOp::Config(NvmcMode::Write)
}

/// The switch to reading.
pub fn mode_read() -> (op: FixOp)
    ensures
        op == FixOp::Config(NvmcMode::Read),
{
    FixOp::Config(NvmcMode::Read)
}

/// Some word is not erased.
pub open spec fn has_content(words: Seq<u32>) -> bool {
    exists|i: int| 0 <= i < words.len() && #[trigger] words[i] != ERASED
}

/// The first word from `i` on that is not erased, or the end.
pub open spec fn next_written(words: Seq<u32>, i: int) -> int
    decreases words.len() - i,
{
    if i < 0 || i >= words.len() {
        words.len() as int
    } else if words[i] != ERASED {
        i
    } else {
        next_written(words, i + 1)
    }
}

/// What a repair knows.
pub struct FixState {
    /// What it is doing.
    pub phase: FixPhase,
    /// The page, as far as it was read, with the pin setting changed at the end.
    pub words: Seq<u32>,
    /// The page was not empty.
    pub had_content: bool,
}

impl FixState {
    /// A repair that has not looked at anything.
    pub open spec fn fresh(self) -> bool {
        &&& self.phase == FixPhase::Check
        &&& self.words == Seq::new(UICR_WORDS as nat, |i: int| ERASED)
        &&& !self.had_content
    }

    /// The operation to carry out.
    pub open spec fn op(self) -> FixOp {
        match self.phase {
            FixPhase::Check => FixOp::ReadNfcpins,
            FixPhase::Reading(i) => FixOp::ReadWord(i),
            FixPhase::EraseMode => FixOp::Config(NvmcMode::Erase),
            FixPhase::EraseModeWait(_) => FixOp::PollReady,
            FixPhase::Erasing => FixOp::EraseUicr,
            FixPhase::EraseWait(_) => FixOp::PollReady,
            FixPhase::EraseEnd(_) => FixOp::Config(NvmcMode::Read),
            FixPhase::WriteMode => FixOp::Config(NvmcMode::Write),
            FixPhase::WriteModeWait(_) => FixOp::PollReady,
            FixPhase::Writing(i) => FixOp::WriteWord(i, self.words[i as int]),
            FixPhase::FinalWait(_) => FixOp::PollReady,
            FixPhase::FinalEnd(_) => FixOp::Config(NvmcMode::Read),
            FixPhase::Verify => FixOp::ReadNfcpins,
            FixPhase::Done(code) => FixOp::Done(code),
        }
    }

    /// The same knowledge in another phase.
    pub open spec fn at(self, phase: FixPhase) -> FixState {
        FixState { phase, ..self }
    }

    /// On to the first word from `i` on that is to be written, or to the wait for
    /// the last write.
    pub open spec fn write_from(self, i: int) -> FixState {
        let k = next_written(self.words, i);
        if k < self.words.len() {
            self.at(FixPhase::Writing(k as usize))
        } else {
            self.at(FixPhase::FinalWait(0))
        }
    }

    /// Once the whole page is read: its image with the pins set to NFC, and the
    /// erasure if there is anything to erase.
    pub open spec fn page_read(self) -> FixState {
        FixState {
            phase: if has_content(self.words) {
                FixPhase::EraseMode
            } else {
                FixPhase::WriteMode
            },
            words: self.words.update(NFCPINS_WORD as int, 1),
            had_content: has_content(self.words),
        }
    }

    /// The state after the operation brought `reply`. A repair that is over stays
    /// over.
    pub open spec fn after(self, reply: u32) -> FixState {
        match self.phase {
            FixPhase::Check => if says_nfc(reply) {
                self.at(FixPhase::Done(ALREADY_NFC))
            } else {
                self.at(FixPhase::Reading(0))
            },
            FixPhase::Reading(i) => {
                let read = FixState { words: self.words.update(i as int, reply), ..self };
                if i + 1 < UICR_WORDS {
                    read.at(FixPhase::Reading((i + 1) as usize))
                } else {
                    read.page_read()
                }
            },
            FixPhase::EraseMode => self.at(FixPhase::EraseModeWait(0)),
            FixPhase::EraseModeWait(n) => match look(n, reply) {
                Wait::Ready => self.at(FixPhase::Erasing),
                Wait::TimedOut => self.at(FixPhase::Done(FAILED)),
                Wait::Again(m) => self.at(FixPhase::EraseModeWait(m)),
            },
            FixPhase::Erasing => self.at(FixPhase::EraseWait(0)),
            FixPhase::EraseWait(n) => match look(n, reply) {
                Wait::Ready => self.at(FixPhase::EraseEnd(true)),
                Wait::TimedOut => self.at(FixPhase::EraseEnd(false)),
                Wait::Again(m) => self.at(FixPhase::EraseWait(m)),
            },
            FixPhase::EraseEnd(ok) => if ok {
                self.at(FixPhase::WriteMode)
            } else {
                self.at(FixPhase::Done(FAILED))
            },
            FixPhase::WriteMode => self.at(FixPhase::WriteModeWait(0)),
            FixPhase::WriteModeWait(n) => match look(n, reply) {
                Wait::Ready => self.write_from(0),
                Wait::TimedOut => self.at(FixPhase::Done(FAILED)),
                Wait::Again(m) => self.at(FixPhase::WriteModeWait(m)),
            },
            FixPhase::Writing(i) => self.write_from(i + 1),
            FixPhase::FinalWait(n) => match look(n, reply) {
                Wait::Ready => self.at(FixPhase::FinalEnd(true)),
                Wait::TimedOut => self.at(FixPhase::FinalEnd(false)),
                Wait::Again(m) => self.at(FixPhase::FinalWait(m)),
            },
            FixPhase::FinalEnd(ok) => if ok {
                self.at(FixPhase::Verify)
            } else {
                self.at(FixPhase::Done(FAILED))
            },
            FixPhase::Verify => self.at(
                FixPhase::Done(
                    if !says_nfc(reply) {
                        FAILED
                    } else if self.had_content {
                        REPAIRED
                    } else {
                        WAS_EMPTY
                    },
                ),
            ),
            FixPhase::Done(_) => self,
        }
    }

    /// The word in hand lies in the page.
    pub open spec fn in_page(self) -> bool {
        &&& self.words.len() == UICR_WORDS
        &&& self.phase matches FixPhase::Reading(i) ==> i < UICR_WORDS
        &&& self.phase matches FixPhase::Writing(i) ==> i < UICR_WORDS
    }
}

/// A repair under way.
pub struct NfcpinsFix {
    phase: FixPhase,
    words: [u32; 256],
    had_content: bool,
}

impl View for NfcpinsFix {
    type V = FixState;

    closed spec fn view(&self) -> FixState {
        FixState { phase: self.phase, words: self.words@, had_content: self.had_content }
    }
}

fn find_written(words: &[u32; 256], from: usize) -> (k: usize)
    requires
        from <= UICR_WORDS,
    ensures
        k == next_written(words@, from as int),
        k <= UICR_WORDS,
{
    let mut k: usize = from;
    while k < UICR_WORDS && words[k] == ERASED
        invariant
            k <= UICR_WORDS,
            words@.len() == UICR_WORDS,
            next_written(words@, from as int) == next_written(words@, k as int),
        decreases UICR_WORDS - k,
    {
        k = k + 1;
    }
    k
}

/// The found word is the first from `i` on that is not erased.
pub proof fn lemma_next_written(words: Seq<u32>, i: int)
    requires
        0 <= i <= words.len(),
    ensures
        i <= next_written(words, i) <= words.len(),
        next_written(words, i) < words.len() ==> words[next_written(words, i)] != ERASED,
        forall|j: int| i <= j < next_written(words, i) ==> #[trigger] words[j] == ERASED,
    decreases words.len() - i,
{
    if i < words.len() && words[i] == ERASED {
        lemma_next_written(words, i + 1);
    }
}

/// Begins a repair.
pub fn fix_nfcpins() -> (fix: NfcpinsFix)
    ensures
        fix@.fresh(),
        fix@.in_page(),
{
    let fix = NfcpinsFix { phase: FixPhase::Check, words: [ERASED; 256], had_content: false };
    assert(fix@.words =~= Seq::new(UICR_WORDS as nat, |i: int| ERASED));
    fix
}

impl NfcpinsFix {
    #[verifier::type_invariant]
    spec fn stays_in_page(self) -> bool {
        self@.in_page()
    }

    /// The operation to carry out next.
    pub fn op(&self) -> (op: FixOp)
        ensures
            op == self@.op(),
    {
        proof {
            use_type_invariant(self);
        }
        match self.phase {
            FixPhase::Check => FixOp::ReadNfcpins,
            FixPhase::Reading(i) => FixOp::ReadWord(i),
            FixPhase::EraseMode => mode_erase(),
            FixPhase::EraseModeWait(_) => FixOp::PollReady,
            FixPhase::Erasing => FixOp::EraseUicr,
            FixPhase::EraseWait(_) => FixOp::PollReady,
            FixPhase::EraseEnd(_) => mode_read(),
            FixPhase::WriteMode => mode_write(),
            FixPhase::WriteModeWait(_) => FixOp::PollReady,
            FixPhase::Writing(i) => FixOp::WriteWord(i, self.words[i]),
            FixPhase::FinalWait(_) => FixOp::PollReady,
            FixPhase::FinalEnd(_) => mode_read(),
            FixPhase::Verify => FixOp::ReadNfcpins,
            FixPhase::Done(code) => FixOp::Done(code),
        }
    }

    fn write_from(&mut self, from: usize)
        requires
            from <= UICR_WORDS,
        ensures
            final(self)@ == old(self)@.write_from(from as int),
            final(self)@.in_page(),
    {
        let k = find_written(&self.words, from);
        if k < UICR_WORDS {
            self.phase = FixPhase::Writing(k);
        } else {
            self.phase = FixPhase::FinalWait(0);
        }
    }

    fn page_read(&mut self)
        ensures
            final(self)@ == old(self)@.page_read(),
            final(self)@.in_page(),
    {
        proof {
            use_type_invariant(&*self);
        }
        let k = find_written(&self.words, 0);
        proof {
            lemma_next_written(self.words@, 0);
            if k < UICR_WORDS {
                assert(self.words@[k as int] != ERASED);
            }
        }
        self.had_content = k < UICR_WORDS;
        self.words[NFCPINS_WORD] = 1;
        if self.had_content {
            self.phase = FixPhase::EraseMode;
        } else {
            self.phase = FixPhase::WriteMode;
        }
    }

    /// The part of the repair that erases the page, from the switch to erasing to
    /// the switch back.
    fn erase_uicr(&mut self, reply: u32)
        requires
            old(self)@.in_page(),
            old(self)@.phase is EraseMode || old(self)@.phase is EraseModeWait || old(
                self,
            )@.phase is Erasing || old(self)@.phase is EraseWait || old(self)@.phase is EraseEnd,
        ensures
            final(self)@ == old(self)@.after(reply),
            final(self)@.in_page(),
    {
        match self.phase {
            FixPhase::EraseMode => self.phase = FixPhase::EraseModeWait(0),
            FixPhase::EraseModeWait(n) => match wait_ready(n, reply) {
                Wait::Ready => self.phase = FixPhase::Erasing,
                Wait::TimedOut => self.phase = FixPhase::Done(FAILED),
                Wait::Again(m) => self.phase = FixPhase::EraseModeWait(m),
            },
            FixPhase::Erasing => self.phase = FixPhase::EraseWait(0),
            FixPhase::EraseWait(n) => match wait_ready(n, reply) {
                Wait::Ready => self.phase = FixPhase::EraseEnd(true),
                Wait::TimedOut => self.phase = FixPhase::EraseEnd(false),
                Wait::Again(m) => self.phase = FixPhase::EraseWait(m),
            },
            FixPhase::EraseEnd(ok) => if ok {
                self.phase = FixPhase::WriteMode
            } else {
                self.phase = FixPhase::Done(FAILED)
            },
            _ => {},
        }
    }

    /// Takes what the operation brought. The reply to an operation that reads
    /// nothing does not matter.
    pub fn reply(&mut self, reply: u32)
        ensures
            final(self)@ == old(self)@.after(reply),
            final(self)@.in_page(),
    {
        proof {
            use_type_invariant(&*self);
        }
        match self.phase {
            FixPhase::Check => if nfcpins_is_nfc(reply) {
                self.phase = FixPhase::Done(ALREADY_NFC)
            } else {
                self.phase = FixPhase::Reading(0)
            },
            FixPhase::Reading(i) => {
                self.words[i] = reply;
                if i + 1 < UICR_WORDS {
                    self.phase = FixPhase::Reading(i + 1)
                } else {
                    self.page_read()
                }
            },
            FixPhase::WriteMode => self.phase = FixPhase::WriteModeWait(0),
            FixPhase::WriteModeWait(n) => match wait_ready(n, reply) {
                Wait::Ready => self.write_from(0),
                Wait::TimedOut => self.phase = FixPhase::Done(FAILED),
                Wait::Again(m) => self.phase = FixPhase::WriteModeWait(m),
            },
            FixPhase::Writing(i) => self.write_from(i + 1),
            FixPhase::FinalWait(n) => match wait_ready(n, reply) {
                Wait::Ready => self.phase = FixPhase::FinalEnd(true),
                Wait::TimedOut => self.phase = FixPhase::FinalEnd(false),
                Wait::Again(m) => self.phase = FixPhase::FinalWait(m),
            },
            FixPhase::FinalEnd(ok) => if ok {
                self.phase = FixPhase::Verify
            } else {
                self.phase = FixPhase::Done(FAILED)
            },
            FixPhase::Verify => {
                let code: u32 = if !nfcpins_is_nfc(reply) {
                    FAILED
                } else if self.had_content {
                    REPAIRED
                } else {
                    WAS_EMPTY
                };
                self.phase = FixPhase::Done(code)
            },
            FixPhase::Done(_) => {},
            _ => self.erase_uicr(reply),
        }
    }
}

} // verus!
