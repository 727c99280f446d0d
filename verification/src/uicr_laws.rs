//! What the repair of the NFC pins does to the flash page, proved against a model
//! of the flash controller.
use vstd::prelude::*;
use crate::uicr::{
    FixOp, FixPhase, NvmcMode, ALREADY_NFC, ERASED, FAILED, NFCPINS_WORD, READY_POLLS, REPAIRED,
    UICR_WORDS, WAS_EMPTY, Wait,
};

verus! {

/// The flash controller with the UICR page. Programming flash can only clear
/// bits; erasing sets them all. Each operation takes a number of looks at the ready
/// register until it is finished.
pub struct Nvm {
    /// The page.
    pub words: Seq<u32>,
    /// The access mode.
    pub mode: NvmcMode,
    /// Looks until the controller is ready.
    pub busy: nat,
    /// How many looks each operation takes.
    pub latency: spec_fn(FixOp) -> nat,
}

impl Nvm {
    /// How many looks an operation takes.
    pub open spec fn takes(self, op: FixOp) -> nat {
        (self.latency)(op)
    }

    /// What an operation brings.
    pub open spec fn reply(self, op: FixOp) -> u32 {
        match op {
            FixOp::ReadNfcpins => self.words[NFCPINS_WORD as int],
            FixOp::ReadWord(i) => self.words[i as int],
            FixOp::PollReady => if self.busy == 0 {
                1
            } else {
                0
            },
            _ => 0,
        }
    }

    /// The controller after an operation.
    pub open spec fn after(self, op: FixOp) -> Nvm {
        match op {
            FixOp::Config(mode) => Nvm { mode, busy: self.takes(op), ..self },
            FixOp::PollReady => Nvm {
                busy: if self.busy == 0 {
                    0
                } else {
                    (self.busy - 1) as nat
                },
                ..self
            },
            FixOp::EraseUicr => if self.mode == NvmcMode::Erase {
                Nvm {
                    words: Seq::new(self.words.len(), |i: int| ERASED),
                    busy: self.takes(op),
                    ..self
                }
            } else {
                self
            },
            FixOp::WriteWord(i, v) => if self.mode == NvmcMode::Write {
                Nvm {
                    words: self.words.update(i as int, self.words[i as int] & v),
                    busy: self.takes(op),
                    ..self
                }
            } else {
                self
            },
            _ => self,
        }
    }

    /// The controller finishes each of these operations in time.
    pub open spec fn works(self) -> bool {
        &&& self.takes(FixOp::Config(NvmcMode::Erase)) < READY_POLLS
        &&& self.takes(FixOp::EraseUicr) < READY_POLLS
        &&& self.takes(FixOp::Config(NvmcMode::Write)) < READY_POLLS
        &&& forall|i: usize, v: u32|
            #[trigger] self.takes(FixOp::WriteWord(i, v)) < READY_POLLS
    }
}

/// A repair at work on a flash controller.
pub struct FixRun {
    /// The repair.
    pub fix: crate::uicr::FixState,
    /// The controller.
    pub nvm: Nvm,
}

impl FixRun {
    /// One operation later.
    pub open spec fn next(self) -> FixRun {
        let op = self.fix.op();
        FixRun { fix: self.fix.after(self.nvm.reply(op)), nvm: self.nvm.after(op) }
    }

    /// `n` operations later.
    pub open spec fn run(self, n: nat) -> FixRun
        decreases n,
    {
        if n == 0 {
            self
        } else {
            self.next().run((n - 1) as nat)
        }
    }

    /// Some number of operations later it is `end`.
    pub open spec fn reaches(self, end: FixRun) -> bool {
        exists|n: nat| #[trigger] self.run(n) == end
    }
}

proof fn lemma_run_sum(c: FixRun, a: nat, b: nat)
    ensures
        c.run(a + b) == c.run(a).run(b),
    decreases a,
{
    if a > 0 {
        lemma_run_sum(c.next(), (a - 1) as nat, b);
        assert((a + b - 1) as nat == (a - 1) as nat + b);
    }
}

proof fn lemma_reach_through(a: FixRun, b: FixRun, c: FixRun)
    requires
        a.reaches(b),
        b.reaches(c),
    ensures
        a.reaches(c),
{
    let m = choose|n: nat| #[trigger] a.run(n) == b;
    let k = choose|n: nat| #[trigger] b.run(n) == c;
    lemma_run_sum(a, m, k);
    assert(a.run(m + k) == c);
}

proof fn lemma_reach_step(a: FixRun, c: FixRun)
    requires
        a.next().reaches(c),
    ensures
        a.reaches(c),
{
    let k = choose|n: nat| #[trigger] a.next().run(n) == c;
    assert(a.run(k + 1) == c);
}

proof fn lemma_reach_self(a: FixRun)
    ensures
        a.reaches(a),
{
    assert(a.run(0) == a);
}

proof fn lemma_works_still(a: Nvm, b: Nvm)
    requires
        a.works(),
        a.latency == b.latency,
    ensures
        b.works(),
{
    assert forall|i: usize, v: u32| #[trigger]
        b.takes(FixOp::WriteWord(i, v)) < READY_POLLS by {
        assert(a.takes(FixOp::WriteWord(i, v)) < READY_POLLS);
    }
    assert(a.takes(FixOp::EraseUicr) == b.takes(FixOp::EraseUicr));
    assert(a.takes(FixOp::Config(NvmcMode::Erase)) == b.takes(FixOp::Config(NvmcMode::Erase)));
    assert(a.takes(FixOp::Config(NvmcMode::Write)) == b.takes(FixOp::Config(NvmcMode::Write)));
}

proof fn lemma_ready_bits()
    ensures
        crate::uicr::says_ready(1),
        !crate::uicr::says_ready(0),
{
    assert(1u32 & 1u32 != 0) by (bit_vector);
    assert(0u32 & 1u32 == 0) by (bit_vector);
}

spec fn waiting(k: int, n: u32) -> FixPhase {
    if k == 0 {
        FixPhase::EraseModeWait(n)
    } else if k == 1 {
        FixPhase::EraseWait(n)
    } else if k == 2 {
        FixPhase::WriteModeWait(n)
    } else {
        FixPhase::FinalWait(n)
    }
}

proof fn lemma_wait_succeeds(c: FixRun, k: int, n: u32)
    requires
        c.fix.phase == waiting(k, n),
        n + c.nvm.busy < READY_POLLS,
    ensures
        c.reaches(FixRun { fix: c.fix.after(1), nvm: Nvm { busy: 0, ..c.nvm } }),
    decreases c.nvm.busy,
{
    lemma_ready_bits();
    let end = FixRun { fix: c.fix.after(1), nvm: Nvm { busy: 0, ..c.nvm } };
    if c.nvm.busy == 0 {
        assert(c.next() == end);
        lemma_reach_self(end);
    } else {
        let d = c.next();
        assert(d.fix == c.fix.at(waiting(k, (n + 1) as u32)));
        lemma_wait_succeeds(d, k, (n + 1) as u32);
        assert(d.fix.after(1) == c.fix.after(1));
    }
    lemma_reach_step(c, end);
}

proof fn lemma_wait_fails(c: FixRun, k: int, n: u32)
    requires
        c.fix.phase == waiting(k, n),
        n < READY_POLLS,
        c.nvm.busy >= READY_POLLS - n,
    ensures
        c.reaches(
            FixRun {
                fix: c.fix.at(waiting(k, (READY_POLLS - 1) as u32)).after(0),
                nvm: Nvm { busy: (c.nvm.busy - (READY_POLLS - n)) as nat, ..c.nvm },
            },
        ),
    decreases READY_POLLS - n,
{
    lemma_ready_bits();
    let end = FixRun {
        fix: c.fix.at(waiting(k, (READY_POLLS - 1) as u32)).after(0),
        nvm: Nvm { busy: (c.nvm.busy - (READY_POLLS - n)) as nat, ..c.nvm },
    };
    let d = c.next();
    if n + 1 >= READY_POLLS {
        assert(c.fix == c.fix.at(waiting(k, (READY_POLLS - 1) as u32)));
        assert(d == end);
        lemma_reach_self(end);
    } else {
        assert(d.fix == c.fix.at(waiting(k, (n + 1) as u32)));
        lemma_wait_fails(d, k, (n + 1) as u32);
        assert(d.fix.at(waiting(k, (READY_POLLS - 1) as u32)) == c.fix.at(
            waiting(k, (READY_POLLS - 1) as u32),
        ));
    }
    lemma_reach_step(c, end);
}

/// The repair has read the words below `i` and goes on to the end of the page.
proof fn lemma_page_is_read(c: FixRun, i: usize)
    requires
        c.fix.phase == FixPhase::Reading(i),
        i < UICR_WORDS,
        c.fix.words.len() == UICR_WORDS,
        c.nvm.words.len() == UICR_WORDS,
        forall|j: int| 0 <= j < i ==> #[trigger] c.fix.words[j] == c.nvm.words[j],
    ensures
        c.reaches(
            FixRun {
                fix: (crate::uicr::FixState { words: c.nvm.words, ..c.fix }).page_read(),
                nvm: c.nvm,
            },
        ),
    decreases UICR_WORDS - i,
{
    let end = FixRun {
        fix: (crate::uicr::FixState { words: c.nvm.words, ..c.fix }).page_read(),
        nvm: c.nvm,
    };
    let d = c.next();
    let words = c.fix.words.update(i as int, c.nvm.words[i as int]);
    if i + 1 < UICR_WORDS {
        assert(d.fix.words == words);
        lemma_page_is_read(d, (i + 1) as usize);
        assert((crate::uicr::FixState { words: c.nvm.words, ..d.fix }).page_read() == (
        crate::uicr::FixState { words: c.nvm.words, ..c.fix }).page_read());
    } else {
        assert(words =~= c.nvm.words);
        assert(d == end);
        lemma_reach_self(end);
    }
    lemma_reach_step(c, end);
}

/// The repair has written the words below `i` of the image `words` and goes on to
/// the end of the page.
proof fn lemma_page_is_written(c: FixRun, i: int) -> (b: nat)
    requires
        0 <= i <= UICR_WORDS,
        c.fix.words.len() == UICR_WORDS,
        c.nvm.words.len() == UICR_WORDS,
        c.nvm.mode == NvmcMode::Write,
        c.nvm.works(),
        c.nvm.busy < READY_POLLS,
        forall|j: int| 0 <= j < i ==> #[trigger] c.nvm.words[j] == c.fix.words[j],
        forall|j: int| i <= j < UICR_WORDS ==> #[trigger] c.nvm.words[j] == ERASED,
    ensures
        b < READY_POLLS,
        (FixRun { fix: c.fix.write_from(i), nvm: c.nvm }).reaches(
            FixRun {
                fix: c.fix.at(FixPhase::FinalWait(0)),
                nvm: Nvm { words: c.fix.words, busy: b, ..c.nvm },
            },
        ),
    decreases UICR_WORDS - i,
{
    let words = c.fix.words;
    let k = crate::uicr::next_written(words, i);
    let from = FixRun { fix: c.fix.write_from(i), nvm: c.nvm };
    crate::uicr::lemma_next_written(words, i);
    if k >= UICR_WORDS {
        assert(c.nvm.words =~= words);
        lemma_reach_self(from);
        c.nvm.busy
    } else {
        let v = words[k];
        let d = from.next();
        assert(c.nvm.words[k] == ERASED);
        assert(0xFFFF_FFFFu32 & v == v) by (bit_vector);
        assert(d.nvm == c.nvm.after(FixOp::WriteWord(k as usize, v)));
        assert(d.nvm.words == c.nvm.words.update(k, v));
        assert(d.fix == c.fix.at(FixPhase::Writing(k as usize)).write_from(k + 1));
        assert(d.fix == c.fix.write_from(k + 1));
        let e = FixRun { fix: c.fix, nvm: d.nvm };
        assert(d == FixRun { fix: e.fix.write_from(k + 1), nvm: e.nvm });
        assert forall|j: int| 0 <= j < k + 1 implies #[trigger] e.nvm.words[j] == e.fix.words[j] by {
            if j < i {
                assert(c.nvm.words[j] == c.fix.words[j]);
            } else if j < k {
                assert(words[j] == ERASED);
                assert(c.nvm.words[j] == ERASED);
            }
        }
        assert forall|j: int| k + 1 <= j < UICR_WORDS implies #[trigger] e.nvm.words[j]
            == ERASED by {
            assert(c.nvm.words[j] == ERASED);
        }
        lemma_works_still(c.nvm, e.nvm);
        let b = lemma_page_is_written(e, k + 1);
        let end = FixRun {
            fix: c.fix.at(FixPhase::FinalWait(0)),
            nvm: Nvm { words, busy: b, ..c.nvm },
        };
        lemma_reach_step(from, end);
        b
    }
}

/// The repair from the switch to writing to its end, on an erased page.
proof fn lemma_erased_page_is_restored(c: FixRun)
    requires
        c.fix.phase == FixPhase::WriteMode,
        c.fix.had_content,
        c.fix.words.len() == UICR_WORDS,
        c.fix.words[NFCPINS_WORD as int] == 1,
        c.nvm.words == Seq::new(UICR_WORDS as nat, |i: int| ERASED),
        c.nvm.works(),
    ensures
        exists|n: nat|
            ({
                let end = #[trigger] c.run(n);
                &&& end.fix.phase == FixPhase::Done(REPAIRED)
                &&& end.nvm.words == c.fix.words
                &&& end.nvm.mode == NvmcMode::Read
            }),
{
    lemma_ready_bits();
    let words = c.fix.words;
    let wait = c.next();
    lemma_reach_self(wait);
    lemma_reach_step(c, wait);
    lemma_wait_succeeds(wait, 2, 0);
    let writing = FixRun { fix: wait.fix.after(1), nvm: Nvm { busy: 0, ..wait.nvm } };
    lemma_reach_through(c, wait, writing);
    let base = FixRun { fix: c.fix, nvm: writing.nvm };
    assert(writing.fix == c.fix.write_from(0));
    lemma_works_still(c.nvm, base.nvm);
    let b = lemma_page_is_written(base, 0);
    let written = FixRun {
        fix: c.fix.at(FixPhase::FinalWait(0)),
        nvm: Nvm { words, busy: b, ..writing.nvm },
    };
    lemma_reach_through(c, writing, written);
    lemma_wait_succeeds(written, 3, 0);
    let ended = FixRun { fix: written.fix.after(1), nvm: Nvm { busy: 0, ..written.nvm } };
    lemma_reach_through(c, written, ended);
    assert(ended.fix.phase == FixPhase::FinalEnd(true));
    let verify = ended.next();
    let done = verify.next();
    assert(crate::uicr::says_nfc(1)) by {
        assert(1u32 & 1u32 != 0) by (bit_vector);
    }
    assert(done.fix.phase == FixPhase::Done(REPAIRED));
    lemma_reach_self(done);
    lemma_reach_step(verify, done);
    lemma_reach_step(ended, done);
    lemma_reach_through(c, ended, done);
    let n = choose|n: nat| #[trigger] c.run(n) == done;
    assert(c.run(n) == done);
}

/// On a flash controller that works, a repair of pins that are not NFC pins ends
/// with the code for success; every word of the page is as it was, except the pin
/// setting, which now says NFC; and the controller is back in its reading mode.
pub proof fn law_repair_keeps_the_rest_of_the_page(start: FixRun)
    requires
        start.fix.fresh(),
        start.nvm.words.len() == UICR_WORDS,
        !crate::uicr::says_nfc(start.nvm.words[NFCPINS_WORD as int]),
        start.nvm.works(),
    ensures
        exists|n: nat|
            ({
                let end = #[trigger] start.run(n);
                &&& end.fix.phase == FixPhase::Done(REPAIRED)
                &&& end.nvm.words == start.nvm.words.update(NFCPINS_WORD as int, 1)
                &&& end.nvm.mode == NvmcMode::Read
            }),
{
    lemma_ready_bits();
    let page = start.nvm.words;
    assert(page[NFCPINS_WORD as int] != ERASED) by {
        assert(0xFFFF_FFFFu32 & 1u32 != 0) by (bit_vector);
    }
    assert(crate::uicr::has_content(page));
    let reading = start.next();
    lemma_reach_self(reading);
    lemma_reach_step(start, reading);
    lemma_page_is_read(reading, 0);
    let read = FixRun {
        fix: (crate::uicr::FixState { words: page, ..reading.fix }).page_read(),
        nvm: reading.nvm,
    };
    lemma_reach_through(start, reading, read);
    assert(read.fix.phase == FixPhase::EraseMode);
    let wait = read.next();
    lemma_reach_self(wait);
    lemma_reach_step(read, wait);
    lemma_wait_succeeds(wait, 0, 0);
    let erasing = FixRun { fix: wait.fix.after(1), nvm: Nvm { busy: 0, ..wait.nvm } };
    lemma_reach_through(read, wait, erasing);
    lemma_reach_through(start, read, erasing);
    let erased = erasing.next();
    lemma_reach_self(erased);
    lemma_reach_step(erasing, erased);
    lemma_wait_succeeds(erased, 1, 0);
    let closing = FixRun { fix: erased.fix.after(1), nvm: Nvm { busy: 0, ..erased.nvm } };
    lemma_reach_through(erasing, erased, closing);
    lemma_reach_through(start, erasing, closing);
    let write = closing.next();
    lemma_reach_self(write);
    lemma_reach_step(closing, write);
    lemma_reach_through(start, closing, write);
    assert(write.fix.words == page.update(NFCPINS_WORD as int, 1));
    assert(write.nvm.words =~= Seq::new(UICR_WORDS as nat, |i: int| ERASED));
    lemma_works_still(start.nvm, write.nvm);
    lemma_erased_page_is_restored(write);
    let k = choose|n: nat|
        ({
            let end = #[trigger] write.run(n);
            &&& end.fix.phase == FixPhase::Done(REPAIRED)
            &&& end.nvm.words == write.fix.words
            &&& end.nvm.mode == NvmcMode::Read
        });
    let m = choose|n: nat| #[trigger] start.run(n) == write;
    lemma_run_sum(start, m, k);
    assert(start.run(m + k) == write.run(k));
}

/// Pins that are NFC pins already, an erased page's included, are left alone: the
/// repair is over after one look and nothing was changed.
pub proof fn law_nfc_pins_are_left_alone(start: FixRun)
    requires
        start.fix.fresh(),
        crate::uicr::says_nfc(start.nvm.words[NFCPINS_WORD as int]),
    ensures
        start.run(1).fix.phase == FixPhase::Done(ALREADY_NFC),
        start.run(1).nvm == start.nvm,
{
    reveal_with_fuel(FixRun::run, 2);
}

/// An erased page gives the pins to NFC.
pub proof fn law_erased_page_says_nfc()
    ensures
        crate::uicr::says_nfc(ERASED),
{
    assert(0xFFFF_FFFFu32 & 1u32 != 0) by (bit_vector);
}

/// A flash controller that does not switch to erasing makes the repair fail with
/// the page untouched.
pub proof fn law_stuck_controller_costs_nothing(start: FixRun)
    requires
        start.fix.fresh(),
        start.nvm.words.len() == UICR_WORDS,
        !crate::uicr::says_nfc(start.nvm.words[NFCPINS_WORD as int]),
        start.nvm.takes(FixOp::Config(NvmcMode::Erase)) >= READY_POLLS,
    ensures
        exists|n: nat|
            ({
                let end = #[trigger] start.run(n);
                &&& end.fix.phase == FixPhase::Done(FAILED)
                &&& end.nvm.words == start.nvm.words
            }),
{
    lemma_ready_bits();
    let page = start.nvm.words;
    assert(page[NFCPINS_WORD as int] != ERASED) by {
        law_erased_page_says_nfc();
    }
    assert(crate::uicr::has_content(page));
    let reading = start.next();
    lemma_reach_self(reading);
    lemma_reach_step(start, reading);
    lemma_page_is_read(reading, 0);
    let read = FixRun {
        fix: (crate::uicr::FixState { words: page, ..reading.fix }).page_read(),
        nvm: reading.nvm,
    };
    lemma_reach_through(start, reading, read);
    let wait = read.next();
    lemma_reach_self(wait);
    lemma_reach_step(read, wait);
    lemma_reach_through(start, read, wait);
    lemma_wait_fails(wait, 0, 0);
    let end = FixRun {
        fix: wait.fix.at(waiting(0, (READY_POLLS - 1) as u32)).after(0),
        nvm: Nvm { busy: (wait.nvm.busy - READY_POLLS) as nat, ..wait.nvm },
    };
    lemma_reach_through(start, wait, end);
    let n = choose|n: nat| #[trigger] start.run(n) == end;
    assert(start.run(n).fix.phase == FixPhase::Done(FAILED));
}

/// How many operations a repair has left at most.
pub open spec fn operations_left(fix: crate::uicr::FixState) -> int {
    let polls = READY_POLLS as int;
    match fix.phase {
        FixPhase::Done(_) => 0,
        FixPhase::Verify => 1,
        FixPhase::FinalEnd(_) => 2,
        FixPhase::FinalWait(n) => if n < polls {
            2 + polls - n
        } else {
            3
        },
        FixPhase::Writing(i) => 2 + polls + UICR_WORDS - i,
        FixPhase::WriteModeWait(n) => 2 + polls + UICR_WORDS + (if n < polls {
            polls - n
        } else {
            1
        }),
        FixPhase::WriteMode => 3 + 2 * polls + UICR_WORDS,
        FixPhase::EraseEnd(_) => 4 + 2 * polls + UICR_WORDS,
        FixPhase::EraseWait(n) => 4 + 2 * polls + UICR_WORDS + (if n < polls {
            polls - n
        } else {
            1
        }),
        FixPhase::Erasing => 5 + 3 * polls + UICR_WORDS,
        FixPhase::EraseModeWait(n) => 5 + 3 * polls + UICR_WORDS + (if n < polls {
            polls - n
        } else {
            1
        }),
        FixPhase::EraseMode => 6 + 4 * polls + UICR_WORDS,
        FixPhase::Reading(i) => 6 + 4 * polls + 2 * UICR_WORDS - i,
        FixPhase::Check => 7 + 4 * polls + 2 * UICR_WORDS,
    }
}

/// Whatever the hardware answers, a repair comes to an end: each reply leaves fewer
/// operations, and none are left only when it is over.
pub proof fn law_repair_ends(fix: crate::uicr::FixState, reply: u32)
    requires
        fix.in_page(),
    ensures
        operations_left(fix) >= 0,
        fix.phase is Done <==> operations_left(fix) == 0,
        fix.phase !is Done ==> operations_left(fix.after(reply)) < operations_left(fix),
        fix.phase is Done ==> fix.after(reply) == fix,
        fix.after(reply).in_page(),
{
    match fix.phase {
        FixPhase::WriteModeWait(_) => {
            crate::uicr::lemma_next_written(fix.words, 0);
        },
        FixPhase::Writing(i) => {
            crate::uicr::lemma_next_written(fix.words, i + 1);
        },
        _ => {},
    }
}

/// A repair reports success only after it has read the pin setting back and found
/// it to say NFC, and every end has one of the four codes.
pub proof fn law_success_is_read_back(fix: crate::uicr::FixState, reply: u32)
    requires
        fix.phase !is Done,
        fix.after(reply).phase is Done,
    ensures
        ({
            let code = fix.after(reply).phase->Done_0;
            &&& code == ALREADY_NFC || code == REPAIRED || code == WAS_EMPTY || code == FAILED
            &&& code != FAILED ==> fix.op() == FixOp::ReadNfcpins && crate::uicr::says_nfc(reply)
        }),
{
}

/// Whatever the hardware answers, a repair writes words of the image it read, with
/// the pin setting changed, and never a word that is erased anyway.
pub proof fn law_only_the_image_is_written(fix: crate::uicr::FixState, reply: u32)
    requires
        fix.in_page(),
        fix.after(reply).phase is Writing,
    ensures
        ({
            let i = fix.after(reply).phase->Writing_0;
            &&& fix.after(reply).op() == FixOp::WriteWord(i, fix.words[i as int])
            &&& fix.words[i as int] != ERASED
            &&& fix.after(reply).words == fix.words
        }),
{
    crate::uicr::lemma_next_written(fix.words, 0);
    match fix.phase {
        FixPhase::Writing(i) => {
            crate::uicr::lemma_next_written(fix.words, i + 1);
        },
        _ => {},
    }
}

proof fn lemma_success_is_on_the_page(c: FixRun, n: nat)
    requires
        c.fix.phase matches FixPhase::Done(code) ==> code == FAILED || crate::uicr::says_nfc(
            c.nvm.words[NFCPINS_WORD as int],
        ),
    ensures
        c.run(n).fix.phase matches FixPhase::Done(code) ==> code == FAILED
            || crate::uicr::says_nfc(c.run(n).nvm.words[NFCPINS_WORD as int]),
    decreases n,
{
    if n > 0 {
        if c.fix.phase !is Done && c.next().fix.phase is Done {
            law_success_is_read_back(c.fix, c.nvm.reply(c.fix.op()));
        }
        lemma_success_is_on_the_page(c.next(), (n - 1) as nat);
    }
}

/// The repair is needed once. After one that did not fail, however the flash
/// controller behaved, the next one finds the pins to be NFC pins, answers so after
/// one look and touches nothing.
pub proof fn law_repair_is_needed_once(start: FixRun, n: nat, again: FixRun)
    requires
        start.fix.fresh(),
        start.run(n).fix.phase is Done,
        start.run(n).fix.phase != FixPhase::Done(FAILED),
        again.fix.fresh(),
        again.nvm == start.run(n).nvm,
    ensures
        again.run(1).fix.phase == FixPhase::Done(ALREADY_NFC),
        again.run(1).nvm == again.nvm,
{
    lemma_success_is_on_the_page(start, n);
    law_nfc_pins_are_left_alone(again);
}

/// The repair `fix` once its operations brought all of `replies`.
pub open spec fn replied(fix: crate::uicr::FixState, replies: Seq<u32>) -> crate::uicr::FixState
    decreases replies.len(),
{
    if replies.len() == 0 {
        fix
    } else {
        replied(fix, replies.drop_last()).after(replies.last())
    }
}

/// A wait of the repair times out with `reply`.
pub open spec fn times_out(fix: crate::uicr::FixState, reply: u32) -> bool {
    match fix.phase {
        FixPhase::EraseModeWait(n) => crate::uicr::look(n, reply) == Wait::TimedOut,
        FixPhase::EraseWait(n) => crate::uicr::look(n, reply) == Wait::TimedOut,
        FixPhase::WriteModeWait(n) => crate::uicr::look(n, reply) == Wait::TimedOut,
        FixPhase::FinalWait(n) => crate::uicr::look(n, reply) == Wait::TimedOut,
        _ => false,
    }
}

/// The repair reads the setting back at its end, and `reply` does not say NFC.
pub open spec fn did_not_stick(fix: crate::uicr::FixState, reply: u32) -> bool {
    fix.phase is Verify && !crate::uicr::says_nfc(reply)
}

/// The `i`-th of `replies` is a wait that times out or a setting that did not stick.
pub open spec fn goes_wrong(fix: crate::uicr::FixState, replies: Seq<u32>, i: int) -> bool {
    let there = replied(fix, replies.take(i));
    times_out(there, replies[i]) || did_not_stick(there, replies[i])
}

/// The repair has failed, though it may still switch back to reading.
spec fn failing(fix: crate::uicr::FixState) -> bool {
    fix.phase == FixPhase::Done(FAILED) || fix.phase == FixPhase::EraseEnd(false) || fix.phase
        == FixPhase::FinalEnd(false)
}

proof fn lemma_failing(fix: crate::uicr::FixState, replies: Seq<u32>)
    requires
        !failing(fix),
    ensures
        failing(replied(fix, replies)) <==> exists|i: int|
            0 <= i < replies.len() && #[trigger] goes_wrong(fix, replies, i),
    decreases replies.len(),
{
    if replies.len() > 0 {
        let init = replies.drop_last();
        let k = replies.len() - 1;
        lemma_failing(fix, init);
        assert(replies.take(k) =~= init);
        assert forall|i: int| 0 <= i < k implies goes_wrong(fix, replies, i) == goes_wrong(
            fix,
            init,
            i,
        ) by {
            assert(replies.take(i) =~= init.take(i));
        }
        let there = replied(fix, init);
        assert(failing(there.after(replies.last())) == (failing(there) || goes_wrong(
            fix,
            replies,
            k,
        )));
        if failing(there) {
            let i = choose|i: int| 0 <= i < init.len() && #[trigger] goes_wrong(fix, init, i);
            assert(goes_wrong(fix, replies, i));
        }
        if exists|i: int| 0 <= i < replies.len() && #[trigger] goes_wrong(fix, replies, i) {
            let i = choose|i: int| 0 <= i < replies.len() && #[trigger] goes_wrong(fix, replies, i);
            assert(i < k ==> goes_wrong(fix, init, i));
        }
    }
}

/// Over a whole repair, whatever the hardware answers: it ends with the code for
/// failure exactly when some wait timed out or the setting, read back at the end, did
/// not say NFC.
pub proof fn law_failure_has_a_cause(fix: crate::uicr::FixState, replies: Seq<u32>)
    requires
        fix.fresh(),
        replied(fix, replies).phase is Done,
    ensures
        replied(fix, replies).phase == FixPhase::Done(FAILED) <==> exists|i: int|
            0 <= i < replies.len() && #[trigger] goes_wrong(fix, replies, i),
{
    lemma_failing(fix, replies);
}

/// The words that a repair has written once its operations brought all of `replies`:
/// each with its place in the page, in the order of the writes.
pub open spec fn written(fix: crate::uicr::FixState, replies: Seq<u32>) -> Seq<(usize, u32)>
    decreases replies.len(),
{
    if replies.len() == 0 {
        Seq::empty()
    } else {
        let before = written(fix, replies.drop_last());
        match replied(fix, replies.drop_last()).op() {
            FixOp::WriteWord(i, v) => before.push((i, v)),
            _ => before,
        }
    }
}

/// The page has been read.
spec fn page_known(fix: crate::uicr::FixState) -> bool {
    fix.phase !is Check && fix.phase !is Reading && fix.phase != FixPhase::Done(ALREADY_NFC)
}

/// The repair is in the part that erases the page.
spec fn in_erasure(fix: crate::uicr::FixState) -> bool {
    fix.phase is EraseMode || fix.phase is EraseModeWait || fix.phase is Erasing || fix.phase
        is EraseWait || fix.phase is EraseEnd
}

/// The repair is past its writes.
spec fn past_writes(fix: crate::uicr::FixState) -> bool {
    fix.phase is FinalWait || fix.phase is FinalEnd || fix.phase is Verify
}

/// The image of an empty page.
spec fn empty_image() -> Seq<u32> {
    Seq::new(UICR_WORDS as nat, |i: int| ERASED).update(NFCPINS_WORD as int, 1)
}

/// The `i`-th operation of a repair on an empty page: what it reads is erased, it erases
/// nothing, and it writes the pin setting only.
pub open spec fn finds_empty(fix: crate::uicr::FixState, replies: Seq<u32>, i: int) -> bool {
    let op = replied(fix, replies.take(i)).op();
    &&& op is ReadWord ==> replies[i] == ERASED
    &&& op !is EraseUicr
    &&& op is WriteWord ==> op == FixOp::WriteWord(NFCPINS_WORD, 1)
}

/// Every operation so far is one of a repair on an empty page.
spec fn empty_so_far(fix: crate::uicr::FixState, replies: Seq<u32>) -> bool {
    forall|i: int| 0 <= i < replies.len() ==> #[trigger] finds_empty(fix, replies, i)
}

proof fn lemma_empty_image()
    ensures
        crate::uicr::next_written(empty_image(), 0) == NFCPINS_WORD,
        crate::uicr::next_written(empty_image(), NFCPINS_WORD + 1) == UICR_WORDS,
{
    let words = empty_image();
    crate::uicr::lemma_next_written(words, 0);
    crate::uicr::lemma_next_written(words, NFCPINS_WORD + 1);
    assert(words[NFCPINS_WORD as int] != ERASED);
}

proof fn lemma_empty_so_far(fix: crate::uicr::FixState, replies: Seq<u32>)
    requires
        replies.len() > 0,
        empty_so_far(fix, replies.drop_last()),
        finds_empty(fix, replies, replies.len() - 1),
    ensures
        empty_so_far(fix, replies),
{
    let init = replies.drop_last();
    assert forall|i: int| 0 <= i < replies.len() implies #[trigger] finds_empty(
        fix,
        replies,
        i,
    ) by {
        if i < init.len() {
            assert(finds_empty(fix, init, i));
            assert(replies.take(i) =~= init.take(i));
        }
    }
}

/// A repair looks at the setting first and never comes back to that.
proof fn lemma_check_is_first(fix: crate::uicr::FixState, replies: Seq<u32>)
    requires
        fix.fresh(),
        replied(fix, replies).phase is Check,
    ensures
        replies.len() == 0,
{
}

proof fn lemma_code_of_empty(fix: crate::uicr::FixState, replies: Seq<u32>)
    requires
        fix.fresh(),
    ensures
        replied(fix, replies).phase == FixPhase::Done(WAS_EMPTY) ==> !replied(
            fix,
            replies,
        ).had_content,
    decreases replies.len(),
{
    if replies.len() > 0 {
        lemma_code_of_empty(fix, replies.drop_last());
    }
}

/// What a repair that takes the page for empty has done so far.
proof fn lemma_empty_page(fix: crate::uicr::FixState, replies: Seq<u32>)
    requires
        fix.fresh(),
    ensures
        ({
            let now = replied(fix, replies);
            &&& now.in_page()
            &&& in_erasure(now) ==> now.had_content
            &&& now.phase == FixPhase::Check ==> now == fix
            &&& !page_known(now) ==> !now.had_content && written(fix, replies) == Seq::<
                (usize, u32),
            >::empty()
            &&& now.phase is Reading ==> {
                let i = now.phase->Reading_0;
                &&& forall|j: int| i <= j < UICR_WORDS ==> #[trigger] now.words[j] == ERASED
                &&& !crate::uicr::has_content(now.words) ==> empty_so_far(fix, replies)
            }
            &&& page_known(now) && !now.had_content ==> now.words == empty_image() && empty_so_far(
                fix,
                replies,
            )
            &&& !now.had_content && (now.phase is WriteMode || now.phase is WriteModeWait
                || now.phase is Writing) ==> written(fix, replies) == Seq::<(usize, u32)>::empty()
            &&& !now.had_content && now.phase is Writing ==> now.phase == FixPhase::Writing(
                NFCPINS_WORD,
            )
            &&& !now.had_content && (past_writes(now) || now.phase == FixPhase::Done(WAS_EMPTY))
                ==> written(fix, replies) == seq![(NFCPINS_WORD, 1u32)]
        }),
    decreases replies.len(),
{
    if replies.len() > 0 {
        let init = replies.drop_last();
        let k = replies.len() - 1;
        let reply = replies.last();
        lemma_empty_page(fix, init);
        let was = replied(fix, init);
        let now = replied(fix, replies);
        assert(replies.take(k) =~= init);
        law_repair_ends(was, reply);
        lemma_empty_image();
        match was.phase {
            FixPhase::Check => {
                assert(empty_so_far(fix, init)) by {
                    lemma_check_is_first(fix, init);
                }
                assert(finds_empty(fix, replies, k));
                lemma_empty_so_far(fix, replies);
            },
            FixPhase::Reading(i) => {
                let read = was.words.update(i as int, reply);
                if !crate::uicr::has_content(read) {
                    assert(read[i as int] == reply);
                    assert(reply == ERASED);
                    assert(!crate::uicr::has_content(was.words)) by {
                        assert forall|j: int| 0 <= j < was.words.len() implies #[trigger] was.words[j]
                            == ERASED by {
                            assert(read[j] == ERASED);
                        }
                    }
                    assert(finds_empty(fix, replies, k));
                    lemma_empty_so_far(fix, replies);
                    if i + 1 == UICR_WORDS {
                        assert(read =~= Seq::new(UICR_WORDS as nat, |j: int| ERASED)) by {
                            assert forall|j: int| 0 <= j < read.len() implies #[trigger] read[j]
                                == ERASED by {}
                        }
                    }
                }
            },
            _ => {
                if page_known(was) && !was.had_content {
                    assert(finds_empty(fix, replies, k));
                    lemma_empty_so_far(fix, replies);
                }
            },
        }
    }
}

/// The code for an empty page means that every word read was erased, that nothing was
/// erased, and that one word was written: the pin setting, as one.
pub proof fn law_empty_page_gets_the_setting_only(fix: crate::uicr::FixState, replies: Seq<u32>)
    requires
        fix.fresh(),
        replied(fix, replies).phase == FixPhase::Done(WAS_EMPTY),
    ensures
        forall|i: int| 0 <= i < replies.len() ==> #[trigger] finds_empty(fix, replies, i),
        written(fix, replies) == seq![(NFCPINS_WORD, 1u32)],
{
    lemma_empty_page(fix, replies);
    lemma_code_of_empty(fix, replies);
}

/// The repair has not begun to write.
spec fn before_writes(fix: crate::uicr::FixState) -> bool {
    fix.phase is Check || fix.phase is Reading || in_erasure(fix) || fix.phase is WriteMode
        || fix.phase is WriteModeWait
}

proof fn lemma_nothing_written_before(fix: crate::uicr::FixState, replies: Seq<u32>)
    requires
        fix.fresh(),
        before_writes(replied(fix, replies)),
    ensures
        written(fix, replies) == Seq::<(usize, u32)>::empty(),
    decreases replies.len(),
{
    if replies.len() > 0 {
        let was = replied(fix, replies.drop_last());
        assert(before_writes(was));
        lemma_nothing_written_before(fix, replies.drop_last());
    }
}

/// A wait that times out while the page is erased, or while the controller switches to
/// erasing or to writing, ends the repair in failure with no word written, whatever the
/// hardware answers afterwards.
pub proof fn law_early_timeout_writes_nothing(fix: crate::uicr::FixState, replies: Seq<u32>, i: int)
    requires
        fix.fresh(),
        0 <= i < replies.len(),
        times_out(replied(fix, replies.take(i)), replies[i]),
        replied(fix, replies.take(i)).phase !is FinalWait,
    ensures
        written(fix, replies) == Seq::<(usize, u32)>::empty(),
        replied(fix, replies).phase == FixPhase::EraseEnd(false) || replied(fix, replies).phase
            == FixPhase::Done(FAILED),
    decreases replies.len(),
{
    let init = replies.drop_last();
    if i == replies.len() - 1 {
        assert(replies.take(i) =~= init);
        lemma_nothing_written_before(fix, init);
    } else {
        assert(replies.take(i) =~= init.take(i));
        law_early_timeout_writes_nothing(fix, init, i);
    }
}

/// The mode that the flash controller was last switched to, from reading at the start,
/// once the operations of a repair brought all of `replies`.
pub open spec fn mode_set(fix: crate::uicr::FixState, replies: Seq<u32>) -> NvmcMode
    decreases replies.len(),
{
    if replies.len() == 0 {
        NvmcMode::Read
    } else {
        match replied(fix, replies.drop_last()).op() {
            FixOp::Config(mode) => mode,
            _ => mode_set(fix, replies.drop_last()),
        }
    }
}

/// A switch to erasing or to writing times out with the `i`-th of `replies`.
pub open spec fn switch_fails(fix: crate::uicr::FixState, replies: Seq<u32>, i: int) -> bool {
    let there = replied(fix, replies.take(i));
    times_out(there, replies[i]) && (there.phase is EraseModeWait || there.phase is WriteModeWait)
}

proof fn lemma_mode(fix: crate::uicr::FixState, replies: Seq<u32>)
    requires
        fix.fresh(),
    ensures
        ({
            let now = replied(fix, replies);
            let mode = mode_set(fix, replies);
            &&& now.phase is Check || now.phase is Reading || now.phase is EraseMode || now.phase
                is WriteMode || now.phase is Verify ==> mode == NvmcMode::Read
            &&& now.phase is EraseModeWait || now.phase is Erasing || now.phase is EraseWait
                || now.phase is EraseEnd ==> mode == NvmcMode::Erase
            &&& now.phase is WriteModeWait || now.phase is Writing || now.phase is FinalWait
                || now.phase is FinalEnd ==> mode == NvmcMode::Write
            &&& now.phase is Done && mode != NvmcMode::Read ==> exists|i: int|
                0 <= i < replies.len() && #[trigger] switch_fails(fix, replies, i)
        }),
    decreases replies.len(),
{
    if replies.len() > 0 {
        let init = replies.drop_last();
        let k = replies.len() - 1;
        lemma_mode(fix, init);
        assert(replies.take(k) =~= init);
        let was = replied(fix, init);
        let now = replied(fix, replies);
        if now.phase is Done && mode_set(fix, replies) != NvmcMode::Read {
            if was.phase is Done {
                let i = choose|i: int| 0 <= i < init.len() && #[trigger] switch_fails(fix, init, i);
                assert(replies.take(i) =~= init.take(i));
                assert(switch_fails(fix, replies, i));
            } else {
                assert(switch_fails(fix, replies, k));
            }
        }
    }
}

/// A repair erases only while the controller is set to erasing and writes only while it
/// is set to writing. However it ends, it leaves the controller reading, unless a switch
/// to erasing or to writing timed out.
pub proof fn law_controller_is_left_reading(fix: crate::uicr::FixState, replies: Seq<u32>)
    requires
        fix.fresh(),
    ensures
        replied(fix, replies).op() is EraseUicr ==> mode_set(fix, replies) == NvmcMode::Erase,
        replied(fix, replies).op() is WriteWord ==> mode_set(fix, replies) == NvmcMode::Write,
        replied(fix, replies).phase is Done ==> mode_set(fix, replies) == NvmcMode::Read
            || exists|i: int|
            0 <= i < replies.len() && #[trigger] switch_fails(fix, replies, i),
{
    lemma_mode(fix, replies);
}

/// Every change is waited for. After a switch to erasing or to writing, after the erasure
/// and after the last write the ready register is asked, and asked again until it says
/// ready or the wait is given up. Nothing is erased, written or read back before it does.
pub proof fn law_changes_are_waited_for(fix: crate::uicr::FixState, reply: u32)
    requires
        fix.in_page(),
    ensures
        ({
            let next = fix.after(reply).op();
            &&& fix.op() == FixOp::Config(NvmcMode::Erase) || fix.op() == FixOp::Config(
                NvmcMode::Write,
            ) || fix.op() is EraseUicr ==> next is PollReady
            &&& fix.op() is WriteWord ==> next is WriteWord || next is PollReady
            &&& fix.op() is PollReady && reply % 2 == 1 ==> !(next is PollReady) || fix.phase
                is WriteModeWait
            &&& fix.op() is PollReady && reply % 2 == 0 ==> next is PollReady || times_out(
                fix,
                reply,
            )
            &&& next is EraseUicr ==> fix.op() is PollReady && reply % 2 == 1
            &&& next is WriteWord ==> fix.op() is WriteWord || (fix.op() is PollReady && reply % 2
                == 1)
        }),
{
    crate::uicr::law_lowest_bit_counts(reply);
    law_repair_ends(fix, reply);
}

/// The first look decides whether there is anything to do: a setting that says NFC, by
/// its lowest bit, ends the repair with the code for that, for good; any other setting
/// never does.
pub proof fn law_first_look_decides(fix: crate::uicr::FixState, replies: Seq<u32>)
    requires
        fix.fresh(),
        replies.len() > 0,
    ensures
        fix.op() == FixOp::ReadNfcpins,
        replies[0] % 2 == 1 <==> replied(fix, replies).phase == FixPhase::Done(ALREADY_NFC),
        replied(fix, replies).phase !is Check,
        replies[0] % 2 == 1 ==> written(fix, replies) == Seq::<(usize, u32)>::empty(),
    decreases replies.len(),
{
    crate::uicr::law_lowest_bit_counts(replies[0]);
    let init = replies.drop_last();
    if init.len() == 0 {
        assert(replied(fix, init) == fix);
        assert(written(fix, init) == Seq::<(usize, u32)>::empty());
    } else {
        assert(init[0] == replies[0]);
        law_first_look_decides(fix, init);
    }
}

/// The `i`-th operation of a repair erases the page.
pub open spec fn erases(fix: crate::uicr::FixState, replies: Seq<u32>, i: int) -> bool {
    replied(fix, replies.take(i)).op() is EraseUicr
}

/// The `i`-th operation of a repair reads a word that is not erased.
pub open spec fn finds_content(fix: crate::uicr::FixState, replies: Seq<u32>, i: int) -> bool {
    replied(fix, replies.take(i)).op() is ReadWord && replies[i] != ERASED
}

proof fn lemma_repaired(fix: crate::uicr::FixState, replies: Seq<u32>)
    requires
        fix.fresh(),
    ensures
        ({
            let now = replied(fix, replies);
            let content = exists|i: int|
                0 <= i < replies.len() && #[trigger] finds_content(fix, replies, i);
            &&& now.in_page()
            &&& now.phase is Check || now.phase is Reading ==> !now.had_content
            &&& now.phase is Check ==> now.words == fix.words
            &&& now.phase is Reading && crate::uicr::has_content(now.words) ==> content
            &&& now.had_content ==> content
            &&& now.phase == FixPhase::Done(REPAIRED) ==> now.had_content
            &&& now.had_content && (now.phase is EraseWait || now.phase is EraseEnd || now.phase
                is WriteMode || now.phase is WriteModeWait || now.phase is Writing || past_writes(
                now,
            ) || now.phase == FixPhase::Done(REPAIRED)) ==> exists|i: int|
                0 <= i < replies.len() && #[trigger] erases(fix, replies, i)
        }),
    decreases replies.len(),
{
    if replies.len() > 0 {
        let init = replies.drop_last();
        let k = replies.len() - 1;
        let reply = replies.last();
        lemma_repaired(fix, init);
        let was = replied(fix, init);
        let now = replied(fix, replies);
        assert(replies.take(k) =~= init);
        law_repair_ends(was, reply);
        if exists|i: int| 0 <= i < init.len() && #[trigger] finds_content(fix, init, i) {
            let i = choose|i: int| 0 <= i < init.len() && #[trigger] finds_content(fix, init, i);
            assert(replies.take(i) =~= init.take(i));
            assert(finds_content(fix, replies, i));
        }
        if exists|i: int| 0 <= i < init.len() && #[trigger] erases(fix, init, i) {
            let i = choose|i: int| 0 <= i < init.len() && #[trigger] erases(fix, init, i);
            assert(replies.take(i) =~= init.take(i));
            assert(erases(fix, replies, i));
        }
        if was.phase is Reading {
            let read = was.words.update(was.phase->Reading_0 as int, reply);
            if reply != ERASED {
                assert(finds_content(fix, replies, k));
            } else if crate::uicr::has_content(read) {
                let j = choose|j: int| 0 <= j < read.len() && #[trigger] read[j] != ERASED;
                assert(was.words[j] != ERASED);
            }
        }
        if was.phase is Erasing {
            assert(erases(fix, replies, k));
        }
    }
}

/// The code for a repaired page means that some word read was not erased, and that the
/// page was erased.
pub proof fn law_repaired_page_was_erased(fix: crate::uicr::FixState, replies: Seq<u32>)
    requires
        fix.fresh(),
        replied(fix, replies).phase == FixPhase::Done(REPAIRED),
    ensures
        exists|i: int| 0 <= i < replies.len() && #[trigger] finds_content(fix, replies, i),
        exists|i: int| 0 <= i < replies.len() && #[trigger] erases(fix, replies, i),
{
    lemma_repaired(fix, replies);
}

} // verus!
