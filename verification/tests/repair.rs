use solo2_runner::uicr::{
    fix_nfcpins, mode_erase, mode_read, mode_write, nfcpins_is_nfc, wait_ready, FixOp, NvmcMode,
    Wait, ERASED, NFCPINS_WORD, READY_POLLS, UICR_WORDS,
};

/// A flash controller with the page.
struct Flash {
    words: Vec<u32>,
    mode: NvmcMode,
    busy: u32,
    latency: fn(FixOp) -> u32,
    writes: usize,
}

impl Flash {
    fn new(words: Vec<u32>, latency: fn(FixOp) -> u32) -> Self {
        Flash { words, mode: NvmcMode::Read, busy: 0, latency, writes: 0 }
    }

    fn perform(&mut self, op: FixOp) -> u32 {
        match op {
            FixOp::ReadNfcpins => return self.words[NFCPINS_WORD],
            FixOp::ReadWord(i) => return self.words[i],
            FixOp::Config(mode) => self.mode = mode,
            FixOp::PollReady => {
                if self.busy == 0 {
                    return 1;
                }
                self.busy -= 1;
                return 0;
            }
            FixOp::EraseUicr => {
                assert_eq!(self.mode, NvmcMode::Erase);
                self.words = vec![ERASED; UICR_WORDS];
            }
            FixOp::WriteWord(i, v) => {
                assert_eq!(self.mode, NvmcMode::Write);
                self.words[i] &= v;
                self.writes += 1;
            }
            FixOp::Done(_) => panic!("the repair is over"),
        }
        self.busy = (self.latency)(op);
        0
    }

    fn repair(&mut self) -> u32 {
        let mut fix = fix_nfcpins();
        loop {
            let op = fix.op();
            if let FixOp::Done(code) = op {
                return code;
            }
            let reply = self.perform(op);
            fix.reply(reply);
        }
    }
}

fn page() -> Vec<u32> {
    let mut words = vec![ERASED; UICR_WORDS];
    words[5] = 0x0000_1234;
    words[128] = 18;
    words[129] = 18;
    words[NFCPINS_WORD] = 0xFFFF_FFFE;
    words[255] = 0xDEAD_BEEF;
    words
}

#[test]
fn setting_is_the_lowest_bit() {
    assert!(nfcpins_is_nfc(1));
    assert!(nfcpins_is_nfc(ERASED));
    assert!(!nfcpins_is_nfc(0));
    assert!(!nfcpins_is_nfc(0xFFFF_FFFE));
}

#[test]
fn modes_are_switched_by_their_own_operation() {
    assert_eq!(mode_erase(), FixOp::Config(NvmcMode::Erase));
    assert_eq!(mode_write(), FixOp::Config(NvmcMode::Write));
    assert_eq!(mode_read(), FixOp::Config(NvmcMode::Read));
}

#[test]
fn wait_gives_up_after_the_last_look() {
    assert_eq!(wait_ready(0, 1), Wait::Ready);
    assert_eq!(wait_ready(0, 0), Wait::Again(1));
    assert_eq!(wait_ready(0, 2), Wait::Again(1));
    assert_eq!(wait_ready(READY_POLLS - 2, 0), Wait::Again(READY_POLLS - 1));
    assert_eq!(wait_ready(READY_POLLS - 1, 0), Wait::TimedOut);
    assert_eq!(wait_ready(READY_POLLS - 1, 1), Wait::Ready);
    assert_eq!(READY_POLLS, 4_000_000);
}

#[test]
fn repair_restores_everything_else() {
    let mut flash = Flash::new(page(), |_| 3);
    assert_eq!(flash.repair(), 2);
    let mut expected = page();
    expected[NFCPINS_WORD] = 1;
    assert_eq!(flash.words, expected);
    assert_eq!(flash.mode, NvmcMode::Read);
    assert_eq!(flash.writes, 5);
    // A second repair finds nothing to do.
    assert_eq!(flash.repair(), 1);
    assert_eq!(flash.words, expected);
}

#[test]
fn erased_page_is_nfc_already() {
    let mut flash = Flash::new(vec![ERASED; UICR_WORDS], |_| 0);
    assert_eq!(flash.repair(), 1);
    assert_eq!(flash.writes, 0);
}

#[test]
fn page_that_reads_empty_is_not_erased() {
    // The setting is read as GPIO, yet every word of the page reads erased.
    let mut fix = fix_nfcpins();
    assert_eq!(fix.op(), FixOp::ReadNfcpins);
    fix.reply(0);
    for i in 0..UICR_WORDS {
        assert_eq!(fix.op(), FixOp::ReadWord(i));
        fix.reply(ERASED);
    }
    assert_eq!(fix.op(), FixOp::Config(NvmcMode::Write));
    fix.reply(0);
    assert_eq!(fix.op(), FixOp::PollReady);
    fix.reply(1);
    assert_eq!(fix.op(), FixOp::WriteWord(NFCPINS_WORD, 1));
    fix.reply(0);
    assert_eq!(fix.op(), FixOp::PollReady);
    fix.reply(1);
    assert_eq!(fix.op(), FixOp::Config(NvmcMode::Read));
    fix.reply(0);
    assert_eq!(fix.op(), FixOp::ReadNfcpins);
    fix.reply(1);
    assert_eq!(fix.op(), FixOp::Done(3));
    fix.reply(0);
    assert_eq!(fix.op(), FixOp::Done(3));
}

#[test]
fn stuck_mode_switch_fails_with_the_page_untouched() {
    let mut flash = Flash::new(page(), |op| {
        if op == FixOp::Config(NvmcMode::Erase) {
            u32::MAX
        } else {
            0
        }
    });
    assert_eq!(flash.repair(), 4);
    assert_eq!(flash.words, page());
}

#[test]
fn stuck_erasure_switches_back_and_fails() {
    let mut flash = Flash::new(page(), |op| if op == FixOp::EraseUicr { u32::MAX } else { 0 });
    assert_eq!(flash.repair(), 4);
    assert_eq!(flash.mode, NvmcMode::Read);
    assert_eq!(flash.writes, 0);
}

#[test]
fn stuck_write_mode_fails() {
    let mut flash = Flash::new(page(), |op| {
        if op == FixOp::Config(NvmcMode::Write) {
            READY_POLLS
        } else {
            0
        }
    });
    assert_eq!(flash.repair(), 4);
    assert_eq!(flash.writes, 0);
}

#[test]
fn last_look_still_counts() {
    let mut flash = Flash::new(page(), |op| {
        if op == FixOp::Config(NvmcMode::Write) {
            READY_POLLS - 1
        } else {
            0
        }
    });
    assert_eq!(flash.repair(), 2);
}

#[test]
fn stuck_last_write_fails() {
    let mut flash = Flash::new(page(), |op| match op {
        FixOp::WriteWord(255, _) => u32::MAX,
        _ => 0,
    });
    assert_eq!(flash.repair(), 4);
    assert_eq!(flash.mode, NvmcMode::Read);
}

#[test]
fn setting_that_does_not_stick_fails() {
    let mut fix = fix_nfcpins();
    loop {
        let reply = match fix.op() {
            FixOp::ReadNfcpins => 0,
            FixOp::ReadWord(_) => 7,
            FixOp::PollReady => 1,
            FixOp::Done(code) => {
                assert_eq!(code, 4);
                break;
            }
            _ => 0,
        };
        fix.reply(reply);
    }
}
