//! What happens between reset and the idle loop.
use vstd::prelude::*;
use crate::config::Features;
use crate::gesture::Gesture;
use crate::presence::{Level, Presence, PresenceInputs};

verus! {

/// The rate of the CPU clock that drives the millisecond clock.
pub const SYSTICK_FREQ_HZ: u32 = 64_000_000;

/// The forced presence of a test image: every request is granted.
pub const FORCED_AT_BOOT: u8 = 129;

/// One operation of the start.
#[derive(Copy, Clone, Debug, PartialEq, Eq, Structural)]
pub enum BootOp {
    /// Repair the NFC pins.
    FixNfcpins,
    /// Set the forced presence code.
    ForcePresence(u8),
    /// Blink so often, lit and dark for so many CPU cycles.
    Blink(u32, u32, u32),
    /// Wait so many CPU cycles.
    Spin(u32),
    /// Clear the reset reasons of the mask.
    ClearResetReason(u32),
    /// Start the millisecond clock from a CPU clock of this rate.
    StartClock(u32),
    /// Set up the board.
    SetUpBoard,
    /// Start the keep-alive pump.
    StartKeepalive,
    /// Start the NDEF clock.
    StartNdefClock,
}

/// The code of the reason for a reset: 1 the reset pin, 2 the watchdog, 3 a reset
/// by software, 4 a lockup of the CPU, 5 anything else. Where there are several
/// reasons the first of these counts.
pub open spec fn reset_reason(reas: u32) -> u32 {
    if reas & 1 != 0 {
        1
    } else if reas & 2 != 0 {
        2
    } else if reas & 4 != 0 {
        3
    } else if reas & 8 != 0 {
        4
    } else {
        5
    }
}

/// The code of the reason for a reset, from the lowest bit that is set.
pub fn reset_code(reas: u32) -> (code: u32)
    ensures
        code == reset_reason(reas),
{
    let zeros = reas.trailing_zeros();
    proof {
        vstd::std_specs::bits::axiom_u32_trailing_zeros(reas);
        assert((reas >> 0u32) & 1 == 0 <==> reas & 1 == 0) by (bit_vector);
        assert((reas >> 1u32) & 1 == 0 <==> reas & 2 == 0) by (bit_vector);
        assert((reas >> 2u32) & 1 == 0 <==> reas & 4 == 0) by (bit_vector);
        assert((reas >> 3u32) & 1 == 0 <==> reas & 8 == 0) by (bit_vector);
    }
    if zeros + 1 < 5 {
        zeros + 1
    } else {
        5
    }
}

/// The operations, if they take part.
pub open spec fn given(takes_part: bool, ops: Seq<BootOp>) -> Seq<BootOp> {
    if takes_part {
        ops
    } else {
        Seq::empty()
    }
}

/// The start of an image whose reset reasons are `reas`. With LED diagnostics it
/// greets (two long blinks: the code has got control), signs (seven short ones)
/// and blinks the reason for the reset, if there is one.
pub open spec fn boot_plan(f: Features, reas: u32) -> Seq<BootOp> {
    given(f.nfc_fix, seq![BootOp::FixNfcpins])
        + given(f.test_up_control, seq![BootOp::ForcePresence(FORCED_AT_BOOT)])
        + given(
        f.led_diag,
        seq![
            BootOp::Blink(2, 40_000_000, 12_000_000),
            BootOp::Spin(24_000_000),
            BootOp::Blink(7, 4_000_000, 4_000_000),
            BootOp::Spin(48_000_000),
        ],
    ) + seq![BootOp::ClearResetReason(reas)] + given(
        f.led_diag && reas != 0,
        seq![BootOp::Blink(reset_reason(reas), 8_000_000, 8_000_000), BootOp::Spin(24_000_000)],
    ) + seq![
        BootOp::StartClock(SYSTICK_FREQ_HZ),
        BootOp::SetUpBoard,
        BootOp::StartKeepalive,
        BootOp::StartNdefClock,
    ]
}

/// The number of places in the plan.
const PLACES: u8 = 13;

spec fn place(f: Features, reas: u32, k: int) -> Option<BootOp> {
    if k == 0 && f.nfc_fix {
        Some(BootOp::FixNfcpins)
    } else if k == 1 && f.test_up_control {
        Some(BootOp::ForcePresence(FORCED_AT_BOOT))
    } else if k == 2 && f.led_diag {
        Some(BootOp::Blink(2, 40_000_000, 12_000_000))
    } else if k == 3 && f.led_diag {
        Some(BootOp::Spin(24_000_000))
    } else if k == 4 && f.led_diag {
        Some(BootOp::Blink(7, 4_000_000, 4_000_000))
    } else if k == 5 && f.led_diag {
        Some(BootOp::Spin(48_000_000))
    } else if k == 6 {
        Some(BootOp::ClearResetReason(reas))
    } else if k == 7 && f.led_diag && reas != 0 {
        Some(BootOp::Blink(reset_reason(reas), 8_000_000, 8_000_000))
    } else if k == 8 && f.led_diag && reas != 0 {
        Some(BootOp::Spin(24_000_000))
    } else if k == 9 {
        Some(BootOp::StartClock(SYSTICK_FREQ_HZ))
    } else if k == 10 {
        Some(BootOp::SetUpBoard)
    } else if k == 11 {
        Some(BootOp::StartKeepalive)
    } else if k == 12 {
        Some(BootOp::StartNdefClock)
    } else {
        None
    }
}

spec fn plan_from(f: Features, reas: u32, k: int) -> Seq<BootOp>
    decreases PLACES - k,
{
    if k >= PLACES {
        Seq::empty()
    } else {
        (if place(f, reas, k) is Some {
            seq![place(f, reas, k)->0]
        } else {
            Seq::empty()
        }) + plan_from(f, reas, k + 1)
    }
}

proof fn lemma_boot_plan(f: Features, reas: u32)
    ensures
        plan_from(f, reas, 0) == boot_plan(f, reas),
{
    reveal_with_fuel(plan_from, 14);
    assert(plan_from(f, reas, 0) =~= boot_plan(f, reas));
}

fn op_at(f: &Features, reas: u32, k: u8) -> (op: Option<BootOp>)
    ensures
        op == place(*f, reas, k as int),
{
    if k == 0 && f.nfc_fix {
        Some(BootOp::FixNfcpins)
    } else if k == 1 && f.test_up_control {
        Some(BootOp::ForcePresence(FORCED_AT_BOOT))
    } else if k == 2 && f.led_diag {
        Some(BootOp::Blink(2, 40_000_000, 12_000_000))
    } else if k == 3 && f.led_diag {
        Some(BootOp::Spin(24_000_000))
    } else if k == 4 && f.led_diag {
        Some(BootOp::Blink(7, 4_000_000, 4_000_000))
    } else if k == 5 && f.led_diag {
        Some(BootOp::Spin(48_000_000))
    } else if k == 6 {
        Some(BootOp::ClearResetReason(reas))
    } else if k == 7 && f.led_diag && reas != 0 {
        Some(BootOp::Blink(reset_code(reas), 8_000_000, 8_000_000))
    } else if k == 8 && f.led_diag && reas != 0 {
        Some(BootOp::Spin(24_000_000))
    } else if k == 9 {
        Some(BootOp::StartClock(SYSTICK_FREQ_HZ))
    } else if k == 10 {
        Some(BootOp::SetUpBoard)
    } else if k == 11 {
        Some(BootOp::StartKeepalive)
    } else if k == 12 {
        Some(BootOp::StartNdefClock)
    } else {
        None
    }
}

/// The start being carried out.
pub struct Boot {
    features: Features,
    reas: u32,
    at: u8,
}

impl View for Boot {
    type V = Seq<BootOp>;

    /// The operations still to come.
    closed spec fn view(&self) -> Seq<BootOp> {
        plan_from(self.features, self.reas, self.at as int)
    }
}

impl Boot {
    /// The start of an image whose reset reasons are `reas`.
    pub fn new(features: Features, reas: u32) -> (b: Self)
        ensures
            b@ == boot_plan(features, reas),
    {
        proof {
            lemma_boot_plan(features, reas);
        }
        Boot { features, reas, at: 0 }
    }

    /// The next operation, or nothing when the idle loop is to begin.
    pub fn next(&mut self) -> (op: Option<BootOp>)
        ensures
            old(self)@.len() == 0 ==> op is None && final(self)@ == old(self)@,
            old(self)@.len() > 0 ==> op == Some(old(self)@[0]) && final(self)@ == old(self)@.skip(1),
    {
        let ghost f = self.features;
        let ghost reas = self.reas;
        let ghost before = self@;
        let mut k: u8 = self.at;
        while k < PLACES && op_at(&self.features, self.reas, k).is_none()
            invariant
                self.features == f,
                self.reas == reas,
                plan_from(f, reas, k as int) == before,
            decreases PLACES - k,
        {
            assert(plan_from(f, reas, k as int) =~= plan_from(f, reas, k + 1));
            k = k + 1;
        }
        if k >= PLACES {
            self.at = PLACES;
            return None;
        }
        assert(before =~= seq![place(f, reas, k as int)->0] + plan_from(f, reas, k + 1));
        self.at = k + 1;
        assert(before.skip(1) =~= self@);
        op_at(&self.features, self.reas, k)
    }
}

/// Without LED diagnostics the start leaves the LED alone, and whatever is built
/// in, every reset reason found is cleared exactly once, so that the next start
/// finds its own.
pub proof fn law_reset_reason_is_cleared(f: Features, reas: u32, i: int)
    requires
        0 <= i < boot_plan(f, reas).len(),
    ensures
        boot_plan(f, reas)[i] is Blink ==> f.led_diag,
        boot_plan(f, reas)[i] is ClearResetReason <==> i == (if f.nfc_fix {
            1int
        } else {
            0
        }) + (if f.test_up_control {
            1int
        } else {
            0
        }) + (if f.led_diag {
            4int
        } else {
            0
        }),
        boot_plan(f, reas)[i] is ClearResetReason ==> boot_plan(f, reas)[i]
            == BootOp::ClearResetReason(reas),
{
}

/// In a test image the code set at the start grants every request, again and again,
/// whatever the buttons and the reader say; no other image sets a code.
pub proof fn law_test_image_grants_every_request(
    f: Features,
    reas: u32,
    i: int,
    inputs: PresenceInputs,
    held: Gesture,
)
    requires
        0 <= i < boot_plan(f, reas).len(),
        boot_plan(f, reas)[i] is ForcePresence,
    ensures
        f.test_up_control,
        ({
            let code = boot_plan(f, reas)[i]->ForcePresence_0;
            &&& crate::presence::presence(f, code, inputs, held) == Presence::Grant(Level::Normal)
            &&& crate::presence::forced_after(f, code) == code
        }),
{
}

/// The code of a reset is the place of the lowest reason bit among the first four, and
/// five if none of them is set.
pub proof fn law_reset_code_is_the_lowest_reason(reas: u32)
    ensures
        reset_reason(reas) == 1 <==> reas % 2 == 1,
        reset_reason(reas) == 2 <==> reas % 4 == 2,
        reset_reason(reas) == 3 <==> reas % 8 == 4,
        reset_reason(reas) == 4 <==> reas % 16 == 8,
        reset_reason(reas) == 5 <==> reas % 16 == 0,
{
    assert(reas & 1 != 0 <==> reas % 2 == 1) by (bit_vector);
    assert(reas & 1 == 0 ==> (reas & 2 != 0 <==> reas % 4 == 2)) by (bit_vector);
    assert(reas & 3 == 0 ==> (reas & 4 != 0 <==> reas % 8 == 4)) by (bit_vector);
    assert(reas & 7 == 0 ==> (reas & 8 != 0 <==> reas % 16 == 8)) by (bit_vector);
    assert(reas & 15 == 0 <==> reas % 16 == 0) by (bit_vector);
    assert(reas & 1 == 0 && reas & 2 == 0 <==> reas & 3 == 0) by (bit_vector);
    assert(reas & 3 == 0 && reas & 4 == 0 <==> reas & 7 == 0) by (bit_vector);
    assert(reas & 7 == 0 && reas & 8 == 0 <==> reas & 15 == 0) by (bit_vector);
}

/// How many operations come before the reset reason is cleared.
pub open spec fn before_clearing(f: Features) -> int {
    (if f.nfc_fix {
        1int
    } else {
        0
    }) + (if f.test_up_control {
        1int
    } else {
        0
    }) + (if f.led_diag {
        4int
    } else {
        0
    })
}

/// The start, place by place, for every image. The repair of the pins comes first and the
/// forced presence next, each exactly in the images that have it. LED diagnostics greet
/// and sign before the reset reason is cleared.
pub proof fn law_start_before_clearing(f: Features, reas: u32)
    ensures
        f.nfc_fix ==> boot_plan(f, reas)[0] == BootOp::FixNfcpins,
        f.test_up_control ==> boot_plan(f, reas)[(if f.nfc_fix {
            1int
        } else {
            0
        })] == BootOp::ForcePresence(129),
        f.led_diag ==> {
            let k = before_clearing(f);
            &&& boot_plan(f, reas)[k - 4] == BootOp::Blink(2, 40_000_000, 12_000_000)
            &&& boot_plan(f, reas)[k - 3] == BootOp::Spin(24_000_000)
            &&& boot_plan(f, reas)[k - 2] == BootOp::Blink(7, 4_000_000, 4_000_000)
            &&& boot_plan(f, reas)[k - 1] == BootOp::Spin(48_000_000)
        },
        boot_plan(f, reas)[before_clearing(f)] == BootOp::ClearResetReason(reas),
{
}

/// After the reset reason is cleared it is blinked, exactly with LED diagnostics and a
/// reason to blink. Then every image starts the clock, sets up the board, and starts the
/// keep-alive and the NDEF clock, in this order, and is done.
pub proof fn law_start_after_clearing(f: Features, reas: u32)
    ensures
        ({
            let plan = boot_plan(f, reas);
            let blinked: int = if f.led_diag && reas != 0 {
                2
            } else {
                0
            };
            let k = before_clearing(f) + 1;
            &&& plan.len() == k + blinked + 4
            &&& blinked == 2 ==> plan[k] == BootOp::Blink(reset_reason(reas), 8_000_000, 8_000_000)
            &&& blinked == 2 ==> plan[k + 1] == BootOp::Spin(24_000_000)
            &&& plan[plan.len() - 4] == BootOp::StartClock(64_000_000)
            &&& plan[plan.len() - 3] == BootOp::SetUpBoard
            &&& plan[plan.len() - 2] == BootOp::StartKeepalive
            &&& plan[plan.len() - 1] == BootOp::StartNdefClock
        }),
{
}

} // verus!
