//! What a firmware image is built for: the board and the optional parts.
use vstd::prelude::*;

verus! {

/// The boards that the runner knows.
#[derive(Copy, Clone, Debug, PartialEq, Eq, Structural)]
pub enum Board {
    /// Nordic nRF52840-DK.
    Dk,
    /// Solo.
    Solo,
    /// SuperMini, a nice!nano-compatible board.
    Supermini,
}

/// The optional parts of an image.
#[derive(Copy, Clone, Debug, PartialEq, Eq, Structural)]
pub struct Features {
    /// The board.
    pub board: Board,
    /// USB smart-card transport.
    pub ccid: bool,
    /// Wallet application with its own USB transport.
    pub wallet: bool,
    /// Presence can be forced from a debugger. Never for shipped firmware.
    pub test_up_control: bool,
    /// LED report of what the USB driver does.
    pub led_diag: bool,
    /// LED mirror of the button pins.
    pub pin_diag: bool,
    /// Repair of the NFC pins.
    pub nfc_fix: bool,
    /// LED indication of the reader's field.
    pub nfc_diag: bool,
}

/// Why a choice of features makes no image.
#[derive(Copy, Clone, Debug, PartialEq, Eq, Structural)]
pub enum ConfigError {
    /// More than one board is chosen.
    BoardsExclude,
    /// No board is chosen.
    NoBoard,
    /// The field indication is chosen without the repair of the NFC pins.
    NfcDiagWithoutFix,
}

/// How many of the three flags are set.
pub open spec fn chosen(dk: bool, solo: bool, supermini: bool) -> int {
    (if dk { 1int } else { 0 }) + (if solo { 1int } else { 0 }) + (if supermini { 1int } else { 0 })
}

/// The board that the three flags choose. They exclude one another and one of
/// them has to be set.
pub fn select_board(dk: bool, solo: bool, supermini: bool) -> (r: Result<Board, ConfigError>)
    ensures
        r == Err::<Board, ConfigError>(ConfigError::BoardsExclude) <==> chosen(dk, solo, supermini)
            > 1,
        r == Err::<Board, ConfigError>(ConfigError::NoBoard) <==> chosen(dk, solo, supermini) == 0,
        r is Ok <==> chosen(dk, solo, supermini) == 1,
        r is Ok ==> r->Ok_0 == (if dk {
            Board::Dk
        } else if solo {
            Board::Solo
        } else {
            Board::Supermini
        }),
{
    if (dk && solo) || (dk && supermini) || (solo && supermini) {
        Err(ConfigError::BoardsExclude)
    } else if dk {
        Ok(Board::Dk)
    } else if solo {
        Ok(Board::Solo)
    } else if supermini {
        Ok(Board::Supermini)
    } else {
        Err(ConfigError::NoBoard)
    }
}

impl Features {
    /// The features can be built together.
    pub open spec fn valid(self) -> bool {
        self.nfc_diag ==> self.nfc_fix
    }

    /// Tells whether the features can be built together: the field indication
    /// comes only with the repair of the NFC pins.
    pub fn check(&self) -> (r: Result<(), ConfigError>)
        ensures
            r is Ok <==> self.valid(),
            r is Err ==> r->Err_0 == ConfigError::NfcDiagWithoutFix,
    {
        if self.nfc_diag && !self.nfc_fix {
            Err(ConfigError::NfcDiagWithoutFix)
        } else {
            Ok(())
        }
    }
}

/// The repair of the NFC pins can be built with anything, and so can whatever does without
/// the field indication; the field indication without the repair cannot be built,
/// whatever the board and the other features are.
pub proof fn law_field_indication_needs_the_repair(f: Features)
    ensures
        (Features { nfc_fix: true, ..f }).valid(),
        (Features { nfc_diag: false, ..f }).valid(),
        !(Features { nfc_diag: true, nfc_fix: false, ..f }).valid(),
{
}

/// The name of the linker memory layout for `board`. The SuperMini's bootloader
/// leaves another layout than the other boards have.
pub fn memory_source(board: Board) -> (name: &'static str)
    ensures
        name@ == (if board == Board::Supermini {
            "memory.x.supermini"@
        } else {
            "memory.x"@
        }),
{
    match board {
        Board::Supermini => "memory.x.supermini",
        Board::Dk => "memory.x",
        Board::Solo => "memory.x",
    }
}

} // verus!
