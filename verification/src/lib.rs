//! Verified logic of a security-key runner for nRF52840 boards: button
//! gestures, user presence, the LED diagnostics, the repair of the NFC pins and
//! the order in which the firmware drives its transports.
//!
//! Nothing here touches hardware. Each module turns plain readings (pin levels,
//! register words, the millisecond clock) into plain decisions that the
//! firmware around it carries out.
pub mod boot;
pub mod clock;
pub mod config;
pub mod gesture;
pub mod led;
pub mod presence;
pub mod report;
pub mod runner;
pub mod supermini;
pub mod trace;
pub mod ui;
pub mod uicr;
pub mod uicr_laws;
