//! Boot-time clock and core bring-up sequencing for a dual-core microcontroller.
//!
//! Every hardware access is expressed as a [`registers::Write`] issued to a
//! [`registers::RegisterBank`], which records the order of the writes and
//! models the watchdog's lock protocol and the PLL lock-status flag.

pub mod registers;
pub mod watchdog;
pub mod clock;
pub mod cores;

pub use clock::clock_init;
pub use cores::{enable_cm4, get_core_frequency};
pub use watchdog::{lock_wdt, unlock_wdt};
