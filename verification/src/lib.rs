//! Early-boot platform abstraction layer for an OS loader running on
//! firmware, before any kernel is loaded.
//!
//! The crate gathers what the rest of the loader needs from the platform:
//! a compatibility gate over the firmware revision, a manager aggregating
//! the output capabilities of the current boot session, the sequencing of
//! the boot handoff, and a page-granular memory-services ledger.

pub mod boot;
pub mod memory;
pub mod platform;
pub mod revision;
