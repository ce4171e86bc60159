//! Firmware revision values and the compatibility gate the loader applies
//! to them before touching any other firmware service.

use vstd::prelude::*;

verus! {

/// Lowest firmware major revision the loader can run on. Below it the core
/// table layouts differ and continuing is unsafe.
pub const MIN_SUPPORTED_MAJOR: u16 = 2;

/// Lowest minor revision at which every optional capability the loader may
/// use is present. Below it execution continues in a degraded mode.
pub const PREFERRED_MINOR: u16 = 30;

/// A firmware specification version, read once from the system table at
/// boot and never mutated afterwards.
#[derive(Clone, Copy, PartialEq, Eq, Structural, Debug)]
pub struct Revision {
    pub major: u16,
    pub minor: u16,
}

/// Outcome of holding a revision against the loader's requirements.
#[derive(Clone, Copy, PartialEq, Eq, Structural, Debug)]
pub enum RevisionCheck {
    /// The major revision is below `MIN_SUPPORTED_MAJOR`: fatal, the boot
    /// sequence halts before any output or memory service is used.
    Incompatible,
    /// The major revision is acceptable but the minor revision is below
    /// `PREFERRED_MINOR`: execution continues after a degraded-capability
    /// warning is reported.
    Degraded,
    /// Both thresholds are met; nothing is reported.
    Compatible,
}

/// How a revision classifies under `check_revision`.
pub open spec fn revision_class(rev: Revision) -> RevisionCheck {
    if rev.major < MIN_SUPPORTED_MAJOR {
        RevisionCheck::Incompatible
    } else if rev.minor < PREFERRED_MINOR {
        RevisionCheck::Degraded
    } else {
        RevisionCheck::Compatible
    }
}

impl Revision {
    pub fn new(major: u16, minor: u16) -> (r: Revision)
        ensures
            r.major == major,
            r.minor == minor,
    {
        Revision { major, minor }
    }

    /// Unpack the 32-bit encoding used in the system table header: the
    /// major revision in the upper half, the minor in the lower half.
    pub fn from_packed(packed: u32) -> (r: Revision)
        ensures
            r.major == packed / 0x10000,
            r.minor == packed % 0x10000,
    {
        let major: u16 = (packed >> 16u32) as u16;
        let minor: u16 = (packed & 0xFFFF) as u16;
        proof {
            assert((packed >> 16u32) as u16 == packed / 0x10000
                && (packed & 0xFFFF) as u16 == packed % 0x10000) by (bit_vector);
        }
        Revision { major, minor }
    }
}

/// Classify the firmware revision against the loader's requirements.
pub fn check_revision(rev: Revision) -> (c: RevisionCheck)
    ensures
        c == revision_class(rev),
{
    if rev.major < MIN_SUPPORTED_MAJOR {
        RevisionCheck::Incompatible
    } else if rev.minor < PREFERRED_MINOR {
        RevisionCheck::Degraded
    } else {
        RevisionCheck::Compatible
    }
}

} // verus!
