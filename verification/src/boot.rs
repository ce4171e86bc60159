//! The boot handoff sequence: the decisions of the firmware-invoked entry
//! point, kept as a small state machine that the platform entry code drives.
//!
//! The entry code performs the outside work — initializing diagnostics,
//! reporting the degraded-capability warning, calling into loader-main,
//! handing the final status to firmware — and asks this module, step by
//! step, what is permitted next.

use vstd::prelude::*;
use crate::revision::{Revision, RevisionCheck, revision_class, check_revision};
use crate::revision::{MIN_SUPPORTED_MAJOR, PREFERRED_MINOR};

verus! {

/// Result code handed back to firmware when the entry point returns.
/// A fatal revision mismatch halts without ever constructing one; failure
/// codes are firmware-defined and lie outside this layer.
#[derive(Clone, Copy, PartialEq, Eq, Structural, Debug)]
pub enum Status {
    Success,
}

/// What the entry point must do next after reading the firmware revision.
#[derive(Clone, Copy, PartialEq, Eq, Structural, Debug)]
pub enum BootStep {
    /// Fatal: the revision gate failed. Halt at once; no platform manager
    /// is built, loader-main is not invoked, no `Status` is returned.
    Halt,
    /// Proceed: construct the platform manager and invoke loader-main,
    /// after reporting a degraded-capability warning if `warn_degraded`.
    RunLoader { warn_degraded: bool },
}

/// The step the revision gate prescribes for a revision.
pub open spec fn boot_step_of(rev: Revision) -> BootStep {
    match revision_class(rev) {
        RevisionCheck::Incompatible => BootStep::Halt,
        RevisionCheck::Degraded => BootStep::RunLoader { warn_degraded: true },
        RevisionCheck::Compatible => BootStep::RunLoader { warn_degraded: false },
    }
}

/// Phases of one boot attempt, in the only order the sequencer permits.
#[derive(Clone, Copy, PartialEq, Eq, Structural, Debug)]
pub enum BootPhase {
    /// Nothing validated yet; only diagnostics may be initialized here.
    Start,
    /// The revision gate passed; `degraded` records whether the warning
    /// was owed. Output devices may now be used.
    Validated { degraded: bool },
    /// The revision gate failed. Terminal: no transition leaves it.
    Halted,
    /// Control was handed to loader-main.
    LoaderInvoked,
    /// Loader-main returned and the success status was produced. Terminal.
    Done,
}

/// The phase the sequencer reaches by applying the revision gate in `Start`.
pub open spec fn phase_after_validate(rev: Revision) -> BootPhase {
    match revision_class(rev) {
        RevisionCheck::Incompatible => BootPhase::Halted,
        RevisionCheck::Degraded => BootPhase::Validated { degraded: true },
        RevisionCheck::Compatible => BootPhase::Validated { degraded: false },
    }
}

/// Decision core of the firmware-invoked entry point. It records the phase
/// of the current boot attempt; its contracts admit each transition exactly
/// once and in order, so the revision gate always precedes loader-main and
/// the success status is produced at most once per boot attempt.
pub struct BootSequencer {
    phase: BootPhase,
}

impl BootSequencer {
    /// The phase this boot attempt is in.
    pub closed spec fn phase(&self) -> BootPhase {
        self.phase
    }

    /// A fresh boot attempt, before any validation.
    pub fn new() -> (s: BootSequencer)
        ensures
            s.phase() == BootPhase::Start,
    {
        BootSequencer { phase: BootPhase::Start }
    }

    /// The current phase, for the entry code.
    pub fn current_phase(&self) -> (p: BootPhase)
        ensures
            p == self.phase(),
    {
        self.phase
    }

    /// Apply the revision gate. Callable exactly once, before any output
    /// or memory service is used; the step returned is what the entry code
    /// must do next.
    pub fn validate(&mut self, rev: Revision) -> (step: BootStep)
        requires
            old(self).phase() == BootPhase::Start,
        ensures
            step == boot_step_of(rev),
            final(self).phase() == phase_after_validate(rev),
    {
        match check_revision(rev) {
            RevisionCheck::Incompatible => {
                self.phase = BootPhase::Halted;
                BootStep::Halt
            },
            RevisionCheck::Degraded => {
                self.phase = BootPhase::Validated { degraded: true };
                BootStep::RunLoader { warn_degraded: true }
            },
            RevisionCheck::Compatible => {
                self.phase = BootPhase::Validated { degraded: false };
                BootStep::RunLoader { warn_degraded: false }
            },
        }
    }

    /// Record that control is being handed to loader-main. Only reachable
    /// after successful validation, never from `Halted`.
    pub fn begin_loader(&mut self)
        requires
            old(self).phase() matches BootPhase::Validated { .. },
        ensures
            final(self).phase() == BootPhase::LoaderInvoked,
    {
        self.phase = BootPhase::LoaderInvoked;
    }

    /// Produce the status handed back to firmware after loader-main
    /// returned normally. Terminal: the success status of a boot attempt
    /// is produced at most once.
    pub fn complete(&mut self) -> (s: Status)
        requires
            old(self).phase() == BootPhase::LoaderInvoked,
        ensures
            s == Status::Success,
            final(self).phase() == BootPhase::Done,
    {
        self.phase = BootPhase::Done;
        Status::Success
    }
}

/// Law: a revision whose major is below `MIN_SUPPORTED_MAJOR` prescribes a
/// halt — validation leaves the sequencer in `Halted`, from which neither
/// `begin_loader` nor `complete` is admitted, so loader-main is never
/// invoked and no status is ever returned for such a revision.
pub proof fn lemma_incompatible_halts(rev: Revision)
    requires
        rev.major < MIN_SUPPORTED_MAJOR,
    ensures
        boot_step_of(rev) == BootStep::Halt,
        phase_after_validate(rev) == BootPhase::Halted,
{
}

/// Law: an acceptable major with a minor below `PREFERRED_MINOR` proceeds
/// to loader-main, with the degraded-capability warning owed.
pub proof fn lemma_degraded_warns_and_proceeds(rev: Revision)
    requires
        rev.major >= MIN_SUPPORTED_MAJOR,
        rev.minor < PREFERRED_MINOR,
    ensures
        boot_step_of(rev) == (BootStep::RunLoader { warn_degraded: true }),
        phase_after_validate(rev) == (BootPhase::Validated { degraded: true }),
{
}

/// Law: a revision meeting both thresholds proceeds exactly as the degraded
/// path does, except that no warning is owed.
pub proof fn lemma_compatible_proceeds_silently(rev: Revision)
    requires
        rev.major >= MIN_SUPPORTED_MAJOR,
        rev.minor >= PREFERRED_MINOR,
    ensures
        boot_step_of(rev) == (BootStep::RunLoader { warn_degraded: false }),
        phase_after_validate(rev) == (BootPhase::Validated { degraded: false }),
{
}

} // verus!
