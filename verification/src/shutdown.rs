//! Forced-shutdown state machine.
//!
//! The controller watches the time-to-shutdown signal and advances through
//! three phases: `Armed` (normal operation), `Triggered` (the threshold was
//! reached; the grace period runs), and `ShuttingDown` (the power-off
//! command has been issued; terminal). The transition out of `Armed`
//! happens on the tick whose signal is exactly zero. There is no way back:
//! reconnecting power during the grace period does not cancel the shutdown,
//! a deliberate tradeoff favoring safety over convenience.

use vstd::prelude::*;

verus! {

/// Phase of the forced shutdown.
#[derive(Clone, Copy, PartialEq, Eq, Structural, Debug)]
pub enum ShutdownPhase {
    Armed,
    Triggered,
    ShuttingDown,
}

/// How far along the one-way shutdown path a phase lies.
pub open spec fn phase_rank(p: ShutdownPhase) -> int {
    match p {
        ShutdownPhase::Armed => 0,
        ShutdownPhase::Triggered => 1,
        ShutdownPhase::ShuttingDown => 2,
    }
}

/// The shutdown controller. Its phase only ever advances.
pub struct ShutdownController {
    phase: ShutdownPhase,
}

impl ShutdownController {
    /// The current phase.
    pub closed spec fn spec_phase(&self) -> ShutdownPhase {
        self.phase
    }

    /// A fresh controller is armed.
    pub fn new() -> (c: ShutdownController)
        ensures
            c.spec_phase() == ShutdownPhase::Armed,
    {
        ShutdownController { phase: ShutdownPhase::Armed }
    }

    /// Reads the phase.
    pub fn phase(&self) -> (p: ShutdownPhase)
        ensures
            p == self.spec_phase(),
    {
        self.phase
    }

    /// Observes one tick's time-to-shutdown signal. Returns true exactly
    /// when the grace period must begin: the controller is armed and the
    /// signal is exactly zero. Any positive value — the connected sentinel
    /// included — and any absent one leaves the controller alone.
    pub fn observe(&mut self, secs_until_shutdown: Option<i64>) -> (trigger: bool)
        ensures
            trigger == (old(self).spec_phase() == ShutdownPhase::Armed && secs_until_shutdown
                == Some(0i64)),
            trigger ==> final(self).spec_phase() == ShutdownPhase::Triggered,
            !trigger ==> final(self).spec_phase() == old(self).spec_phase(),
            phase_rank(final(self).spec_phase()) >= phase_rank(old(self).spec_phase()),
    {
        let zero = match secs_until_shutdown {
            Some(v) => v == 0,
            None => false,
        };
        let armed = match self.phase {
            ShutdownPhase::Armed => true,
            _ => false,
        };
        if armed && zero {
            self.phase = ShutdownPhase::Triggered;
            true
        } else {
            false
        }
    }

    /// Records that the grace period has elapsed and the power-off command
    /// is being issued. Terminal: no further transition exists.
    pub fn begin_shutdown(&mut self)
        requires
            old(self).spec_phase() == ShutdownPhase::Triggered,
        ensures
            final(self).spec_phase() == ShutdownPhase::ShuttingDown,
            phase_rank(final(self).spec_phase()) >= phase_rank(old(self).spec_phase()),
    {
        self.phase = ShutdownPhase::ShuttingDown;
    }
}

} // verus!
