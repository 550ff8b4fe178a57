use vstd::prelude::*;

verus! {

/// The ordered phases of a protocol run.
#[derive(Clone, Copy, Debug, PartialEq, Eq, Structural)]
pub enum Phase {
    Standby,
    Keygen,
    Signing,
}

/// Number of phases in the fixed sequence.
pub const PHASE_COUNT: usize = 3;

/// The phase at position `i` of the sequence `[Standby, Keygen, Signing]`.
pub open spec fn phase_at(i: nat) -> Phase {
    if i == 0 {
        Phase::Standby
    } else if i == 1 {
        Phase::Keygen
    } else {
        Phase::Signing
    }
}

/// A forward-only cursor over the phase sequence.
pub struct PhaseMachine {
    index: usize,
}

impl PhaseMachine {
    /// Position of the cursor in the phase sequence.
    pub closed spec fn position(&self) -> nat {
        self.index as nat
    }

    pub closed spec fn wf(&self) -> bool {
        self.index < PHASE_COUNT
    }

    /// A cursor at the first phase.
    pub fn new() -> (r: PhaseMachine)
        ensures
            r.wf(),
            r.position() == 0,
    {
        PhaseMachine { index: 0 }
    }

    pub fn current(&self) -> (r: Phase)
        requires
            self.wf(),
        ensures
            r == phase_at(self.position()),
    {
        if self.index == 0 {
            Phase::Standby
        } else if self.index == 1 {
            Phase::Keygen
        } else {
            Phase::Signing
        }
    }

    /// Moves to the next phase and returns it; at the last phase it stays put.
    pub fn advance(&mut self) -> (r: Phase)
        requires
            old(self).wf(),
        ensures
            final(self).wf(),
            final(self).position() == if old(self).position() + 1 < PHASE_COUNT {
                old(self).position() + 1
            } else {
                old(self).position()
            },
            r == phase_at(final(self).position()),
    {
        if self.index + 1 < PHASE_COUNT {
            self.index = self.index + 1;
        }
        self.current()
    }
}

} // verus!
