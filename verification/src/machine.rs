use crate::recurrence::{orbit, step};
use vstd::prelude::*;

verus! {

/// What a register is, whatever holds its state: the seed it was made with,
/// the value at which it stands, and the number of transitions it has made.
pub struct RegisterState {
    pub seed: u8,
    pub value: u8,
    pub steps: nat,
}

impl RegisterState {
    /// A register that has just been made with `seed`.
    pub open spec fn start(seed: u8) -> RegisterState {
        RegisterState { seed, value: seed, steps: 0 }
    }

    /// The register after one more transition. The seed stays.
    pub open spec fn advance(self) -> RegisterState {
        RegisterState { seed: self.seed, value: step(self.value), steps: self.steps + 1 }
    }

    /// The register stands where its transitions have taken it from the seed.
    pub open spec fn wf(self) -> bool {
        self.value == orbit(self.seed, self.steps)
    }
}

/// A register that has just been made is well formed.
pub proof fn lemma_start_wf(seed: u8)
    ensures
        RegisterState::start(seed).wf(),
{
}

/// A transition keeps a register well formed.
pub proof fn lemma_advance_wf(r: RegisterState)
    requires
        r.wf(),
    ensures
        r.advance().wf(),
{
}

/// Two registers made with one seed that have made equally many transitions
/// are in one state: what a register returns depends on nothing but its seed
/// and the number of calls.
pub proof fn lemma_same_seed_same_state(a: RegisterState, b: RegisterState)
    requires
        a.wf(),
        b.wf(),
        a.seed == b.seed,
        a.steps == b.steps,
    ensures
        a == b,
{
}

} // verus!
