use crate::cycle::{cycle_length, first_return, lemma_first_return, lemma_returns_after_255};
use crate::machine::RegisterState;
use crate::recurrence::orbit;
use crate::register::transition;
use vstd::prelude::*;

verus! {

/// A linear feedback shift register of eight bits over native bytes.
pub struct LFSR {
    initial_state: u8,
    state: u8,
    steps: Ghost<nat>,
}

impl View for LFSR {
    type V = RegisterState;

    closed spec fn view(&self) -> RegisterState {
        RegisterState { seed: self.initial_state, value: self.state, steps: self.steps@ }
    }
}

impl LFSR {
    /// A register that stands at `initial_state` and has made no transition.
    pub fn new(initial_state: u8) -> (r: Self)
        ensures
            r@ == RegisterState::start(initial_state),
            r@.wf(),
    {
        LFSR { initial_state, state: initial_state, steps: Ghost(0) }
    }

    /// Makes one transition and returns the value reached. The seed stays.
    pub fn next(&mut self) -> (r: u8)
        ensures
            final(self)@ == old(self)@.advance(),
            r == final(self)@.value,
            old(self)@.wf() ==> final(self)@.wf(),
    {
        self.state = transition(&self.state, &());
        self.steps = Ghost((self.steps@ + 1) as nat);
        self.state
    }

    /// The number of transitions after which a register started at the seed
    /// is first back at the seed. It is 1 for the seed zero and 255 for every
    /// other seed, so a byte always holds it. The register itself stays where
    /// it stands.
    pub fn period(&self) -> (p: u8)
        ensures
            first_return(self@.seed, p as nat),
            p == cycle_length(self@.seed),
    {
        let mut local_state: u8 = transition(&self.initial_state, &());
        let mut period: u8 = 1;
        proof {
            reveal_with_fuel(orbit, 2);
        }
        loop
            invariant
                1 <= period <= 255,
                local_state == orbit(self.initial_state, period as nat),
                forall|k: nat|
                    1 <= k < period ==> #[trigger] orbit(self.initial_state, k)
                        != self.initial_state,
            ensures
                first_return(self.initial_state, period as nat),
            decreases 255 - period,
        {
            if local_state == self.initial_state {
                break ;
            }
            proof {
                // After 255 transitions the register is back at the seed, so
                // the count stops there at the latest.
                lemma_returns_after_255(self.initial_state);
            }
            local_state = transition(&local_state, &());
            period += 1;
        }
        proof {
            lemma_first_return(self.initial_state);
        }
        period
    }
}

} // verus!
