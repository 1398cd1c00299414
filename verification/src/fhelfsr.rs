use crate::cipher::{fits, plain_of, EncryptedByte};
use crate::lfsr::LFSR;
use crate::machine::RegisterState;
use crate::register::{transition, BitRegister};
use tfhe::ServerKey;
use vstd::prelude::*;

verus! {

/// A linear feedback shift register of eight bits whose state is a byte
/// under encryption. It makes its transitions on the ciphertext and never
/// decrypts. The evaluation key is not part of it: the caller hands it to
/// every call.
pub struct FHELFSR {
    initial_state: EncryptedByte,
    state: EncryptedByte,
    steps: Ghost<nat>,
}

impl View for FHELFSR {
    type V = RegisterState;

    /// The register as its bytes under the encryption make it.
    closed spec fn view(&self) -> RegisterState {
        RegisterState {
            seed: plain_of(self.initial_state),
            value: plain_of(self.state),
            steps: self.steps@,
        }
    }
}

impl FHELFSR {
    /// The operators can compute on the register's ciphertexts with `key`.
    pub closed spec fn fits_key(&self, key: ServerKey) -> bool {
        fits(key, self.initial_state) && fits(key, self.state)
    }

    /// A register that stands at the byte encrypted in `initial_state` and
    /// has made no transition.
    pub fn new(initial_state: EncryptedByte, key: &ServerKey) -> (r: Self)
        requires
            fits(*key, initial_state),
        ensures
            r@ == RegisterState::start(plain_of(initial_state)),
            r@.wf(),
            r.fits_key(*key),
    {
        let state = initial_state.duplicate(key);
        FHELFSR { initial_state, state, steps: Ghost(0) }
    }

    /// Makes one transition on the ciphertext and returns a copy of the
    /// state reached. The seed stays.
    pub fn next(&mut self, key: &ServerKey) -> (r: EncryptedByte)
        requires
            old(self).fits_key(*key),
        ensures
            final(self)@ == old(self)@.advance(),
            plain_of(r) == final(self)@.value,
            final(self).fits_key(*key),
            fits(*key, r),
            old(self)@.wf() ==> final(self)@.wf(),
    {
        self.state = transition(&self.state, key);
        self.steps = Ghost((self.steps@ + 1) as nat);
        self.state.duplicate(key)
    }
}

/// An encrypted register and a plain one, made with one seed, are in one
/// state after equally many transitions: decrypting what the encrypted
/// register returns gives, call for call, what the plain register returns.
pub proof fn lemma_encrypted_follows_plain(e: FHELFSR, p: LFSR)
    requires
        e@.wf(),
        p@.wf(),
        e@.seed == p@.seed,
        e@.steps == p@.steps,
    ensures
        e@ == p@,
{
}

} // verus!
