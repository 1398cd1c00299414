//! An eight-bit linear feedback shift register in two domains: over native
//! bytes, and over bytes under homomorphic encryption, where every transition
//! is computed on the ciphertext. One transition routine serves both, and
//! both are proved to follow one recurrence, whose cycles are proved here:
//! zero is a fixed point and the 255 nonzero bytes form a single cycle.

pub mod cipher;
pub mod cycle;
pub mod fhelfsr;
pub mod lfsr;
pub mod machine;
pub mod recurrence;
pub mod register;
