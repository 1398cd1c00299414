use crate::recurrence::step;
use vstd::prelude::*;

verus! {

/// What the transition needs of a register: the five bitwise operators on a
/// byte and a way to copy it. Each operator leaves its operands as they are
/// and hands back a new register. A native byte is one such register; a byte
/// under encryption is another.
///
/// The operators compute with a key that the caller hands to each of them.
/// A native byte needs none and takes the empty tuple; a byte under
/// encryption takes the evaluation key of its scheme.
pub trait BitRegister: Sized {
    /// What the operators compute with besides the registers.
    type Key;

    /// The byte that the register holds.
    spec fn value(&self) -> u8;

    /// The operators can work on this register with `key`.
    spec fn fits_key(&self, key: Self::Key) -> bool;

    /// A second register holding the same byte.
    fn duplicate(&self, key: &Self::Key) -> (r: Self)
        requires
            self.fits_key(*key),
        ensures
            r.fits_key(*key),
            r.value() == self.value(),
    ;

    /// Bitwise exclusive or of two registers.
    fn xor(&self, other: &Self, key: &Self::Key) -> (r: Self)
        requires
            self.fits_key(*key),
            other.fits_key(*key),
        ensures
            r.fits_key(*key),
            r.value() == self.value() ^ other.value(),
    ;

    /// Bitwise or of two registers.
    fn or(&self, other: &Self, key: &Self::Key) -> (r: Self)
        requires
            self.fits_key(*key),
            other.fits_key(*key),
        ensures
            r.fits_key(*key),
            r.value() == self.value() | other.value(),
    ;

    /// Bitwise and of a register with a constant.
    fn and_mask(&self, mask: u8, key: &Self::Key) -> (r: Self)
        requires
            self.fits_key(*key),
        ensures
            r.fits_key(*key),
            r.value() == self.value() & mask,
    ;

    /// The register moved `n` places to the right; zeros enter at the top.
    fn shift_right(&self, n: u8, key: &Self::Key) -> (r: Self)
        requires
            n < 8,
            self.fits_key(*key),
        ensures
            r.fits_key(*key),
            r.value() == self.value() >> n,
    ;

    /// The register moved `n` places to the left; what leaves the byte at the
    /// top is lost.
    fn shift_left(&self, n: u8, key: &Self::Key) -> (r: Self)
        requires
            n < 8,
            self.fits_key(*key),
        ensures
            r.fits_key(*key),
            r.value() == self.value() << n,
    ;
}

impl BitRegister for u8 {
    type Key = ();

    open spec fn value(&self) -> u8 {
        *self
    }

    open spec fn fits_key(&self, key: ()) -> bool {
        true
    }

    fn duplicate(&self, _key: &()) -> (r: u8) {
        *self
    }

    fn xor(&self, other: &u8, _key: &()) -> (r: u8) {
        *self ^ *other
    }

    fn or(&self, other: &u8, _key: &()) -> (r: u8) {
        *self | *other
    }

    fn and_mask(&self, mask: u8, _key: &()) -> (r: u8) {
        *self & mask
    }

    fn shift_right(&self, n: u8, _key: &()) -> (r: u8) {
        *self >> n
    }

    fn shift_left(&self, n: u8, _key: &()) -> (r: u8) {
        *self << n
    }
}

/// One transition of the register, written once for every kind of register:
/// the feedback word is the register mixed with its copies shifted by two,
/// by three and, masked to one bit, by four; the successor is the register
/// shifted right by one, laid over the feedback word shifted left by seven.
pub fn transition<R: BitRegister>(s: &R, key: &R::Key) -> (r: R)
    requires
        s.fits_key(*key),
    ensures
        r.fits_key(*key),
        r.value() == step(s.value()),
{
    let by_two = s.shift_right(2, key);
    let by_three = s.shift_right(3, key);
    let by_four = s.shift_right(4, key).and_mask(1, key);
    let bit = s.xor(&by_two, key).xor(&by_three, key).xor(&by_four, key);
    s.shift_right(1, key).or(&bit.shift_left(7, key), key)
}

} // verus!
