use vstd::prelude::*;

verus! {

/// The feedback word: the register mixed with three shifted copies of itself,
/// of which only the copy shifted by four is masked to its lowest bit.
pub open spec fn feedback(s: u8) -> u8 {
    s ^ (s >> 2) ^ (s >> 3) ^ ((s >> 4) & 1)
}

/// The successor of a register value: the register moves one place to the
/// right and the feedback word, moved seven places to the left, is laid over
/// it. Every result is cut to eight bits.
pub open spec fn step(s: u8) -> u8 {
    (s >> 1) | (feedback(s) << 7)
}

/// The register value reached from `s` after `n` transitions.
pub open spec fn orbit(s: u8, n: nat) -> u8
    decreases n,
{
    if n == 0 {
        s
    } else {
        step(orbit(s, (n - 1) as nat))
    }
}

/// Bit `i` of `s`, as 0 or 1.
pub open spec fn bit_at(s: u8, i: u8) -> u8 {
    (s >> i) & 1
}

/// Of the feedback word only the lowest bit survives the shift to the top:
/// the low seven bits of the successor are the old bits 1 to 7, and its top
/// bit is the sum modulo two of the old bits 0, 2, 3 and 4.
pub proof fn lemma_step_by_bits(s: u8)
    ensures
        step(s) & 0x7f == s >> 1,
        bit_at(step(s), 7) == bit_at(s, 0) ^ bit_at(s, 2) ^ bit_at(s, 3) ^ bit_at(s, 4),
{
    assert(step(s) & 0x7f == s >> 1) by (bit_vector);
    assert(bit_at(step(s), 7) == bit_at(s, 0) ^ bit_at(s, 2) ^ bit_at(s, 3) ^ bit_at(s, 4))
        by (bit_vector);
}

/// The two words that the successor is made of share no bit, so that laying
/// one over the other is the same as adding them bit by bit.
pub proof fn lemma_step_without_or(s: u8)
    ensures
        (s >> 1) & (feedback(s) << 7) == 0,
        step(s) == (s >> 1) ^ (feedback(s) << 7),
{
    assert((s >> 1) & (feedback(s) << 7) == 0) by (bit_vector);
    assert(step(s) == (s >> 1) ^ (feedback(s) << 7)) by (bit_vector);
}

/// The all-zero register is its own successor.
pub proof fn lemma_zero_is_fixed()
    ensures
        step(0) == 0,
{
    assert(step(0) == 0) by (bit_vector);
}

/// No other register value leads to zero.
pub proof fn lemma_step_keeps_nonzero(s: u8)
    requires
        s != 0,
    ensures
        step(s) != 0,
{
    assert(s != 0 ==> step(s) != 0) by (bit_vector);
}

/// Two register values with one successor are one value.
pub proof fn lemma_step_injective(a: u8, b: u8)
    requires
        step(a) == step(b),
    ensures
        a == b,
{
    assert(step(a) == step(b) ==> a == b) by (bit_vector);
}

/// `m` transitions and then `n` more are `m + n` transitions.
pub proof fn lemma_orbit_add(s: u8, m: nat, n: nat)
    ensures
        orbit(s, m + n) == orbit(orbit(s, m), n),
    decreases n,
{
    if n > 0 {
        lemma_orbit_add(s, m, (n - 1) as nat);
        assert((m + n - 1) as nat == m + (n - 1) as nat);
    }
}

/// From zero the register never moves.
pub proof fn lemma_orbit_of_zero(n: nat)
    ensures
        orbit(0, n) == 0,
    decreases n,
{
    if n > 0 {
        lemma_orbit_of_zero((n - 1) as nat);
        lemma_zero_is_fixed();
    }
}

/// From a nonzero value the register never reaches zero.
pub proof fn lemma_orbit_keeps_nonzero(s: u8, n: nat)
    requires
        s != 0,
    ensures
        orbit(s, n) != 0,
    decreases n,
{
    if n > 0 {
        lemma_orbit_keeps_nonzero(s, (n - 1) as nat);
        lemma_step_keeps_nonzero(orbit(s, (n - 1) as nat));
    }
}

/// If the register stands at one value after `i` and after `j` transitions,
/// it is back at its start after the `j - i` between them.
pub proof fn lemma_orbit_meets(s: u8, i: nat, j: nat)
    requires
        i <= j,
        orbit(s, i) == orbit(s, j),
    ensures
        orbit(s, (j - i) as nat) == s,
    decreases i,
{
    if i > 0 {
        lemma_step_injective(orbit(s, (i - 1) as nat), orbit(s, (j - 1) as nat));
        lemma_orbit_meets(s, (i - 1) as nat, (j - 1) as nat);
    }
}

} // verus!
