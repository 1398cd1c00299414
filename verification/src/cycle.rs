use crate::recurrence::{
    lemma_orbit_add, lemma_orbit_keeps_nonzero, lemma_orbit_meets, lemma_orbit_of_zero,
    lemma_step_injective, orbit, step,
};
use vstd::arithmetic::div_mod::{lemma_fundamental_div_mod, lemma_mod_bound};
use vstd::prelude::*;
use vstd::set_lib::lemma_subset_equality;

verus! {

/// The register, started at `s`, is back at `s` after `n` transitions and
/// not before.
pub open spec fn first_return(s: u8, n: nat) -> bool {
    &&& n >= 1
    &&& orbit(s, n) == s
    &&& forall|k: nat| 1 <= k < n ==> #[trigger] orbit(s, k) != s
}

/// The length of the cycle on which `s` lies: zero stands alone, and the 255
/// other values form one cycle.
pub open spec fn cycle_length(s: u8) -> nat {
    if s == 0 {
        1
    } else {
        255
    }
}

/// The register, started at `s`, stands at `t` before one of its first 255
/// transitions.
pub open spec fn comes_by(s: u8, t: u8) -> bool {
    exists|i: nat| i < 255 && #[trigger] orbit(s, i) == t
}

/// `c` where bit `i` of `s` is set, zero where it is clear.
spec fn pick(s: u8, i: u8, c: u8) -> u8 {
    if (s >> i) & 1 == 1 {
        c
    } else {
        0
    }
}

/// Sixteen transitions at once. A transition is linear over the bits of the
/// register, so sixteen of them add up what they make of each single bit:
/// the constant picked for bit `i` is where the register stands sixteen
/// transitions after holding that bit alone.
spec fn leap(s: u8) -> u8 {
    pick(s, 0, 0xa4) ^ pick(s, 1, 0x48) ^ pick(s, 2, 0x35) ^ pick(s, 3, 0xcf) ^ pick(s, 4, 0x3a)
        ^ pick(s, 5, 0x74) ^ pick(s, 6, 0xe9) ^ pick(s, 7, 0xd2)
}

proof fn lemma_leap(s: u8)
    ensures
        orbit(s, 16) == leap(s),
{
    reveal_with_fuel(orbit, 17);
    let s1: u8 = step(s);
    let s2: u8 = step(s1);
    let s3: u8 = step(s2);
    let s4: u8 = step(s3);
    let s5: u8 = step(s4);
    let s6: u8 = step(s5);
    let s7: u8 = step(s6);
    let s8: u8 = step(s7);
    let s9: u8 = step(s8);
    let s10: u8 = step(s9);
    let s11: u8 = step(s10);
    let s12: u8 = step(s11);
    let s13: u8 = step(s12);
    let s14: u8 = step(s13);
    let s15: u8 = step(s14);
    let s16: u8 = step(s15);
    assert(s16 == leap(s)) by (bit_vector)
        requires
            s1 == step(s),
            s2 == step(s1),
            s3 == step(s2),
            s4 == step(s3),
            s5 == step(s4),
            s6 == step(s5),
            s7 == step(s6),
            s8 == step(s7),
            s9 == step(s8),
            s10 == step(s9),
            s11 == step(s10),
            s12 == step(s11),
            s13 == step(s12),
            s14 == step(s13),
            s15 == step(s14),
            s16 == step(s15),
    ;
}

/// Sixteen transitions more, after any number of them.
proof fn lemma_leap_after(s: u8, n: nat)
    ensures
        orbit(s, n + 16) == leap(orbit(s, n)),
{
    lemma_orbit_add(s, n, 16);
    lemma_leap(orbit(s, n));
}

/// After 255 transitions every register value is back where it started.
pub proof fn lemma_returns_after_255(s: u8)
    ensures
        orbit(s, 255) == s,
{
    let a1: u8 = leap(s);
    let a2: u8 = leap(a1);
    let a3: u8 = leap(a2);
    let a4: u8 = leap(a3);
    let a5: u8 = leap(a4);
    let a6: u8 = leap(a5);
    let a7: u8 = leap(a6);
    let a8: u8 = leap(a7);
    let a9: u8 = leap(a8);
    let a10: u8 = leap(a9);
    let a11: u8 = leap(a10);
    let a12: u8 = leap(a11);
    let a13: u8 = leap(a12);
    let a14: u8 = leap(a13);
    let a15: u8 = leap(a14);
    let b: u8 = orbit(a15, 15);
    assert(orbit(s, 240) == a15) by {
        lemma_leap_after(s, 0);
        lemma_leap_after(s, 16);
        lemma_leap_after(s, 32);
        lemma_leap_after(s, 48);
        lemma_leap_after(s, 64);
        lemma_leap_after(s, 80);
        lemma_leap_after(s, 96);
        lemma_leap_after(s, 112);
        lemma_leap_after(s, 128);
        lemma_leap_after(s, 144);
        lemma_leap_after(s, 160);
        lemma_leap_after(s, 176);
        lemma_leap_after(s, 192);
        lemma_leap_after(s, 208);
        lemma_leap_after(s, 224);
    }
    assert(orbit(s, 255) == b) by {
        lemma_orbit_add(s, 240, 15);
    }
    // One more transition completes a sixteenth leap.
    assert(step(b) == leap(a15)) by {
        lemma_orbit_add(a15, 15, 1);
        reveal_with_fuel(orbit, 2);
        lemma_leap(a15);
    }
    let a16: u8 = leap(a15);
    assert(a16 == step(s)) by (bit_vector)
        requires
            a1 == leap(s),
            a2 == leap(a1),
            a3 == leap(a2),
            a4 == leap(a3),
            a5 == leap(a4),
            a6 == leap(a5),
            a7 == leap(a6),
            a8 == leap(a7),
            a9 == leap(a8),
            a10 == leap(a9),
            a11 == leap(a10),
            a12 == leap(a11),
            a13 == leap(a12),
            a14 == leap(a13),
            a15 == leap(a14),
            a16 == leap(a15),
    ;
    lemma_step_injective(b, s);
}

/// No nonzero register value is back at its start after 15, 51 or 85
/// transitions: the three numbers that every proper divisor of 255 divides.
proof fn lemma_no_early_return(s: u8)
    requires
        s != 0,
    ensures
        orbit(s, 15) != s,
        orbit(s, 51) != s,
        orbit(s, 85) != s,
{
    let a1: u8 = leap(s);
    let a2: u8 = leap(a1);
    let a3: u8 = leap(a2);
    let a4: u8 = leap(a3);
    let a5: u8 = leap(a4);
    lemma_leap_after(s, 0);
    lemma_leap_after(s, 16);
    lemma_leap_after(s, 32);
    lemma_leap_after(s, 48);
    lemma_leap_after(s, 64);

    // Were it back after 15, one transition more would make a leap.
    assert(orbit(s, 16) == step(orbit(s, 15))) by {
        reveal_with_fuel(orbit, 2);
    }
    assert(s != 0 ==> a1 != step(s)) by (bit_vector)
        requires
            a1 == leap(s),
    ;

    let b1: u8 = step(a3);
    let b2: u8 = step(b1);
    let b3: u8 = step(b2);
    assert(orbit(s, 51) == b3) by {
        lemma_orbit_add(s, 48, 3);
        reveal_with_fuel(orbit, 4);
    }
    assert(s != 0 ==> b3 != s) by (bit_vector)
        requires
            a1 == leap(s),
            a2 == leap(a1),
            a3 == leap(a2),
            b1 == step(a3),
            b2 == step(b1),
            b3 == step(b2),
    ;

    let c1: u8 = step(a5);
    let c2: u8 = step(c1);
    let c3: u8 = step(c2);
    let c4: u8 = step(c3);
    let c5: u8 = step(c4);
    assert(orbit(s, 85) == c5) by {
        lemma_orbit_add(s, 80, 5);
        reveal_with_fuel(orbit, 6);
    }
    assert(s != 0 ==> c5 != s) by (bit_vector)
        requires
            a1 == leap(s),
            a2 == leap(a1),
            a3 == leap(a2),
            a4 == leap(a3),
            a5 == leap(a4),
            c1 == step(a5),
            c2 == step(c1),
            c3 == step(c2),
            c4 == step(c3),
            c5 == step(c4),
    ;
}

/// A register that is back at its start after `k` transitions is back there
/// after every multiple of `k`.
proof fn lemma_return_repeats(s: u8, k: nat, m: nat)
    requires
        orbit(s, k) == s,
    ensures
        orbit(s, k * m) == s,
    decreases m,
{
    if m == 0 {
        assert(k * m == 0) by (nonlinear_arith)
            requires
                m == 0,
        ;
    } else {
        lemma_return_repeats(s, k, (m - 1) as nat);
        assert(k * m == k * ((m - 1) as nat) + k) by (nonlinear_arith)
            requires
                m >= 1,
        ;
        lemma_orbit_add(s, k * ((m - 1) as nat), k);
    }
}

/// A register that is back at its start after `k` transitions, where `k`
/// divides `n`, is back there after `n`.
proof fn lemma_return_at_multiple(s: u8, k: nat, n: nat)
    requires
        k >= 1,
        orbit(s, k) == s,
        n % k == 0,
    ensures
        orbit(s, n) == s,
{
    lemma_fundamental_div_mod(n as int, k as int);
    let q: int = (n as int) / (k as int);
    assert(q >= 0) by (nonlinear_arith)
        requires
            n == k * q,
            k >= 1,
            n >= 0,
    ;
    lemma_return_repeats(s, k, q as nat);
}

/// Every proper divisor of 255 divides 15, 51 or 85.
proof fn lemma_divisors_of_255(k: nat)
    requires
        1 <= k < 255,
        255nat % k == 0,
    ensures
        15nat % k == 0 || 51nat % k == 0 || 85nat % k == 0,
{
    let d: u8 = k as u8;
    assert(1 <= d && d < 255 && 255u8 % d == 0 ==> 15u8 % d == 0 || 51u8 % d == 0 || 85u8 % d
        == 0) by (bit_vector);
}

/// A nonzero register value is not back at its start before the 255th
/// transition.
pub proof fn lemma_no_return_before_255(s: u8, k: nat)
    requires
        s != 0,
        1 <= k < 255,
    ensures
        orbit(s, k) != s,
    decreases k,
{
    if orbit(s, k) == s {
        if exists|j: nat| 1 <= j < k && #[trigger] orbit(s, j) == s {
            let j: nat = choose|j: nat| 1 <= j < k && #[trigger] orbit(s, j) == s;
            lemma_no_return_before_255(s, j);
        } else {
            // `k` is the first return, so it divides every other return.
            let q: int = 255int / (k as int);
            let r: int = 255int % (k as int);
            lemma_fundamental_div_mod(255, k as int);
            lemma_mod_bound(255, k as int);
            assert(q >= 0) by (nonlinear_arith)
                requires
                    255 == k * q + r,
                    0 <= r < k,
            ;
            lemma_return_repeats(s, k, q as nat);
            lemma_orbit_add(s, k * (q as nat), r as nat);
            lemma_returns_after_255(s);
            assert(orbit(s, r as nat) == s);
            assert(r == 0);
            lemma_divisors_of_255(k);
            lemma_no_early_return(s);
            if 15nat % k == 0 {
                lemma_return_at_multiple(s, k, 15);
            } else if 51nat % k == 0 {
                lemma_return_at_multiple(s, k, 51);
            } else {
                lemma_return_at_multiple(s, k, 85);
            }
        }
    }
}

/// Every register value returns to itself first after as many transitions
/// as its cycle is long: zero after one, every other value after 255.
pub proof fn lemma_first_return(s: u8)
    ensures
        first_return(s, cycle_length(s)),
{
    if s == 0 {
        lemma_orbit_of_zero(1);
    } else {
        lemma_returns_after_255(s);
        assert forall|k: nat| 1 <= k < 255 implies #[trigger] orbit(s, k) != s by {
            lemma_no_return_before_255(s, k);
        }
    }
}

/// The first return is unique: no other number of transitions is one.
pub proof fn lemma_first_return_unique(s: u8, n: nat)
    requires
        first_return(s, n),
    ensures
        n == cycle_length(s),
{
    lemma_first_return(s);
}

/// On its way round, a nonzero register value stands at no value twice: the
/// values after `i` and after `j` transitions differ for `i < j < 255`.
pub proof fn lemma_orbit_distinct(s: u8, i: nat, j: nat)
    requires
        s != 0,
        i < j < 255,
    ensures
        orbit(s, i) != orbit(s, j),
{
    if orbit(s, i) == orbit(s, j) {
        lemma_orbit_meets(s, i, j);
        lemma_no_return_before_255(s, (j - i) as nat);
    }
}

/// The values at which the register stands before each of its first `n`
/// transitions from `s`.
spec fn visited(s: u8, n: nat) -> Set<u8>
    decreases n,
{
    if n == 0 {
        Set::empty()
    } else {
        visited(s, (n - 1) as nat).insert(orbit(s, (n - 1) as nat))
    }
}

/// The register values from 1 to `m`.
spec fn up_to(m: nat) -> Set<u8> {
    Set::new(|t: u8| 1 <= t <= m)
}

proof fn lemma_up_to(m: nat)
    requires
        m <= 255,
    ensures
        up_to(m).finite(),
        up_to(m).len() == m,
    decreases m,
{
    if m == 0 {
        assert(up_to(m) =~= Set::<u8>::empty());
    } else {
        lemma_up_to((m - 1) as nat);
        assert(up_to(m) =~= up_to((m - 1) as nat).insert(m as u8));
    }
}

proof fn lemma_visited(s: u8, n: nat)
    requires
        s != 0,
        n <= 255,
    ensures
        visited(s, n).finite(),
        visited(s, n).len() == n,
        forall|t: u8| #[trigger]
            visited(s, n).contains(t) ==> t != 0 && exists|i: nat|
                i < n && #[trigger] orbit(s, i) == t,
    decreases n,
{
    if n > 0 {
        let m: nat = (n - 1) as nat;
        let last: u8 = orbit(s, m);
        lemma_visited(s, m);
        lemma_orbit_keeps_nonzero(s, m);
        if visited(s, m).contains(last) {
            let i: nat = choose|i: nat| i < m && #[trigger] orbit(s, i) == last;
            lemma_orbit_distinct(s, i, m);
        }
        assert forall|t: u8| #[trigger] visited(s, n).contains(t) implies t != 0 && exists|i: nat|
            i < n && #[trigger] orbit(s, i) == t by {
            if t == last {
                assert(m < n && orbit(s, m) == t);
            } else {
                assert(visited(s, m).contains(t));
                let i: nat = choose|i: nat| i < m && #[trigger] orbit(s, i) == t;
                assert(i < n && orbit(s, i) == t);
            }
        }
    }
}

/// On its way round, a nonzero register value comes by every nonzero value:
/// each is reached within the first 254 transitions.
pub proof fn lemma_orbit_reaches(s: u8, t: u8)
    requires
        s != 0,
        t != 0,
    ensures
        comes_by(s, t),
{
    lemma_visited(s, 255);
    lemma_up_to(255);
    assert(visited(s, 255).subset_of(up_to(255)));
    lemma_subset_equality(visited(s, 255), up_to(255));
    assert(up_to(255).contains(t));
    assert(visited(s, 255).contains(t));
}

/// The nonzero register values form a single cycle. Started at any of them,
/// the register is first back at its start after 255 transitions; on the way
/// it never stands at zero, stands at no value twice, and comes by every
/// nonzero value.
pub proof fn lemma_single_cycle(s: u8)
    requires
        s != 0,
    ensures
        first_return(s, 255),
        forall|n: nat| #[trigger] orbit(s, n) != 0,
        forall|i: nat, j: nat| i < j < 255 ==> #[trigger] orbit(s, i) != #[trigger] orbit(s, j),
        forall|t: u8| t != 0 ==> #[trigger] comes_by(s, t),
{
    lemma_first_return(s);
    assert forall|n: nat| #[trigger] orbit(s, n) != 0 by {
        lemma_orbit_keeps_nonzero(s, n);
    }
    assert forall|i: nat, j: nat| i < j < 255 implies #[trigger] orbit(s, i)
        != #[trigger] orbit(s, j) by {
        lemma_orbit_distinct(s, i, j);
    }
    assert forall|t: u8| t != 0 implies #[trigger] comes_by(s, t) by {
        lemma_orbit_reaches(s, t);
    }
}

} // verus!
