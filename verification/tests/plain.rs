use fhe_lfsr::lfsr::LFSR;
use fhe_lfsr::register::{transition, BitRegister};

/// The register values from the seed 1 on: the seed, then what each call of
/// `next` returns, up to the last value before the seed comes back.
const REFERENCE: [u8; 255] = [
    1, 128, 64, 32, 16, 136, 196, 226, 113, 56, 28, 142, 71, 35, 145,
    72, 164, 210, 233, 116, 58, 29, 14, 7, 3, 129, 192, 96, 48, 152,
    76, 38, 147, 73, 36, 146, 201, 100, 178, 217, 236, 118, 59, 157, 78,
    39, 19, 9, 4, 130, 65, 160, 80, 168, 212, 106, 181, 218, 109, 182,
    91, 173, 214, 107, 53, 154, 77, 166, 211, 105, 52, 26, 13, 134, 195,
    225, 240, 248, 124, 190, 223, 111, 183, 219, 237, 246, 123, 189, 94, 175,
    215, 235, 117, 186, 93, 46, 23, 139, 69, 34, 17, 8, 132, 194, 97,
    176, 216, 108, 54, 27, 141, 198, 227, 241, 120, 60, 158, 207, 231, 115,
    57, 156, 206, 103, 51, 25, 140, 70, 163, 209, 104, 180, 90, 45, 150,
    75, 37, 18, 137, 68, 162, 81, 40, 148, 74, 165, 82, 169, 84, 42,
    149, 202, 229, 114, 185, 220, 238, 119, 187, 221, 110, 55, 155, 205, 230,
    243, 121, 188, 222, 239, 247, 251, 253, 126, 191, 95, 47, 151, 203, 101,
    50, 153, 204, 102, 179, 89, 172, 86, 43, 21, 138, 197, 98, 49, 24,
    12, 6, 131, 193, 224, 112, 184, 92, 174, 87, 171, 85, 170, 213, 234,
    245, 250, 125, 62, 159, 79, 167, 83, 41, 20, 10, 133, 66, 33, 144,
    200, 228, 242, 249, 252, 254, 255, 127, 63, 31, 15, 135, 67, 161, 208,
    232, 244, 122, 61, 30, 143, 199, 99, 177, 88, 44, 22, 11, 5, 2,
];

fn successor(s: u8) -> u8 {
    let top = (s ^ (s >> 2) ^ (s >> 3) ^ (s >> 4)) & 1;
    (s >> 1) | (top << 7)
}

#[test]
fn test_period() {
    let lfsr = LFSR::new(0x01);
    assert!(lfsr.period() == 255);
}

#[test]
fn lfsr_test_lsfr() {
    let outputs = REFERENCE.to_vec();

    assert!(outputs[0] == 0x1);

    let mut lfsr = LFSR::new(0x01);

    for i in 1..lfsr.period() - 1 {
        assert!(outputs[i as usize] == lfsr.next());
    }
}

#[test]
fn first_values_from_seed_one() {
    let mut lfsr = LFSR::new(0x01);
    assert_eq!(lfsr.next(), 128);
    assert_eq!(lfsr.next(), 64);
    assert_eq!(lfsr.next(), 32);
    assert_eq!(lfsr.next(), 16);
    assert_eq!(lfsr.next(), 136);
}

#[test]
fn seed_one_returns_first_after_255() {
    let mut lfsr = LFSR::new(0x01);
    for _ in 1..255 {
        assert_ne!(lfsr.next(), 1);
    }
    assert_eq!(lfsr.next(), 1);
}

#[test]
fn zero_is_a_fixed_point() {
    let mut lfsr = LFSR::new(0);
    assert_eq!(lfsr.next(), 0);
    assert_eq!(lfsr.next(), 0);
    assert_eq!(lfsr.period(), 1);
}

#[test]
fn every_nonzero_seed_has_period_255() {
    for seed in 1..=255u8 {
        assert_eq!(LFSR::new(seed).period(), 255);
    }
}

#[test]
fn every_nonzero_seed_visits_every_nonzero_value_once() {
    for seed in 1..=255u8 {
        let mut seen = [false; 256];
        let mut lfsr = LFSR::new(seed);
        for _ in 0..255 {
            let v = lfsr.next();
            assert_ne!(v, 0);
            assert!(!seen[v as usize]);
            seen[v as usize] = true;
        }
        assert!(seen[seed as usize]);
        assert_eq!(seen.iter().filter(|b| **b).count(), 255);
    }
}

#[test]
fn period_does_not_move_the_register() {
    let mut lfsr = LFSR::new(0x01);
    assert_eq!(lfsr.next(), 128);
    assert_eq!(lfsr.period(), 255);
    assert_eq!(lfsr.next(), 64);
}

#[test]
fn same_seed_same_sequence() {
    for seed in [0u8, 1, 2, 0x5a, 0xff] {
        let mut a = LFSR::new(seed);
        let mut b = LFSR::new(seed);
        for _ in 0..300 {
            assert_eq!(a.next(), b.next());
        }
    }
}

#[test]
fn transition_follows_the_formula_on_every_byte() {
    for s in 0..=255u8 {
        let bit: u8 = s ^ (s >> 2) ^ (s >> 3) ^ (s >> 4) & 1;
        let expected: u8 = (s >> 1) | (bit << 7);
        assert_eq!(transition(&s, &()), expected);
        assert_eq!(transition(&s, &()), successor(s));
        assert_eq!(LFSR::new(s).next(), expected);
    }
}

#[test]
fn transition_exact_values() {
    assert_eq!(transition(&0x00u8, &()), 0x00);
    assert_eq!(transition(&0x01u8, &()), 0x80);
    assert_eq!(transition(&0x10u8, &()), 0x88);
    assert_eq!(transition(&0x88u8, &()), 0xc4);
    assert_eq!(transition(&0xffu8, &()), 0x7f);
    assert_eq!(transition(&0x04u8, &()), 0x82);
}

#[test]
fn transition_is_one_to_one() {
    let mut hit = [false; 256];
    for s in 0..=255u8 {
        let t = transition(&s, &());
        assert!(!hit[t as usize]);
        hit[t as usize] = true;
    }
}

#[test]
fn native_byte_operators() {
    let a: u8 = 0b1100_1010;
    let b: u8 = 0b0110_0110;
    assert_eq!(a.duplicate(&()), a);
    assert_eq!(a.xor(&b, &()), 0b1010_1100);
    assert_eq!(a.or(&b, &()), 0b1110_1110);
    assert_eq!(a.and_mask(1, &()), 0);
    assert_eq!(b.and_mask(0x0f, &()), 0b0110);
    assert_eq!(a.shift_right(3, &()), 0b0001_1001);
    assert_eq!(a.shift_left(7, &()), 0);
    assert_eq!(0xffu8.shift_left(7, &()), 0x80);
    assert_eq!(a.shift_left(1, &()), 0b1001_0100);
}
