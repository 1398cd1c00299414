use fhe_lfsr::cipher::{default_config, generate_keys, EncryptedByte};
use fhe_lfsr::fhelfsr::FHELFSR;
use fhe_lfsr::lfsr::LFSR;
use fhe_lfsr::register::{transition, BitRegister};
use tfhe::prelude::FheDecrypt;
use tfhe::shortint::parameters::{
    DecompositionBaseLog, DecompositionLevelCount, DynamicDistribution, GlweDimension,
    LweDimension, PolynomialSize, StandardDev,
};
use tfhe::shortint::{
    CarryModulus, CiphertextModulus, ClassicPBSParameters, EncryptionKeyChoice, MaxNoiseLevel,
    MessageModulus,
};
use tfhe::{ClientKey, ConfigBuilder, ServerKey};

/// Blocks of two message bits and two carry bits, as tfhe's default, but
/// with keys far too small to keep anything secret: they are made in a
/// moment, and every operator computes as it does under full-size keys.
fn small_parameters() -> ClassicPBSParameters {
    ClassicPBSParameters {
        lwe_dimension: LweDimension(1),
        glwe_dimension: GlweDimension(1),
        polynomial_size: PolynomialSize(256),
        lwe_noise_distribution: DynamicDistribution::new_gaussian_from_std_dev(StandardDev(
            0.000007069849454709433,
        )),
        glwe_noise_distribution: DynamicDistribution::new_gaussian_from_std_dev(StandardDev(
            0.00000000000000029403601535432533,
        )),
        pbs_base_log: DecompositionBaseLog(23),
        pbs_level: DecompositionLevelCount(1),
        ks_level: DecompositionLevelCount(5),
        ks_base_log: DecompositionBaseLog(3),
        message_modulus: MessageModulus(4),
        carry_modulus: CarryModulus(4),
        max_noise_level: MaxNoiseLevel::new(5),
        log2_p_fail: -40.,
        ciphertext_modulus: CiphertextModulus::new_native(),
        encryption_key_choice: EncryptionKeyChoice::Big,
    }
}

fn small_keys() -> (ClientKey, ServerKey) {
    let config = ConfigBuilder::with_custom_parameters(small_parameters(), None).build();
    generate_keys(config)
}

fn open(c: &EncryptedByte, keys: &ClientKey) -> u8 {
    c.0.decrypt(keys)
}

#[test]
fn fhelfsr_test_lsfr() {
    let (keys, server_keys) = small_keys();
    let clear_initial_state = 0x01u8;

    let fhe_initial_state = EncryptedByte::encrypt(clear_initial_state, &keys);

    let outputs: Vec<u8> = vec![1, 128, 64, 32];

    assert!(outputs[0] == 0x1);

    let mut lfsr = FHELFSR::new(fhe_initial_state, &server_keys);

    println!("Starting LFSR...");
    for i in 1..4 {
        let decrypted = open(&lfsr.next(&server_keys), &keys);
        println!("\t{} =? {}", outputs[i as usize], decrypted);
        assert!(outputs[i as usize] == decrypted);
    }
}

#[test]
fn encrypted_register_follows_plain_register() {
    let (client, server) = small_keys();
    let seed = 0xb7u8;
    let mut plain = LFSR::new(seed);
    let mut encrypted = FHELFSR::new(EncryptedByte::encrypt(seed, &client), &server);
    for _ in 0..2 {
        assert_eq!(open(&encrypted.next(&server), &client), plain.next());
    }
}

#[test]
fn encrypted_zero_stays_zero() {
    let (client, server) = small_keys();
    let mut encrypted = FHELFSR::new(EncryptedByte::encrypt(0, &client), &server);
    assert_eq!(open(&encrypted.next(&server), &client), 0);
}

#[test]
fn encrypt_gives_back_the_byte() {
    let (client, _server) = small_keys();
    for v in [0u8, 1, 0x5a, 0x80, 0xff] {
        assert_eq!(open(&EncryptedByte::encrypt(v, &client), &client), v);
    }
}

#[test]
fn encrypt_under_the_default_configuration() {
    let client = ClientKey::generate(default_config());
    for v in [0u8, 0xa5, 0xff] {
        assert_eq!(open(&EncryptedByte::encrypt(v, &client), &client), v);
    }
}

#[test]
fn generated_keys_belong_together() {
    let (client, server) = small_keys();
    let a = EncryptedByte::encrypt(0x0f, &client);
    let b = EncryptedByte::encrypt(0x3c, &client);
    assert_eq!(open(&a.xor(&b, &server), &client), 0x33);
}

#[test]
fn encrypted_operators() {
    let (client, server) = small_keys();
    let a = EncryptedByte::encrypt(0b1100_1010, &client);
    let b = EncryptedByte::encrypt(0b0110_0110, &client);
    assert_eq!(open(&a.duplicate(&server), &client), 0b1100_1010);
    assert_eq!(open(&a.xor(&b, &server), &client), 0b1010_1100);
    assert_eq!(open(&a.or(&b, &server), &client), 0b1110_1110);
    assert_eq!(open(&b.and_mask(0x0f, &server), &client), 0b0110);
    assert_eq!(open(&a.shift_right(3, &server), &client), 0b0001_1001);
    assert_eq!(open(&a.shift_right(7, &server), &client), 1);
    assert_eq!(open(&a.shift_left(1, &server), &client), 0b1001_0100);
    assert_eq!(open(&a.shift_left(7, &server), &client), 0);
    assert_eq!(open(&b.shift_left(6, &server), &client), 0b1000_0000);
    assert_eq!(open(&a, &client), 0b1100_1010);
    assert_eq!(open(&b, &client), 0b0110_0110);
}

#[test]
fn encrypted_transition_follows_the_formula() {
    let (client, server) = small_keys();
    let s = EncryptedByte::encrypt(0x10, &client);
    assert_eq!(open(&transition(&s, &server), &client), 0x88);
    assert_eq!(open(&s, &client), 0x10);
}
