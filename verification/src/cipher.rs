use crate::register::BitRegister;
use tfhe::prelude::FheEncrypt;
use tfhe::{ClientKey, Config, ConfigBuilder, FheUint8, ServerKey};
use vstd::prelude::*;

verus! {

/// tfhe's `Config`: the parameters that keys are generated from.
#[verifier::external_type_specification]
#[verifier::external_body]
pub struct ExConfig(Config);

/// tfhe's `ClientKey`: the secret key, which encrypts and decrypts.
#[verifier::external_type_specification]
#[verifier::external_body]
pub struct ExClientKey(ClientKey);

/// tfhe's `ServerKey`: the evaluation key, with which the operators compute
/// on ciphertexts without reading them.
#[verifier::external_type_specification]
#[verifier::external_body]
pub struct ExServerKey(ServerKey);

/// A byte under encryption: a ciphertext of tfhe's `FheUint8`, which only the
/// holder of the client key can read. `FheUint8` is generic over a marker
/// whose trait tfhe keeps to itself, so the verifier cannot be told of the
/// type as it stands; this struct holds it and is opaque to the verifier.
/// The field is public, so that a caller hands in a ciphertext it received
/// and takes out one to send or to decrypt; nothing here looks inside.
/// Nothing is known of a ciphertext that comes from elsewhere: the operators
/// ask that it fits their key (see `fits`), which `EncryptedByte::encrypt`
/// establishes.
#[verifier::external_body]
pub struct EncryptedByte(pub FheUint8);

/// The configuration is one for which tfhe answers for its operators: its
/// parameters give blocks of one or two bits and keep the noise of every
/// ciphertext below what decryption tolerates.
pub uninterp spec fn supported(config: Config) -> bool;

/// The two keys belong together: `client` was generated from a supported
/// configuration, and `key` is the server key generated from `client`.
pub uninterp spec fn serves(key: ServerKey, client: ClientKey) -> bool;

/// The operators can compute on `c` with `key`: `c` holds eight bits and
/// was encrypted under the client key that `key` serves, or computed with
/// `key` from ciphertexts of which this holds.
pub uninterp spec fn fits(key: ServerKey, c: EncryptedByte) -> bool;

/// The byte that a ciphertext decrypts to under the client key it was made
/// with. The contracts speak of it for ciphertexts that fit a server key,
/// and that client key is then the one that the server key serves. tfhe
/// answers for it up to the failure probability of the parameters, which for
/// its default parameters is below one in 2^40 for each operator.
pub uninterp spec fn plain_of(c: EncryptedByte) -> u8;

/// `ConfigBuilder::default().build()`: tfhe's default parameters, which it
/// supports.
#[verifier::external_body]
fn tfhe_default_config() -> (config: Config)
    ensures
        supported(config),
{
    ConfigBuilder::default().build()
}

/// `tfhe::generate_keys`: a fresh client key and the server key generated
/// from it. The keys differ from call to call; that they belong together
/// holds of every pair. On parameters with blocks of more than two bits tfhe
/// panics, which a supported configuration excludes. It draws its seed from
/// the processor or from the system, and gives up where neither has one.
#[verifier::external_body]
fn tfhe_generate_keys(config: Config) -> (keys: (ClientKey, ServerKey))
    requires
        supported(config),
    ensures
        serves(keys.1, keys.0),
{
    tfhe::generate_keys(config)
}

/// `FheUint8::encrypt`: a ciphertext of `v` under the client key. The
/// ciphertext differs from call to call. Under a client key that some server
/// key serves, which is one from a supported configuration, it holds eight
/// bits and decrypts to `v`, and every server key that serves the client key
/// can compute on it. On a client key put together from parts with blocks of
/// no bit tfhe divides by zero, which the condition excludes.
#[verifier::external_body]
fn tfhe_encrypt(v: u8, client: &ClientKey) -> (c: EncryptedByte)
    requires
        exists|key: ServerKey| #[trigger] serves(key, *client),
    ensures
        plain_of(c) == v,
        forall|key: ServerKey| #[trigger] serves(key, *client) ==> fits(key, c),
{
    EncryptedByte(FheUint8::encrypt(v, client))
}

/// `Clone::clone` of `FheUint8`: a copy of the ciphertext. It holds the same
/// blocks, so it decrypts to the same byte and fits the same keys.
#[verifier::external_body]
fn cipher_clone(a: &EncryptedByte) -> (r: EncryptedByte)
    ensures
        plain_of(r) == plain_of(*a),
        forall|key: ServerKey| #[trigger] fits(key, r) == fits(key, *a),
{
    EncryptedByte(a.0.clone())
}

/// `tfhe::integer::ServerKey::bitxor_parallelized`, which is what
/// `&FheUint8 ^ &FheUint8` computes with the key of the thread: the
/// homomorphic bitwise xor. On ciphertexts that fit the key the result fits
/// it too and decrypts to the xor of the two bytes.
#[verifier::external_body]
fn cipher_xor(key: &ServerKey, a: &EncryptedByte, b: &EncryptedByte) -> (r: EncryptedByte)
    requires
        fits(*key, *a),
        fits(*key, *b),
    ensures
        fits(*key, r),
        plain_of(r) == plain_of(*a) ^ plain_of(*b),
{
    let (x, id) = a.0.clone().into_raw_parts();
    let (y, _) = b.0.clone().into_raw_parts();
    let evaluator: &tfhe::integer::ServerKey = key.as_ref();
    EncryptedByte(FheUint8::from_raw_parts(evaluator.bitxor_parallelized(&x, &y), id))
}

/// `tfhe::integer::ServerKey::bitor_parallelized`, which is what
/// `&FheUint8 | &FheUint8` computes with the key of the thread: the
/// homomorphic bitwise or. On ciphertexts that fit the key the result fits
/// it too and decrypts to the or of the two bytes.
#[verifier::external_body]
fn cipher_or(key: &ServerKey, a: &EncryptedByte, b: &EncryptedByte) -> (r: EncryptedByte)
    requires
        fits(*key, *a),
        fits(*key, *b),
    ensures
        fits(*key, r),
        plain_of(r) == plain_of(*a) | plain_of(*b),
{
    let (x, id) = a.0.clone().into_raw_parts();
    let (y, _) = b.0.clone().into_raw_parts();
    let evaluator: &tfhe::integer::ServerKey = key.as_ref();
    EncryptedByte(FheUint8::from_raw_parts(evaluator.bitor_parallelized(&x, &y), id))
}

/// `tfhe::integer::ServerKey::scalar_bitand_parallelized`, which is what
/// `&FheUint8 & u8` computes with the key of the thread: the homomorphic
/// bitwise and with a clear byte. On a ciphertext that fits the key the
/// result fits it too and decrypts to the and of the encrypted byte and the
/// clear one.
#[verifier::external_body]
fn cipher_and_clear(key: &ServerKey, a: &EncryptedByte, mask: u8) -> (r: EncryptedByte)
    requires
        fits(*key, *a),
    ensures
        fits(*key, r),
        plain_of(r) == plain_of(*a) & mask,
{
    let (x, id) = a.0.clone().into_raw_parts();
    let evaluator: &tfhe::integer::ServerKey = key.as_ref();
    EncryptedByte(FheUint8::from_raw_parts(evaluator.scalar_bitand_parallelized(&x, mask), id))
}

/// `tfhe::integer::ServerKey::scalar_right_shift_parallelized`, which is
/// what `&FheUint8 >> u8` computes with the key of the thread: the
/// homomorphic right shift by a clear amount, logical on an unsigned
/// ciphertext. tfhe reduces the amount modulo the width of the ciphertext;
/// on a ciphertext that fits the key, which is eight bits wide, and for an
/// amount below eight the result fits the key too and decrypts to the byte
/// shifted right by the amount.
#[verifier::external_body]
fn cipher_shr_clear(key: &ServerKey, a: &EncryptedByte, n: u8) -> (r: EncryptedByte)
    requires
        n < 8,
        fits(*key, *a),
    ensures
        fits(*key, r),
        plain_of(r) == plain_of(*a) >> n,
{
    let (x, id) = a.0.clone().into_raw_parts();
    let evaluator: &tfhe::integer::ServerKey = key.as_ref();
    EncryptedByte(FheUint8::from_raw_parts(evaluator.scalar_right_shift_parallelized(&x, n), id))
}

/// `tfhe::integer::ServerKey::scalar_left_shift_parallelized`, which is what
/// `&FheUint8 << u8` computes with the key of the thread: the homomorphic
/// left shift by a clear amount. On a ciphertext that fits the key, which is
/// eight bits wide, and for an amount below eight the result fits the key
/// too and decrypts to the byte shifted left by the amount, the bits beyond
/// the eighth dropped.
#[verifier::external_body]
fn cipher_shl_clear(key: &ServerKey, a: &EncryptedByte, n: u8) -> (r: EncryptedByte)
    requires
        n < 8,
        fits(*key, *a),
    ensures
        fits(*key, r),
        plain_of(r) == plain_of(*a) << n,
{
    let (x, id) = a.0.clone().into_raw_parts();
    let evaluator: &tfhe::integer::ServerKey = key.as_ref();
    EncryptedByte(FheUint8::from_raw_parts(evaluator.scalar_left_shift_parallelized(&x, n), id))
}

/// tfhe's default configuration, from which `generate_keys` makes keys.
pub fn default_config() -> (config: Config)
    ensures
        supported(config),
{
    tfhe_default_config()
}

/// A fresh client key and the server key that serves it.
pub fn generate_keys(config: Config) -> (keys: (ClientKey, ServerKey))
    requires
        supported(config),
    ensures
        serves(keys.1, keys.0),
{
    tfhe_generate_keys(config)
}

impl EncryptedByte {
    /// Encrypts `v` under a client key that came with a server key. Every
    /// server key that serves the client key can compute on the result.
    pub fn encrypt(v: u8, client: &ClientKey) -> (c: EncryptedByte)
        requires
            exists|key: ServerKey| #[trigger] serves(key, *client),
        ensures
            plain_of(c) == v,
            forall|key: ServerKey| #[trigger] serves(key, *client) ==> fits(key, c),
    {
        tfhe_encrypt(v, client)
    }
}

impl BitRegister for EncryptedByte {
    type Key = ServerKey;

    /// The byte under the encryption.
    open spec fn value(&self) -> u8 {
        plain_of(*self)
    }

    open spec fn fits_key(&self, key: ServerKey) -> bool {
        fits(key, *self)
    }

    fn duplicate(&self, _key: &ServerKey) -> (r: EncryptedByte) {
        cipher_clone(self)
    }

    fn xor(&self, other: &EncryptedByte, key: &ServerKey) -> (r: EncryptedByte) {
        cipher_xor(key, self, other)
    }

    fn or(&self, other: &EncryptedByte, key: &ServerKey) -> (r: EncryptedByte) {
        cipher_or(key, self, other)
    }

    fn and_mask(&self, mask: u8, key: &ServerKey) -> (r: EncryptedByte) {
        cipher_and_clear(key, self, mask)
    }

    fn shift_right(&self, n: u8, key: &ServerKey) -> (r: EncryptedByte) {
        cipher_shr_clear(key, self, n)
    }

    fn shift_left(&self, n: u8, key: &ServerKey) -> (r: EncryptedByte) {
        cipher_shl_clear(key, self, n)
    }
}

} // verus!
