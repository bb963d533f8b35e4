//! How secrets travel inside a session.
//!
//! A session carries secrets in plain text, or encrypted with AES-128-CBC
//! under a key that both sides agreed on with a Diffie-Hellman exchange in a
//! 1024-bit group.

use vstd::arithmetic::power::pow;
use vstd::prelude::*;
use vstd::string::*;

use crate::random::draw;
use crate::secret::SecretError;
use crate::text::decimal_text;
use crate::wipe::wipe_bytes;

verus! {

/// The bytes of a session key, and of an initialization vector.
pub const SESSION_KEY_BYTES: usize = 16;

/// How secrets travel in a session.
pub enum SessionCrypto {
    Plain,
    /// Encrypted under this key.
    Dh(Vec<u8>),
}

/// The bytes that AES-128 in CBC mode with PKCS#7 padding encrypts a
/// plaintext into.
pub uninterp spec fn aes_cbc_encrypted(key: Seq<u8>, iv: Seq<u8>, plaintext: Seq<u8>) -> Seq<u8>;

/// The plaintext that AES-128 in CBC mode with PKCS#7 padding decrypts bytes
/// into, if their padding is sound.
pub uninterp spec fn aes_cbc_decrypted(key: Seq<u8>, iv: Seq<u8>, ciphertext: Seq<u8>) -> Option<
    Seq<u8>,
>;

/// `cbc::Encryptor::<aes::Aes128>::encrypt_padded_vec_mut` with PKCS#7
/// padding: it fills up the last block or adds one, and what it encrypts can
/// be decrypted with the same key and vector.
#[verifier::external_body]
fn aes_encrypt(key: &[u8], iv: &[u8], plaintext: &[u8]) -> (ciphertext: Vec<u8>)
    requires
        key@.len() == 16,
        iv@.len() == 16,
        plaintext@.len() + 16 <= usize::MAX,
    ensures
        ciphertext@ == aes_cbc_encrypted(key@, iv@, plaintext@),
        ciphertext@.len() == 16 * (plaintext@.len() / 16 + 1),
        aes_cbc_decrypted(key@, iv@, ciphertext@) == Some(plaintext@),
{
    let encryptor = <cbc::Encryptor<aes::Aes128> as cbc::cipher::KeyIvInit>::new(
        key.into(),
        iv.into(),
    );
    cbc::cipher::BlockEncryptMut::encrypt_padded_vec_mut::<cbc::cipher::block_padding::Pkcs7>(
        encryptor,
        plaintext,
    )
}

/// `cbc::Decryptor::<aes::Aes128>::decrypt_padded_vec_mut` with PKCS#7
/// padding. The result depends on the key, the vector and the bytes alone.
#[verifier::external_body]
fn aes_decrypt(key: &[u8], iv: &[u8], ciphertext: &[u8]) -> (plaintext: Option<Vec<u8>>)
    requires
        key@.len() == 16,
        iv@.len() == 16,
    ensures
        crate::vault::bytes_view(plaintext) == aes_cbc_decrypted(key@, iv@, ciphertext@),
{
    let decryptor = <cbc::Decryptor<aes::Aes128> as cbc::cipher::KeyIvInit>::new(
        key.into(),
        iv.into(),
    );
    cbc::cipher::BlockDecryptMut::decrypt_padded_vec_mut::<cbc::cipher::block_padding::Pkcs7>(
        decryptor,
        ciphertext,
    ).ok()
}

/// What a transported secret decrypts to: the secret, or the message of the
/// error.
pub open spec fn decrypted(
    crypto: SessionCrypto,
    parameters: Seq<u8>,
    value: Seq<u8>,
) -> Result<Seq<u8>, Seq<char>> {
    match crypto {
        SessionCrypto::Plain => Ok(value),
        SessionCrypto::Dh(key) => if parameters.len() != 16 {
            Err("invalid IV length: "@ + crate::text::decimal(parameters.len()))
        } else {
            match aes_cbc_decrypted(key@, parameters, value) {
                Some(secret) => Ok(secret),
                None => Err("decryption failed: Unpad Error"@),
            }
        },
    }
}

/// What travels of a secret under this key, given what was drawn for the
/// vector: the parameters and the value, or the message of the error when
/// nothing was drawn.
pub open spec fn travelling(key: Seq<u8>, secret: Seq<u8>, random: Option<Vec<u8>>) -> Result<
    (Seq<u8>, Seq<u8>),
    Seq<char>,
> {
    match random {
        Some(iv) => Ok((iv@, aes_cbc_encrypted(key, iv@, secret))),
        None => Err("no random bytes are available"@),
    }
}

/// What comes of encrypting a secret for transport. A plain session carries it
/// as it is. Otherwise it is encrypted under a fresh vector, that of sixteen
/// random bytes; a secret that leaves no room for its padding is refused.
pub open spec fn encrypted(
    crypto: SessionCrypto,
    secret: Seq<u8>,
    outcome: Result<(Seq<u8>, Seq<u8>), Seq<char>>,
) -> bool {
    match crypto {
        SessionCrypto::Plain => outcome == Ok::<(Seq<u8>, Seq<u8>), Seq<char>>(
            (Seq::empty(), secret),
        ),
        SessionCrypto::Dh(key) => if secret.len() + 16 > usize::MAX {
            outcome == Err::<(Seq<u8>, Seq<u8>), Seq<char>>("secret is too long"@)
        } else {
            exists|random: Option<Vec<u8>>| #[trigger]
                crate::random::drawn(16, random) && (random matches Some(iv) ==> iv@.len() == 16)
                    && outcome == travelling(key@, secret, random)
        },
    }
}

/// Why a secret could not be encrypted.
pub open spec fn unsent(secret: Seq<u8>) -> Seq<char> {
    if secret.len() + 16 > usize::MAX {
        "secret is too long"@
    } else {
        "no random bytes are available"@
    }
}

impl SessionCrypto {
    /// A session key has the right length.
    pub open spec fn well_formed(self) -> bool {
        self matches SessionCrypto::Dh(key) ==> key@.len() == 16
    }

    /// Encrypts a secret under this vector: the parameters and the value that
    /// travel. The other side decrypts them to the secret.
    pub fn encrypt_with(&self, iv: &[u8], secret: &[u8]) -> (r: (Vec<u8>, Vec<u8>))
        requires
            self.well_formed(),
            iv@.len() == 16,
            self is Dh ==> secret@.len() + 16 <= usize::MAX,
        ensures
            decrypted(*self, r.0@, r.1@) == Ok::<Seq<u8>, Seq<char>>(secret@),
            match self {
                SessionCrypto::Plain => r.0@ == Seq::<u8>::empty() && r.1@ == secret@,
                SessionCrypto::Dh(key) => r.0@ == iv@ && r.1@ == aes_cbc_encrypted(
                    key@,
                    iv@,
                    secret@,
                ),
            },
    {
        match self {
            SessionCrypto::Plain => (Vec::new(), vstd::slice::slice_to_vec(secret)),
            SessionCrypto::Dh(key) => (
                vstd::slice::slice_to_vec(iv),
                aes_encrypt(key.as_slice(), iv, secret),
            ),
        }
    }

    /// Encrypts a secret for transport, under a fresh vector: the parameters
    /// and the value that travel. The other side decrypts them to the secret.
    /// A secret that leaves no room for its padding is refused.
    pub fn encrypt(&self, secret: &[u8]) -> (r: Result<(Vec<u8>, Vec<u8>), SecretError>)
        requires
            self.well_formed(),
        ensures
            match r {
                Ok(travels) => {
                    &&& encrypted(
                        *self,
                        secret@,
                        Ok::<(Seq<u8>, Seq<u8>), Seq<char>>((travels.0@, travels.1@)),
                    )
                    &&& decrypted(*self, travels.0@, travels.1@) == Ok::<Seq<u8>, Seq<char>>(
                        secret@,
                    )
                },
                Err(e) => {
                    &&& encrypted(
                        *self,
                        secret@,
                        Err::<(Seq<u8>, Seq<u8>), Seq<char>>(unsent(secret@)),
                    )
                    &&& crate::secret::crypto_error(e, unsent(secret@))
                },
            },
    {
        match self {
            SessionCrypto::Plain => Ok((Vec::new(), vstd::slice::slice_to_vec(secret))),
            SessionCrypto::Dh(_) => {
                if secret.len() > usize::MAX - 16 {
                    return Err(SecretError::Crypto("secret is too long".to_owned()));
                }
                match draw(SESSION_KEY_BYTES) {
                    Some(iv) => Ok(self.encrypt_with(iv.as_slice(), secret)),
                    None => Err(SecretError::Crypto("no random bytes are available".to_owned())),
                }
            },
        }
    }

    /// Decrypts a transported secret.
    pub fn decrypt(&self, parameters: &[u8], value: &[u8]) -> (r: Result<Vec<u8>, SecretError>)
        requires
            self.well_formed(),
        ensures
            match r {
                Ok(secret) => decrypted(*self, parameters@, value@) == Ok::<Seq<u8>, Seq<char>>(
                    secret@,
                ),
                Err(e) => decrypted(*self, parameters@, value@) is Err
                    && crate::secret::crypto_error(
                    e,
                    decrypted(*self, parameters@, value@)->Err_0,
                ),
            },
    {
        match self {
            SessionCrypto::Plain => Ok(vstd::slice::slice_to_vec(value)),
            SessionCrypto::Dh(key) => {
                if parameters.len() != SESSION_KEY_BYTES {
                    let mut m = "invalid IV length: ".to_owned();
                    m.append(decimal_text(parameters.len() as u64).as_str());
                    return Err(SecretError::Crypto(m));
                }
                match aes_decrypt(key.as_slice(), parameters, value) {
                    Some(secret) => Ok(secret),
                    None => Err(SecretError::Crypto("decryption failed: Unpad Error".to_owned())),
                }
            },
        }
    }
}

// ---------------------------------------------------------------------------
// Key derivation
// ---------------------------------------------------------------------------

/// The bytes that HKDF-SHA256 without a salt derives from key material.
pub uninterp spec fn hkdf_sha256(material: Seq<u8>, info: Seq<u8>, length: nat) -> Seq<u8>;

/// `hkdf::Hkdf::<sha2::Sha256>::expand` on key material without a salt: as
/// many bytes as were asked for. The result depends on the arguments alone.
#[verifier::external_body]
fn derive_bytes(material: &[u8], info: &[u8], length: usize) -> (derived: Vec<u8>)
    requires
        length <= 8160,
    ensures
        derived@ == hkdf_sha256(material@, info@, length as nat),
        derived@.len() == length,
{
    let mut derived = vec![0u8; length];
    hkdf::Hkdf::<sha2::Sha256>::new(None, material).expand(info, &mut derived).expect("length");
    derived
}

/// The secret that applications are given: 32 bytes derived from the master
/// key of the vault. Every application is given the same one.
pub fn derive_portal_secret(master_key: &[u8]) -> (secret: Vec<u8>)
    ensures
        secret@ == hkdf_sha256(
            master_key@,
            crate::state::name_bytes("aegis.portal.Secret/v1"@),
            32,
        ),
        secret@.len() == 32,
{
    derive_bytes(master_key, "aegis.portal.Secret/v1".as_bytes(), 32)
}

/// The session key that follows from a shared secret.
pub fn derive_session_key(shared: &[u8]) -> (key: Vec<u8>)
    ensures
        key@ == hkdf_sha256(shared@, Seq::<u8>::empty(), 16),
        key@.len() == 16,
{
    let info: Vec<u8> = Vec::new();
    let key = derive_bytes(shared, info.as_slice(), SESSION_KEY_BYTES);
    assert(info@ =~= Seq::<u8>::empty());
    key
}

// ---------------------------------------------------------------------------
// Diffie-Hellman
// ---------------------------------------------------------------------------

/// The number that big-endian bytes stand for.
pub open spec fn number(bytes: Seq<u8>) -> nat
    decreases bytes.len(),
{
    if bytes.len() == 0 {
        0
    } else {
        256 * number(bytes.drop_last()) + bytes.last() as nat
    }
}

/// The big-endian bytes of a number, in a fixed width.
pub open spec fn fixed_width(n: nat, width: nat) -> Seq<u8>
    decreases width,
{
    if width == 0 {
        Seq::empty()
    } else {
        fixed_width(n / 256, (width - 1) as nat).push((n % 256) as u8)
    }
}

/// The bytes of the prime of the group (the second group of RFC 2409).
pub open spec fn prime_bytes() -> Seq<u8> {
    seq![
        0xffu8, 0xff, 0xff, 0xff, 0xff, 0xff, 0xff, 0xff, 0xc9, 0x0f, 0xda, 0xa2, 0x21, 0x68, 0xc2, 0x34,
        0xc4, 0xc6, 0x62, 0x8b, 0x80, 0xdc, 0x1c, 0xd1, 0x29, 0x02, 0x4e, 0x08, 0x8a, 0x67, 0xcc, 0x74,
        0x02, 0x0b, 0xbe, 0xa6, 0x3b, 0x13, 0x9b, 0x22, 0x51, 0x4a, 0x08, 0x79, 0x8e, 0x34, 0x04, 0xdd,
        0xef, 0x95, 0x19, 0xb3, 0xcd, 0x3a, 0x43, 0x1b, 0x30, 0x2b, 0x0a, 0x6d, 0xf2, 0x5f, 0x14, 0x37,
        0x4f, 0xe1, 0x35, 0x6d, 0x6d, 0x51, 0xc2, 0x45, 0xe4, 0x85, 0xb5, 0x76, 0x62, 0x5e, 0x7e, 0xc6,
        0xf4, 0x4c, 0x42, 0xe9, 0xa6, 0x37, 0xed, 0x6b, 0x0b, 0xff, 0x5c, 0xb6, 0xf4, 0x06, 0xb7, 0xed,
        0xee, 0x38, 0x6b, 0xfb, 0x5a, 0x89, 0x9f, 0xa5, 0xae, 0x9f, 0x24, 0x11, 0x7c, 0x4b, 0x1f, 0xe6,
        0x49, 0x28, 0x66, 0x51, 0xec, 0xe6, 0x53, 0x81, 0xff, 0xff, 0xff, 0xff, 0xff, 0xff, 0xff, 0xff,
    ]
}

/// The generator of the group.
pub const GENERATOR: u8 = 2;

/// The width of a number of the group, in bytes.
pub const GROUP_BYTES: usize = 128;

/// The prime of the group.
pub open spec fn prime() -> nat {
    number(prime_bytes())
}

/// A power in the group.
pub open spec fn group_power(base: nat, exponent: nat) -> nat {
    (pow(base as int, exponent) % (prime() as int)) as nat
}

fn prime_vec() -> (bytes: Vec<u8>)
    ensures
        bytes@ == prime_bytes(),
{
    let bytes: Vec<u8> = vec![
        0xffu8, 0xff, 0xff, 0xff, 0xff, 0xff, 0xff, 0xff, 0xc9, 0x0f, 0xda, 0xa2, 0x21, 0x68, 0xc2, 0x34,
        0xc4, 0xc6, 0x62, 0x8b, 0x80, 0xdc, 0x1c, 0xd1, 0x29, 0x02, 0x4e, 0x08, 0x8a, 0x67, 0xcc, 0x74,
        0x02, 0x0b, 0xbe, 0xa6, 0x3b, 0x13, 0x9b, 0x22, 0x51, 0x4a, 0x08, 0x79, 0x8e, 0x34, 0x04, 0xdd,
        0xef, 0x95, 0x19, 0xb3, 0xcd, 0x3a, 0x43, 0x1b, 0x30, 0x2b, 0x0a, 0x6d, 0xf2, 0x5f, 0x14, 0x37,
        0x4f, 0xe1, 0x35, 0x6d, 0x6d, 0x51, 0xc2, 0x45, 0xe4, 0x85, 0xb5, 0x76, 0x62, 0x5e, 0x7e, 0xc6,
        0xf4, 0x4c, 0x42, 0xe9, 0xa6, 0x37, 0xed, 0x6b, 0x0b, 0xff, 0x5c, 0xb6, 0xf4, 0x06, 0xb7, 0xed,
        0xee, 0x38, 0x6b, 0xfb, 0x5a, 0x89, 0x9f, 0xa5, 0xae, 0x9f, 0x24, 0x11, 0x7c, 0x4b, 0x1f, 0xe6,
        0x49, 0x28, 0x66, 0x51, 0xec, 0xe6, 0x53, 0x81, 0xff, 0xff, 0xff, 0xff, 0xff, 0xff, 0xff, 0xff,
    ];
    assert(bytes@ =~= prime_bytes());
    bytes
}

/// `num_bigint::BigUint::modpow`: a power modulo a number, as the shortest
/// big-endian bytes (one byte for zero).
#[verifier::external_body]
fn power_modulo(base: &[u8], exponent: &[u8], modulus: &[u8]) -> (power: Vec<u8>)
    requires
        number(modulus@) > 0,
    ensures
        number(power@) == pow(number(base@) as int, number(exponent@)) % (number(modulus@) as int),
        power@.len() == 1 || (power@.len() > 1 && power@[0] != 0),
{
    num_bigint::BigUint::from_bytes_be(base).modpow(
        &num_bigint::BigUint::from_bytes_be(exponent),
        &num_bigint::BigUint::from_bytes_be(modulus),
    ).to_bytes_be()
}

/// `<` on `num_bigint::BigUint`: the order of the numbers that big-endian
/// bytes stand for.
#[verifier::external_body]
fn number_less(a: &[u8], b: &[u8]) -> (less: bool)
    ensures
        less == (number(a@) < number(b@)),
{
    num_bigint::BigUint::from_bytes_be(a) < num_bigint::BigUint::from_bytes_be(b)
}

/// `num_bigint::RandBigInt::gen_biguint_range` with the thread's generator: a
/// number from the first bound on and below the second. Nothing is said of
/// which one. The generator is seeded by the operating system when it is first
/// used, and does not return when that fails.
#[verifier::external_body]
fn random_number(low: &[u8], high: &[u8]) -> (drawn: Vec<u8>)
    requires
        number(low@) < number(high@),
    ensures
        number(low@) <= number(drawn@) < number(high@),
{
    num_bigint::RandBigInt::gen_biguint_range(
        &mut rand::thread_rng(),
        &num_bigint::BigUint::from_bytes_be(low),
        &num_bigint::BigUint::from_bytes_be(high),
    ).to_bytes_be()
}

proof fn number_grows(bytes: Seq<u8>)
    requires
        bytes.len() > 0,
        bytes[0] != 0,
    ensures
        number(bytes) >= pow(256, (bytes.len() - 1) as nat),
    decreases bytes.len(),
{
    vstd::arithmetic::power::lemma_pow0(256);
    if bytes.len() > 1 {
        number_grows(bytes.drop_last());
        reveal(vstd::arithmetic::power::pow);
        assert(pow(256, (bytes.len() - 1) as nat) == 256 * pow(256, (bytes.len() - 2) as nat));
    }
}

proof fn number_is_bounded(bytes: Seq<u8>)
    ensures
        number(bytes) < pow(256, bytes.len()),
    decreases bytes.len(),
{
    vstd::arithmetic::power::lemma_pow0(256);
    if bytes.len() > 0 {
        number_is_bounded(bytes.drop_last());
        reveal(vstd::arithmetic::power::pow);
        assert(pow(256, bytes.len()) == 256 * pow(256, (bytes.len() - 1) as nat));
    }
}

/// The prime and its neighbours: it is large, and one and two below it only
/// its last byte differs.
proof fn prime_is_large()
    ensures
        prime() > 1000,
        prime_bytes().len() == 128,
        number(prime_bytes().update(127, 0xfe)) == prime() - 1,
        number(prime_bytes().update(127, 0xfd)) == prime() - 2,
        prime() < pow(256, 128),
{
    let p = prime_bytes();
    assert(p[127] == 0xff);
    assert(p[0] == 0xff);
    number_is_bounded(p);
    assert(p.update(127, 0xfe).drop_last() =~= p.drop_last());
    assert(p.update(127, 0xfd).drop_last() =~= p.drop_last());
    number_grows(p.drop_last());
    vstd::arithmetic::power::lemma_pow_increases(256, 1, 126);
    vstd::arithmetic::power::lemma_pow1(256);
}

proof fn fixed_width_of_zero(width: nat)
    ensures
        fixed_width(0, width) == Seq::new(width, |i: int| 0u8),
    decreases width,
{
    if width > 0 {
        fixed_width_of_zero((width - 1) as nat);
        assert(fixed_width(0, width) =~= Seq::new(width, |i: int| 0u8));
    } else {
        assert(fixed_width(0, width) =~= Seq::new(width, |i: int| 0u8));
    }
}

proof fn padding_is_fixed_width(bytes: Seq<u8>, width: nat)
    requires
        bytes.len() <= width,
    ensures
        Seq::new((width - bytes.len()) as nat, |i: int| 0u8) + bytes == fixed_width(
            number(bytes),
            width,
        ),
    decreases bytes.len(),
{
    let zeros = Seq::new((width - bytes.len()) as nat, |i: int| 0u8);
    if bytes.len() == 0 {
        fixed_width_of_zero(width);
        assert(zeros + bytes =~= Seq::new(width, |i: int| 0u8));
    } else {
        padding_is_fixed_width(bytes.drop_last(), (width - 1) as nat);
        let n = number(bytes);
        assert(n / 256 == number(bytes.drop_last()));
        assert(n % 256 == bytes.last());
        assert(zeros + bytes =~= (zeros + bytes.drop_last()).push(bytes.last()));
        assert(zeros =~= Seq::new(
            ((width - 1) as nat - bytes.drop_last().len()) as nat,
            |i: int| 0u8,
        ));
    }
}

/// Pads a power of the group to the width of the group.
fn padded(bytes: Vec<u8>) -> (wide: Vec<u8>)
    requires
        number(bytes@) < prime(),
        bytes@.len() == 1 || (bytes@.len() > 1 && bytes@[0] != 0),
    ensures
        wide@ == fixed_width(number(bytes@), 128),
{
    proof {
        prime_is_large();
        if bytes@.len() > 128 {
            number_grows(bytes@);
            vstd::arithmetic::power::lemma_pow_increases(256, 128, (bytes@.len() - 1) as nat);
        }
        padding_is_fixed_width(bytes@, 128);
    }
    let mut wide: Vec<u8> = Vec::new();
    let missing: usize = GROUP_BYTES - bytes.len();
    let mut i: usize = 0;
    while i < missing
        invariant
            i <= missing,
            wide@ =~= Seq::new(i as nat, |k: int| 0u8),
        decreases missing - i,
    {
        wide.push(0);
        i = i + 1;
    }
    let ghost zeros = wide@;
    wide.extend_from_slice(bytes.as_slice());
    assert(wide@ =~= zeros + bytes@);
    wide
}

/// A public key is in the range that an exchange accepts: above one, and
/// below one less than the prime.
pub open spec fn acceptable(public: nat) -> bool {
    1 < public < prime() - 1
}

/// The server's side of an exchange with this exponent: the public key that
/// it sends, and the session key that follows from the client's public key.
pub fn exchange(client: &[u8], exponent: &[u8]) -> (r: Result<(Vec<u8>, Vec<u8>), SecretError>)
    ensures
        match r {
            Ok(keys) => {
                &&& acceptable(number(client@))
                &&& keys.0@ == fixed_width(
                    group_power(GENERATOR as nat, number(exponent@)),
                    128,
                )
                &&& keys.1@ == hkdf_sha256(
                    fixed_width(group_power(number(client@), number(exponent@)), 128),
                    Seq::<u8>::empty(),
                    16,
                )
                &&& keys.1@.len() == 16
            },
            Err(e) => !acceptable(number(client@)) && crate::secret::crypto_error(
                e,
                "client DH public key out of valid range"@,
            ),
        },
{
    let modulus = prime_vec();
    let mut top = prime_vec();
    top.set(GROUP_BYTES - 1, 0xfe);
    let mut one: Vec<u8> = Vec::new();
    one.push(1);
    let mut generator: Vec<u8> = Vec::new();
    generator.push(GENERATOR);
    proof {
        prime_is_large();
        reveal_with_fuel(number, 2);
        assert(one@.drop_last() =~= Seq::<u8>::empty());
        assert(generator@.drop_last() =~= Seq::<u8>::empty());
        assert(number(one@) == 1);
        assert(number(generator@) == 2);
    }
    if !number_less(one.as_slice(), client) || !number_less(client, top.as_slice()) {
        return Err(SecretError::Crypto("client DH public key out of valid range".to_owned()));
    }
    let public = power_modulo(generator.as_slice(), exponent, modulus.as_slice());
    let shared = power_modulo(client, exponent, modulus.as_slice());
    proof {
        vstd::arithmetic::div_mod::lemma_mod_bound(
            pow(2, number(exponent@)),
            prime() as int,
        );
        vstd::arithmetic::div_mod::lemma_mod_bound(
            pow(number(client@) as int, number(exponent@)),
            prime() as int,
        );
    }
    let mut wide = padded(shared);
    let key = derive_session_key(wide.as_slice());
    wipe_bytes(&mut wide);
    Ok((padded(public), key))
}

/// The server's side of an exchange, with a fresh exponent: the public key
/// that it sends, and the session key.
pub fn calculate_dh_shared_secret(client: &[u8]) -> (r: Result<(Vec<u8>, Vec<u8>), SecretError>)
    ensures
        match r {
            Ok(keys) => acceptable(number(client@)) && exchanged(client@, keys.0@, keys.1@),
            Err(e) => !acceptable(number(client@)) && crate::secret::crypto_error(
                e,
                "client DH public key out of valid range"@,
            ),
        },
{
    let mut low: Vec<u8> = Vec::new();
    low.push(2);
    let mut high = prime_vec();
    high.set(GROUP_BYTES - 1, 0xfd);
    proof {
        prime_is_large();
        reveal_with_fuel(number, 2);
        assert(low@.drop_last() =~= Seq::<u8>::empty());
        assert(number(low@) == 2);
    }
    let exponent = random_number(low.as_slice(), high.as_slice());
    assert(exponent_drawn(number(exponent@)));
    let r = exchange(client, exponent.as_slice());
    assert(r is Ok ==> answers_with(
        client@,
        number(exponent@),
        (r->Ok_0).0@,
        (r->Ok_0).1@,
    ));
    r
}

/// The exponent was drawn at random, from two up to below two less than the
/// prime.
pub closed spec fn exponent_drawn(exponent: nat) -> bool {
    exists|low: &[u8], high: &[u8], given: Vec<u8>|
        number(low@) == 2 && number(high@) == prime() - 2 && #[trigger] call_ensures(
            random_number,
            (low, high),
            given,
        ) && number(given@) == exponent
}

/// What an exchange with this exponent answers.
pub open spec fn answers_with(
    client: Seq<u8>,
    exponent: nat,
    public: Seq<u8>,
    key: Seq<u8>,
) -> bool {
    &&& 2 <= exponent < prime() - 2
    &&& public == fixed_width(group_power(GENERATOR as nat, exponent), 128)
    &&& key == hkdf_sha256(
        fixed_width(group_power(number(client), exponent), 128),
        Seq::<u8>::empty(),
        16,
    )
    &&& key.len() == 16
}

/// The answer is that of an exchange with a freshly drawn exponent.
pub open spec fn exchanged(client: Seq<u8>, public: Seq<u8>, key: Seq<u8>) -> bool {
    exists|exponent: nat|
        exponent_drawn(exponent) && #[trigger] answers_with(client, exponent, public, key)
}

/// Both sides of an exchange arrive at the same shared secret: the client's
/// public key raised to the server's exponent is the server's public key
/// raised to the client's exponent.
pub proof fn both_sides_agree(client_exponent: nat, server_exponent: nat)
    ensures
        group_power(group_power(GENERATOR as nat, client_exponent), server_exponent) == group_power(
            group_power(GENERATOR as nat, server_exponent),
            client_exponent,
        ),
{
    prime_is_large();
    let g = GENERATOR as int;
    let p = prime() as int;
    let a = client_exponent;
    let b = server_exponent;
    vstd::arithmetic::div_mod::lemma_mod_bound(pow(g, a), p);
    vstd::arithmetic::div_mod::lemma_mod_bound(pow(g, b), p);
    vstd::arithmetic::power::lemma_pow_mod_noop(pow(g, a), b, p);
    vstd::arithmetic::power::lemma_pow_mod_noop(pow(g, b), a, p);
    vstd::arithmetic::power::lemma_pow_multiplies(g, a, b);
    vstd::arithmetic::power::lemma_pow_multiplies(g, b, a);
    assert(a * b == b * a) by (nonlinear_arith);
}

/// A public key read back from its bytes is the number that was sent.
pub proof fn public_keys_round_trip(n: nat, width: nat)
    requires
        n < pow(256, width),
    ensures
        number(fixed_width(n, width)) == n,
    decreases width,
{
    vstd::arithmetic::power::lemma_pow0(256);
    if width > 0 {
        reveal(vstd::arithmetic::power::pow);
        assert(pow(256, width) == 256 * pow(256, (width - 1) as nat));
        assert(n / 256 < pow(256, (width - 1) as nat));
        public_keys_round_trip(n / 256, (width - 1) as nat);
        let wide = fixed_width(n, width);
        assert(wide.drop_last() =~= fixed_width(n / 256, (width - 1) as nat));
        assert(wide.last() == (n % 256) as u8);
        assert(n == 256 * (n / 256) + n % 256);
    }
}

/// A power fits the width of a public key.
pub proof fn powers_are_small(base: nat, exponent: nat)
    ensures
        group_power(base, exponent) < pow(256, 128),
{
    prime_is_large();
}

} // verus!
