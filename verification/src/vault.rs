//! The vault at rest.
//!
//! A vault file is a 24-byte nonce followed by the sealed content. It is
//! opened with a 32-byte master key, which is either kept in a key file, in
//! hexadecimal, or derived from a password.

use vstd::prelude::*;
use vstd::string::*;

use crate::paths::{file_name_of, join, parent_of};
use crate::random::draw;
use crate::secret::SecretError;
use crate::text::{hex_bytes_text, trim, utf8_text};
use crate::textmap::TextMap;
use crate::wipe::{wipe_bytes, wipe_text};

verus! {

/// The length of the nonce in front of the sealed content.
pub const NONCE_BYTES: usize = 24;

/// The opened content of a vault: every kept collection and item.
pub struct VaultData {
    pub collections: Vec<CollectionData>,
}

/// A kept collection.
pub struct CollectionData {
    pub id: String,
    pub label: String,
    pub items: Vec<ItemData>,
}

/// A kept item.
pub struct ItemData {
    pub id: String,
    pub label: String,
    pub attributes: TextMap<String>,
    pub secret: Vec<u8>,
}

/// An open vault: where its file is, and its master key.
pub struct Vault {
    pub path: Vec<u8>,
    pub master_key: [u8; 32],
}

// ---------------------------------------------------------------------------
// Keys
// ---------------------------------------------------------------------------

/// Why `argon2::password_hash::SaltString::from_b64` refuses a salt, if it
/// does.
pub uninterp spec fn salt_problem(salt: Seq<char>) -> Option<Seq<char>>;

/// A character of a salt.
pub open spec fn salt_char(c: char) -> bool {
    ('a' <= c <= 'z') || ('A' <= c <= 'Z') || ('0' <= c <= '9') || c == '/' || c == '+' || c == '.'
        || c == '-'
}

/// A salt that can be used: between 4 and 64 characters of the alphabet.
pub open spec fn usable_salt(salt: Seq<char>) -> bool {
    &&& 4 <= salt.len() <= 64
    &&& forall|i: int| 0 <= i < salt.len() ==> salt_char(#[trigger] salt[i])
}

/// `argon2::password_hash::SaltString::from_b64`: it takes between 4 and 64
/// letters, digits and `/+.-`. What the error for another salt says depends
/// on the salt alone.
#[verifier::external_body]
fn check_salt(salt: &str) -> (problem: Option<String>)
    ensures
        crate::options::opt_text(problem) == salt_problem(salt@),
        problem is None <==> usable_salt(salt@),
{
    match argon2::password_hash::SaltString::from_b64(salt) {
        Ok(_) => None,
        Err(error) => Some(error.to_string()),
    }
}

/// The text that `argon2::password_hash::SaltString::encode_b64` makes of
/// bytes, if it takes them.
pub uninterp spec fn salt_of(bytes: Seq<u8>) -> Option<Seq<char>>;

/// `argon2::password_hash::SaltString::encode_b64`: sixteen bytes are
/// encoded, and the encoding is a salt that `from_b64` takes.
#[verifier::external_body]
fn encode_salt(bytes: &[u8]) -> (salt: Option<String>)
    ensures
        crate::options::opt_text(salt) == salt_of(bytes@),
        bytes@.len() == 16 ==> salt is Some && salt_problem(salt->0@) is None && usable_salt(
            salt->0@,
        ),
{
    match argon2::password_hash::SaltString::encode_b64(bytes) {
        Ok(salt) => Some(salt.as_str().to_string()),
        Err(_) => None,
    }
}

/// What Argon2id with its default parameters makes of a password and a salt:
/// a 32-byte key, or the text of its error.
pub uninterp spec fn argon2id(password: Seq<u8>, salt: Seq<u8>) -> Result<Seq<u8>, Seq<char>>;

/// The view of a derived key.
pub open spec fn key_view(r: Result<[u8; 32], String>) -> Result<Seq<u8>, Seq<char>> {
    match r {
        Ok(key) => Ok(key@),
        Err(m) => Err(m@),
    }
}

/// `argon2::Argon2::hash_password_into` with the default parameters and a
/// 32-byte output. The result depends on the password and the salt alone.
#[verifier::external_body]
fn hash_password(password: &[u8], salt: &[u8]) -> (r: Result<[u8; 32], String>)
    ensures
        key_view(r) == argon2id(password@, salt@),
{
    let mut key = [0u8; 32];
    match argon2::Argon2::default().hash_password_into(password, salt, &mut key) {
        Ok(()) => Ok(key),
        Err(error) => Err(error.to_string()),
    }
}

/// What a password and a salt derive: a key, or the message of the error.
pub open spec fn derived(password: Seq<char>, salt: Seq<char>) -> Result<Seq<u8>, Seq<char>> {
    match salt_problem(salt) {
        Some(problem) => Err("invalid salt: "@ + problem),
        None => match argon2id(
            vstd::utf8::encode_utf8(password),
            vstd::utf8::encode_utf8(salt),
        ) {
            Ok(key) => Ok(key),
            Err(problem) => Err("hash failed: "@ + problem),
        },
    }
}

/// The value of a hexadecimal digit of either case.
pub open spec fn hex_digit(b: u8) -> Option<u8> {
    if 48 <= b <= 57 {
        Some((b - 48) as u8)
    } else if 97 <= b <= 102 {
        Some((b - 87) as u8)
    } else if 65 <= b <= 70 {
        Some((b - 55) as u8)
    } else {
        None
    }
}

/// A plus sign.
pub const PLUS: u8 = 43;

/// The byte that two characters of a key file stand for: two hexadecimal
/// digits, or a sign and one digit.
pub open spec fn hex_pair(a: u8, b: u8) -> Option<u8> {
    match (hex_digit(a), hex_digit(b)) {
        (Some(high), Some(low)) => Some((16 * high + low) as u8),
        (None, Some(low)) => if a == PLUS {
            Some(low)
        } else {
            None
        },
        _ => None,
    }
}

/// The message for a pair that stands for no byte.
pub open spec fn pair_problem(a: u8, b: u8) -> Seq<char> {
    if vstd::utf8::valid_utf8(seq![a, b]) {
        "invalid hex byte: "@ + vstd::utf8::decode_utf8(seq![a, b])
    } else {
        "invalid hex in vault.key"@
    }
}

/// The bytes that pairs of characters stand for, up to the first pair that
/// stands for none, or the message for that pair.
pub open spec fn unhex(text: Seq<u8>, pairs: nat) -> Result<Seq<u8>, Seq<char>>
    decreases pairs,
{
    if pairs == 0 {
        Ok(Seq::empty())
    } else {
        match unhex(text, (pairs - 1) as nat) {
            Err(m) => Err(m),
            Ok(bytes) => {
                let a = text[2 * pairs - 2];
                let b = text[2 * pairs - 1];
                match hex_pair(a, b) {
                    Some(byte) => Ok(bytes.push(byte)),
                    None => Err(pair_problem(a, b)),
                }
            },
        }
    }
}

/// What the text of a key file stands for: a key, or the message of the
/// error. White space around the text is ignored.
pub open spec fn key_of_hex(hex: Seq<char>) -> Result<Seq<u8>, Seq<char>> {
    let text = vstd::utf8::encode_utf8(crate::text::trimmed(hex));
    if text.len() != 64 {
        Err("vault.key must be 64 hex chars (32 bytes)"@)
    } else {
        unhex(text, 32)
    }
}

fn hex_digit_value(b: u8) -> (value: Option<u8>)
    ensures
        value == hex_digit(b),
{
    if b >= 48 && b <= 57 {
        Some(b - 48)
    } else if b >= 97 && b <= 102 {
        Some(b - 87)
    } else if b >= 65 && b <= 70 {
        Some(b - 55)
    } else {
        None
    }
}

fn read_pair(a: u8, b: u8) -> (r: Result<u8, SecretError>)
    ensures
        match r {
            Ok(byte) => hex_pair(a, b) == Some(byte),
            Err(e) => hex_pair(a, b) is None && crate::secret::crypto_error(e, pair_problem(a, b)),
        },
{
    match (hex_digit_value(a), hex_digit_value(b)) {
        (Some(high), Some(low)) => Ok(16 * high + low),
        (high, low) => {
            if let Some(low) = low {
                if a == PLUS {
                    return Ok(low);
                }
            }
            let mut pair: Vec<u8> = Vec::new();
            pair.push(a);
            pair.push(b);
            assert(pair@ =~= seq![a, b]);
            match utf8_text(pair.as_slice()) {
                Some(text) => {
                    let mut m = "invalid hex byte: ".to_owned();
                    m.append(text.as_str());
                    Err(SecretError::Crypto(m))
                },
                None => Err(SecretError::Crypto("invalid hex in vault.key".to_owned())),
            }
        },
    }
}

impl Vault {
    /// A vault that is opened with this key.
    pub fn new(path: Vec<u8>, master_key: [u8; 32]) -> (vault: Self)
        ensures
            vault.path == path,
            vault.master_key == master_key,
    {
        Vault { path, master_key }
    }

    /// The master key. Keys for other purposes are derived from it.
    pub fn get_master_key(&self) -> (key: &[u8; 32])
        ensures
            *key == self.master_key,
    {
        &self.master_key
    }

    /// Derives the master key of a vault with a password.
    pub fn derive_key(password: &str, salt: &str) -> (r: Result<[u8; 32], SecretError>)
        ensures
            salt_problem(salt@) is None <==> usable_salt(salt@),
            usable_salt(salt@) ==> match argon2id(
                vstd::utf8::encode_utf8(password@),
                vstd::utf8::encode_utf8(salt@),
            ) {
                Ok(key) => r is Ok && r->Ok_0@ == key,
                Err(_) => r is Err,
            },
            r is Ok ==> usable_salt(salt@),
            match r {
                Ok(key) => derived(password@, salt@) == Ok::<Seq<u8>, Seq<char>>(key@),
                Err(e) => derived(password@, salt@) is Err && crate::secret::crypto_error(
                    e,
                    derived(password@, salt@)->Err_0,
                ),
            },
    {
        if let Some(problem) = check_salt(salt) {
            let mut m = "invalid salt: ".to_owned();
            m.append(problem.as_str());
            return Err(SecretError::Crypto(m));
        }
        match hash_password(password.as_bytes(), salt.as_bytes()) {
            Ok(key) => Ok(key),
            Err(problem) => {
                let mut m = "hash failed: ".to_owned();
                m.append(problem.as_str());
                Err(SecretError::Crypto(m))
            },
        }
    }

    /// A fresh salt for a vault with a password, made of sixteen random bytes.
    /// It is one that a key can be derived with.
    pub fn generate_salt() -> (r: Result<String, SecretError>)
        ensures
            exists|random: Option<Vec<u8>>| #[trigger]
                crate::random::drawn(16, random) && match random {
                    Some(bytes) => bytes@.len() == 16 && r is Ok && salt_of(bytes@) == Some(
                        r->Ok_0@,
                    ),
                    None => r is Err && crate::secret::crypto_error(
                        r->Err_0,
                        "no random bytes are available"@,
                    ),
                },
            r matches Ok(salt) ==> salt_problem(salt@) is None && usable_salt(salt@),
    {
        match draw(16) {
            Some(bytes) => match encode_salt(bytes.as_slice()) {
                Some(salt) => Ok(salt),
                None => Err(SecretError::Crypto("the salt cannot be encoded".to_owned())),
            },
            None => Err(SecretError::Crypto("no random bytes are available".to_owned())),
        }
    }

    /// The master key that thirty-two bytes make.
    pub fn key_of_bytes(bytes: &[u8]) -> (key: [u8; 32])
        requires
            bytes@.len() == 32,
        ensures
            key@ == bytes@,
    {
        let mut key: [u8; 32] = [0u8; 32];
        let mut i: usize = 0;
        while i < 32
            invariant
                i <= 32,
                bytes@.len() == 32,
                forall|k: int| 0 <= k < i ==> #[trigger] key@[k] == bytes@[k],
            decreases 32 - i,
        {
            key[i] = bytes[i];
            i = i + 1;
        }
        assert(key@ =~= bytes@);
        key
    }

    /// A fresh master key: thirty-two random bytes.
    pub fn generate_key() -> (r: Result<[u8; 32], SecretError>)
        ensures
            exists|random: Option<Vec<u8>>| #[trigger]
                crate::random::drawn(32, random) && match random {
                    Some(bytes) => bytes@.len() == 32 && r is Ok && r->Ok_0@ == bytes@,
                    None => r matches Err(e) && crate::secret::crypto_error(
                        e,
                        "no random bytes are available"@,
                    ),
                },
    {
        match draw(32) {
            Some(bytes) => {
                let mut bytes = bytes;
                let key = Vault::key_of_bytes(bytes.as_slice());
                wipe_bytes(&mut bytes);
                Ok(key)
            },
            None => Err(SecretError::Crypto("no random bytes are available".to_owned())),
        }
    }

    /// The text of a key file.
    pub fn key_to_hex(key: &[u8; 32]) -> (hex: String)
        ensures
            hex@ == crate::text::hex_bytes(key@),
    {
        hex_bytes_text(key.as_slice())
    }

    /// Reads the text of a key file, and wipes what it was read into.
    pub fn key_from_hex(hex: &str) -> (r: Result<[u8; 32], SecretError>)
        ensures
            match r {
                Ok(key) => key_of_hex(hex@) == Ok::<Seq<u8>, Seq<char>>(key@),
                Err(e) => key_of_hex(hex@) is Err && crate::secret::crypto_error(
                    e,
                    key_of_hex(hex@)->Err_0,
                ),
            },
    {
        let mut trimmed = trim(hex);
        let mut bytes: Vec<u8> = Vec::new();
        let problem = read_pairs(trimmed.as_str().as_bytes(), &mut bytes);
        wipe_text(&mut trimmed);
        let r = match problem {
            Some(error) => Err(error),
            None => Ok(Vault::key_of_bytes(bytes.as_slice())),
        };
        wipe_bytes(&mut bytes);
        r
    }
}

/// Reads the hexadecimal text of a key into bytes: `None`, or what is wrong
/// with it.
fn read_pairs(text: &[u8], bytes: &mut Vec<u8>) -> (problem: Option<SecretError>)
    requires
        old(bytes)@.len() == 0,
    ensures
        match problem {
            None => text@.len() == 64 && unhex(text@, 32) == Ok::<Seq<u8>, Seq<char>>(
                final(bytes)@,
            ) && final(bytes)@.len() == 32,
            Some(e) => if text@.len() != 64 {
                crate::secret::crypto_error(e, "vault.key must be 64 hex chars (32 bytes)"@)
            } else {
                unhex(text@, 32) is Err && crate::secret::crypto_error(
                    e,
                    unhex(text@, 32)->Err_0,
                )
            },
        },
{
    if text.len() != 64 {
        return Some(SecretError::Crypto("vault.key must be 64 hex chars (32 bytes)".to_owned()));
    }
    let mut i: usize = 0;
    assert(bytes@ =~= Seq::<u8>::empty());
    while i < 32
        invariant
            i <= 32,
            text@.len() == 64,
            bytes@.len() == i,
            unhex(text@, i as nat) == Ok::<Seq<u8>, Seq<char>>(bytes@),
        decreases 32 - i,
    {
        match read_pair(text[2 * i], text[2 * i + 1]) {
            Ok(byte) => {
                bytes.push(byte);
            },
            Err(error) => {
                proof {
                    first_problem_stands(text@, (i + 1) as nat, 32);
                }
                return Some(error);
            },
        }
        i = i + 1;
    }
    None
}

proof fn first_problem_stands(text: Seq<u8>, pairs: nat, all: nat)
    requires
        pairs <= all,
        unhex(text, pairs) is Err,
    ensures
        unhex(text, all) == unhex(text, pairs),
    decreases all,
{
    if pairs < all {
        first_problem_stands(text, pairs, (all - 1) as nat);
    }
}

// ---------------------------------------------------------------------------
// Sealing
// ---------------------------------------------------------------------------

/// The bytes that XChaCha20-Poly1305 seals a plaintext into.
pub uninterp spec fn xchacha_sealed(key: Seq<u8>, nonce: Seq<u8>, plaintext: Seq<u8>) -> Seq<u8>;

/// The plaintext that XChaCha20-Poly1305 opens sealed bytes into, if they are
/// authentic.
pub uninterp spec fn xchacha_opened(key: Seq<u8>, nonce: Seq<u8>, sealed: Seq<u8>) -> Option<
    Seq<u8>,
>;

/// The longest plaintext that can be sealed: blocks of 64 bytes, numbered by a
/// 32-bit counter of which the first and the last value are not used.
pub const MAX_PLAINTEXT_BYTES: u64 = 274877906816;

/// The bytes of the tag behind sealed content.
pub const TAG_BYTES: u64 = 16;

/// The view of optional bytes.
pub open spec fn bytes_view(bytes: Option<Vec<u8>>) -> Option<Seq<u8>> {
    match bytes {
        Some(bytes) => Some(bytes@),
        None => None,
    }
}

/// `chacha20poly1305::XChaCha20Poly1305::encrypt` without associated data. It
/// takes every plaintext up to the longest one, adds a 16-byte tag, and what
/// it seals can be opened with the same key and nonce.
#[verifier::external_body]
fn seal_bytes(key: &[u8], nonce: &[u8], plaintext: &[u8]) -> (sealed: Vec<u8>)
    requires
        key@.len() == 32,
        nonce@.len() == 24,
        plaintext@.len() <= MAX_PLAINTEXT_BYTES,
    ensures
        sealed@ == xchacha_sealed(key@, nonce@, plaintext@),
        sealed@.len() == plaintext@.len() + TAG_BYTES,
        xchacha_opened(key@, nonce@, sealed@) == Some(plaintext@),
{
    let cipher = <chacha20poly1305::XChaCha20Poly1305 as chacha20poly1305::KeyInit>::new(
        chacha20poly1305::Key::from_slice(key),
    );
    let nonce = chacha20poly1305::XNonce::from_slice(nonce);
    chacha20poly1305::aead::Aead::encrypt(&cipher, nonce, plaintext).expect("length")
}

/// `chacha20poly1305::XChaCha20Poly1305::decrypt` without associated data, on
/// nothing longer than what the longest plaintext is sealed into. The result
/// depends on the key, the nonce and the sealed bytes alone.
#[verifier::external_body]
fn open_bytes(key: &[u8], nonce: &[u8], sealed: &[u8]) -> (plaintext: Option<Vec<u8>>)
    requires
        key@.len() == 32,
        nonce@.len() == 24,
        sealed@.len() <= MAX_PLAINTEXT_BYTES + TAG_BYTES,
    ensures
        bytes_view(plaintext) == xchacha_opened(key@, nonce@, sealed@),
{
    let cipher = <chacha20poly1305::XChaCha20Poly1305 as chacha20poly1305::KeyInit>::new(
        chacha20poly1305::Key::from_slice(key),
    );
    let nonce = chacha20poly1305::XNonce::from_slice(nonce);
    chacha20poly1305::aead::Aead::decrypt(&cipher, nonce, sealed).ok()
}

/// What a vault file holds, if it can be opened: it begins with a nonce, and
/// what follows is authentic and not longer than anything that is sealed.
pub open spec fn opened(key: Seq<u8>, file: Seq<u8>) -> Option<Seq<u8>> {
    if file.len() < 24 || file.len() - 24 > MAX_PLAINTEXT_BYTES + TAG_BYTES {
        None
    } else {
        xchacha_opened(key, file.take(24), file.skip(24))
    }
}

/// What comes of reading a vault from disk: a missing file is an empty vault
/// without a plaintext, and a file that cannot be opened is an error.
pub open spec fn load_result(
    key: Seq<u8>,
    file: Option<Seq<u8>>,
    r: Result<Option<Vec<u8>>, SecretError>,
) -> bool {
    match file {
        None => r is Ok && r->Ok_0 is None,
        Some(file) => match r {
            Ok(plaintext) => plaintext is Some && opened(key, file) == Some(plaintext->0@),
            Err(e) => opened(key, file) is None && (if file.len() < 24 {
                crate::secret::vault_error(e, "vault file corrupted"@)
            } else {
                crate::secret::crypto_error(e, "decryption failure: aead::Error"@)
            }),
        },
    }
}

/// A vault file is never read as an empty vault, and never in part: under any
/// key, reading a file that some key opens gives the whole plaintext that is
/// authentic under that key, or the error of the cipher.
pub proof fn vault_files_are_read_whole(
    key: Seq<u8>,
    other: Seq<u8>,
    file: Seq<u8>,
    r: Result<Option<Vec<u8>>, SecretError>,
)
    requires
        opened(key, file) is Some,
        load_result(other, Some(file), r),
    ensures
        match r {
            Ok(plaintext) => plaintext is Some && xchacha_opened(
                other,
                file.take(24),
                file.skip(24),
            ) == Some(plaintext->0@),
            Err(e) => e is Crypto && xchacha_opened(other, file.take(24), file.skip(24)) is None,
        },
{
}

/// The vault file that holds a plaintext under this nonce, or the message of
/// the error when the plaintext is too long.
pub open spec fn sealed_file(key: Seq<u8>, nonce: Seq<u8>, plaintext: Seq<u8>) -> Result<
    Seq<u8>,
    Seq<char>,
> {
    if plaintext.len() > MAX_PLAINTEXT_BYTES {
        Err("encryption failure: aead::Error"@)
    } else {
        Ok(nonce + xchacha_sealed(key, nonce, plaintext))
    }
}

/// The outcome is a file, or an error of the cipher with this message.
pub open spec fn file_outcome(
    r: Result<Vec<u8>, SecretError>,
    outcome: Result<Seq<u8>, Seq<char>>,
) -> bool {
    match outcome {
        Ok(file) => r is Ok && r->Ok_0@ == file,
        Err(message) => r is Err && crate::secret::crypto_error(r->Err_0, message),
    }
}

impl Vault {
    /// The vault file that holds a plaintext under this nonce. Reading it
    /// back gives the plaintext. A plaintext that is too long for the cipher
    /// is refused.
    pub fn seal_with(&self, nonce: &[u8], plaintext: &[u8]) -> (r: Result<Vec<u8>, SecretError>)
        requires
            nonce@.len() == 24,
        ensures
            file_outcome(r, sealed_file(self.master_key@, nonce@, plaintext@)),
            r matches Ok(file) ==> opened(self.master_key@, file@) == Some(plaintext@),
            r matches Ok(file) ==> file@.len() == plaintext@.len() + 40,
    {
        if plaintext.len() as u64 > MAX_PLAINTEXT_BYTES {
            return Err(SecretError::Crypto("encryption failure: aead::Error".to_owned()));
        }
        let sealed = seal_bytes(self.master_key.as_slice(), nonce, plaintext);
        let mut file = vstd::slice::slice_to_vec(nonce);
        file.extend_from_slice(sealed.as_slice());
        assert(file@ =~= nonce@ + sealed@);
        assert(file@.take(24) =~= nonce@);
        assert(file@.skip(24) =~= sealed@);
        Ok(file)
    }

    /// The vault file that holds a plaintext, under a fresh nonce of
    /// twenty-four random bytes. Reading it back gives the plaintext.
    pub fn save(&self, plaintext: &[u8]) -> (r: Result<Vec<u8>, SecretError>)
        ensures
            exists|random: Option<Vec<u8>>| #[trigger]
                crate::random::drawn(24, random) && match random {
                    Some(nonce) => nonce@.len() == 24 && file_outcome(
                        r,
                        sealed_file(self.master_key@, nonce@, plaintext@),
                    ),
                    None => r is Err && crate::secret::crypto_error(
                        r->Err_0,
                        "no random bytes are available"@,
                    ),
                },
            r matches Ok(file) ==> opened(self.master_key@, file@) == Some(plaintext@),
            r matches Ok(file) ==> file@.len() == plaintext@.len() + 40,
    {
        match draw(NONCE_BYTES) {
            Some(nonce) => self.seal_with(nonce.as_slice(), plaintext),
            None => Err(SecretError::Crypto("no random bytes are available".to_owned())),
        }
    }

    /// The plaintext of a vault file.
    pub fn load(&self, file: &[u8]) -> (r: Result<Vec<u8>, SecretError>)
        ensures
            match r {
                Ok(plaintext) => opened(self.master_key@, file@) == Some(plaintext@),
                Err(e) => opened(self.master_key@, file@) is None && (if file@.len() < 24 {
                    crate::secret::vault_error(e, "vault file corrupted"@)
                } else {
                    crate::secret::crypto_error(e, "decryption failure: aead::Error"@)
                }),
            },
    {
        if file.len() < NONCE_BYTES {
            return Err(SecretError::Vault("vault file corrupted".to_owned()));
        }
        if (file.len() - NONCE_BYTES) as u64 > MAX_PLAINTEXT_BYTES + TAG_BYTES {
            return Err(SecretError::Crypto("decryption failure: aead::Error".to_owned()));
        }
        let nonce = vstd::slice::slice_subrange(file, 0, NONCE_BYTES);
        let sealed = vstd::slice::slice_subrange(file, NONCE_BYTES, file.len());
        assert(nonce@ =~= file@.take(24));
        assert(sealed@ =~= file@.skip(24));
        match open_bytes(self.master_key.as_slice(), nonce, sealed) {
            Some(plaintext) => Ok(plaintext),
            None => Err(SecretError::Crypto("decryption failure: aead::Error".to_owned())),
        }
    }

    /// What the vault holds on disk: the plaintext of its file. A missing
    /// file reads as an empty vault, which has no plaintext; a file that
    /// cannot be opened is an error.
    pub fn load_stored(&self, file: Option<&[u8]>) -> (r: Result<Option<Vec<u8>>, SecretError>)
        ensures
            load_result(
                self.master_key@,
                match file {
                    Some(file) => Some(file@),
                    None => None,
                },
                r,
            ),
    {
        match file {
            None => Ok(None),
            Some(file) => match self.load(file) {
                Ok(plaintext) => Ok(Some(plaintext)),
                Err(error) => Err(error),
            },
        }
    }

    /// Checks a locked vault file without its key: it is there (`None` when
    /// it is not) and holds a nonce.
    pub fn validate_ciphertext(length: Option<usize>) -> (r: Result<(), SecretError>)
        ensures
            match r {
                Ok(_) => length matches Some(n) && n >= 24,
                Err(e) => match length {
                    Some(n) => n < 24 && crate::secret::vault_error(e, "vault file corrupted"@),
                    None => crate::secret::vault_error(e, "vault file is missing"@),
                },
            },
    {
        match length {
            None => Err(SecretError::Vault("vault file is missing".to_owned())),
            Some(n) => if n < NONCE_BYTES {
                Err(SecretError::Vault("vault file corrupted".to_owned()))
            } else {
                Ok(())
            },
        }
    }
}

// ---------------------------------------------------------------------------
// Files
// ---------------------------------------------------------------------------

/// The path of the file that is written before it replaces another.
pub open spec fn temporary_beside(
    parent: Seq<u8>,
    name: Seq<u8>,
    suffix: Seq<char>,
) -> Seq<u8> {
    crate::paths::joined(
        parent,
        crate::state::name_bytes("."@) + name + crate::state::name_bytes("."@)
            + vstd::utf8::encode_utf8(suffix) + crate::state::name_bytes(".tmp"@),
    )
}

/// The path of the file that is written before it replaces the one at
/// `path`: beside it, so that the replacement is atomic.
pub fn temporary_path(path: &[u8], suffix: &str) -> (r: Result<Vec<u8>, String>)
    ensures
        match r {
            Ok(temporary) => crate::paths::parent(path@) matches Some(parent)
                && crate::paths::file_name(path@) matches Some(name) && temporary@
                == temporary_beside(parent, name, suffix@),
            Err(m) => if crate::paths::parent(path@) is None {
                m@ == "vault path must have a parent directory"@
            } else {
                crate::paths::file_name(path@) is None && m@ == "vault path must name a file"@
            },
        },
{
    match parent_of(path) {
        None => Err("vault path must have a parent directory".to_owned()),
        Some(parent) => match file_name_of(path) {
            None => Err("vault path must name a file".to_owned()),
            Some(name) => {
                let mut temporary = vstd::slice::slice_to_vec(".".as_bytes());
                temporary.extend_from_slice(name.as_slice());
                temporary.extend_from_slice(".".as_bytes());
                temporary.extend_from_slice(suffix.as_bytes());
                temporary.extend_from_slice(".tmp".as_bytes());
                assert(temporary@ =~= crate::state::name_bytes("."@) + name@
                    + crate::state::name_bytes("."@) + vstd::utf8::encode_utf8(suffix@)
                    + crate::state::name_bytes(".tmp"@));
                Ok(join(parent.as_slice(), temporary.as_slice()))
            },
        },
    }
}

// ---------------------------------------------------------------------------
// Laws
// ---------------------------------------------------------------------------

proof fn lower_digits_are_hex(d: nat)
    requires
        d < 16,
    ensures
        ({
            let c = crate::text::lower_hex_digit(d);
            &&& '0' <= c <= 'f'
            &&& hex_digit(c as u8) == Some(d as u8)
            &&& !crate::text::is_white_space(c)
        }),
{
}

/// Reading back the text of a key file gives the key.
pub proof fn key_files_round_trip(key: Seq<u8>)
    requires
        key.len() == 32,
    ensures
        key_of_hex(crate::text::hex_bytes(key)) == Ok::<Seq<u8>, Seq<char>>(key),
{
    let hex = crate::text::hex_bytes(key);
    crate::text::hex_bytes_shape(key);
    assert forall|i: int| 0 <= i < 64 implies '0' <= #[trigger] hex[i] <= 'f'
        && !crate::text::is_white_space(hex[i]) by {
        let k = i / 2;
        assert(hex[2 * k] == crate::text::lower_hex_digit((key[k] / 16) as nat));
        assert(hex[2 * k + 1] == crate::text::lower_hex_digit((key[k] % 16) as nat));
        lower_digits_are_hex((key[k] / 16) as nat);
        lower_digits_are_hex((key[k] % 16) as nat);
    }
    assert(crate::text::trimmed(hex) == hex) by {
        assert(!crate::text::is_white_space(hex[0]));
        assert(!crate::text::is_white_space(hex[63]));
        reveal_with_fuel(crate::text::trim_start, 2);
        reveal_with_fuel(crate::text::trim_end, 2);
    }
    assert(vstd::utf8::is_ascii_chars(hex)) by {
        assert forall|i: int| 0 <= i < hex.len() implies '\0' <= #[trigger] hex[i] <= '\x7f' by {}
    }
    vstd::utf8::is_ascii_chars_encode_utf8(hex);
    let text = vstd::utf8::encode_utf8(hex);
    assert forall|n: nat| n <= 32 implies #[trigger] unhex(text, n) == Ok::<Seq<u8>, Seq<char>>(
        key.take(n as int),
    ) by {
        unhex_reads(text, key, n);
    }
    assert(unhex(text, 32) == Ok::<Seq<u8>, Seq<char>>(key.take(32)));
    assert(key.take(32) =~= key);
}

proof fn unhex_reads(text: Seq<u8>, key: Seq<u8>, n: nat)
    requires
        key.len() == 32,
        n <= 32,
        text.len() == 64,
        forall|i: int| 0 <= i < 64 ==> text[i] == #[trigger] crate::text::hex_bytes(key)[i] as u8,
    ensures
        unhex(text, n) == Ok::<Seq<u8>, Seq<char>>(key.take(n as int)),
    decreases n,
{
    if n > 0 {
        unhex_reads(text, key, (n - 1) as nat);
        let k = n - 1;
        crate::text::hex_bytes_shape(key);
        let b = key[k];
        assert(crate::text::hex_bytes(key)[2 * k] == crate::text::lower_hex_digit((b / 16) as nat));
        assert(crate::text::hex_bytes(key)[2 * k + 1] == crate::text::lower_hex_digit(
            (b % 16) as nat,
        ));
        lower_digits_are_hex((b / 16) as nat);
        lower_digits_are_hex((b % 16) as nat);
        assert(text[2 * n - 2] == text[2 * k]);
        assert(text[2 * n - 1] == text[2 * k + 1]);
        assert(key.take(n as int) =~= key.take(k).push(b));
    } else {
        assert(key.take(0) =~= Seq::<u8>::empty());
    }
}

} // verus!
