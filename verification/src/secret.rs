//! Secret storage: its errors, and the files it trusts.

use vstd::prelude::*;
use vstd::string::*;

use crate::text::{chars_of, decimal_text, lossy_text, string_of, utf8_text};
use crate::wipe::{wipe_bytes, wipe_chars, wipe_text};

verus! {

/// Why secrets are not available.
pub enum SecretError {
    /// There is no data directory.
    NoDataDir,
    /// A file could not be used.
    Io(String),
    /// A key could not be derived, or bytes could not be sealed or opened.
    Crypto(String),
    /// The vault file is malformed.
    Vault(String),
    /// The content of the vault could not be read or written.
    Serialization(String),
}

/// The text of an error.
pub open spec fn error_text(error: SecretError) -> Seq<char> {
    match error {
        SecretError::NoDataDir => "no XDG data directory available"@,
        SecretError::Io(m) => "I/O error: "@ + m@,
        SecretError::Crypto(m) => "crypto error: "@ + m@,
        SecretError::Vault(m) => "vault error: "@ + m@,
        SecretError::Serialization(m) => "serialization error: "@ + m@,
    }
}

impl SecretError {
    /// The text of the error.
    pub fn text(&self) -> (text: String)
        ensures
            text@ == error_text(*self),
    {
        let (prefix, message) = match self {
            SecretError::NoDataDir => {
                return "no XDG data directory available".to_owned();
            },
            SecretError::Io(m) => ("I/O error: ", m),
            SecretError::Crypto(m) => ("crypto error: ", m),
            SecretError::Vault(m) => ("vault error: ", m),
            SecretError::Serialization(m) => ("serialization error: ", m),
        };
        let mut text = prefix.to_owned();
        text.append(message.as_str());
        text
    }
}

/// The error is a cryptographic one with this message.
pub open spec fn crypto_error(error: SecretError, message: Seq<char>) -> bool {
    error is Crypto && error->Crypto_0@ == message
}

/// The error is one about the vault file with this message.
pub open spec fn vault_error(error: SecretError, message: Seq<char>) -> bool {
    error is Vault && error->Vault_0@ == message
}

/// The error is one about a file with this message.
pub open spec fn io_error(error: SecretError, message: Seq<char>) -> bool {
    error is Io && error->Io_0@ == message
}

/// The largest vault file.
pub const MAX_VAULT_BYTES: u64 = 67108864;

/// The largest key file or salt file.
pub const MAX_KEYFILE_BYTES: u64 = 1024;

/// The largest login token.
pub const MAX_PAM_TOKEN_BYTES: u64 = 65536;

/// The permission bits of a mode.
pub const MODE_BITS: u32 = 0xfff;

/// The permissions of a private file: read and write for its owner.
pub const PRIVATE_FILE_MODE: u32 = 0x180;

/// The permissions of a private directory: everything for its owner.
pub const PRIVATE_DIR_MODE: u32 = 0x1c0;

/// Write permission for anyone but the owner.
pub const OTHERS_WRITE: u32 = 0x12;

/// What is known of an opened file.
#[derive(Debug, Clone, Copy, PartialEq, Eq, Structural)]
pub struct FileFacts {
    pub is_file: bool,
    pub uid: u32,
    pub mode: u32,
    pub len: u64,
}

/// A file of the user that nobody else may read or write.
pub open spec fn private_file(facts: FileFacts, uid: u32, limit: u64) -> bool {
    facts.is_file && facts.uid == uid && facts.mode & MODE_BITS == PRIVATE_FILE_MODE && facts.len
        <= limit
}

/// A file of the user that nobody else may write.
pub open spec fn owned_file(facts: FileFacts, uid: u32, limit: u64) -> bool {
    facts.is_file && facts.uid == uid && facts.mode & OTHERS_WRITE == 0 && facts.len <= limit
}

/// The file may be trusted.
pub open spec fn trusted_file(facts: FileFacts, uid: u32, limit: u64, private: bool) -> bool {
    if private {
        private_file(facts, uid, limit)
    } else {
        owned_file(facts, uid, limit)
    }
}

fn is_trusted(facts: &FileFacts, uid: u32, limit: u64, private: bool) -> (yes: bool)
    ensures
        yes == trusted_file(*facts, uid, limit, private),
{
    facts.is_file && facts.uid == uid && (if private {
        facts.mode & MODE_BITS == PRIVATE_FILE_MODE
    } else {
        facts.mode & OTHERS_WRITE == 0
    }) && facts.len <= limit
}

/// Checks an opened key file or salt file before it is read.
pub fn read_regular_file(
    path: &[u8],
    facts: &FileFacts,
    uid: u32,
    limit: u64,
    private: bool,
) -> (r: Result<(), SecretError>)
    ensures
        match r {
            Ok(_) => trusted_file(*facts, uid, limit, private),
            Err(e) => !trusted_file(*facts, uid, limit, private) && io_error(
                e,
                "unsafe file ownership, mode, type, or size: "@ + crate::text::lossy(path@),
            ),
        },
{
    if is_trusted(facts, uid, limit, private) {
        return Ok(());
    }
    let mut m = "unsafe file ownership, mode, type, or size: ".to_owned();
    m.append(lossy_text(path).as_str());
    Err(SecretError::Io(m))
}

/// Checks an opened vault file before it is read.
pub fn read_vault_file(facts: &FileFacts, uid: u32) -> (r: Result<(), SecretError>)
    ensures
        match r {
            Ok(_) => private_file(*facts, uid, MAX_VAULT_BYTES),
            Err(e) => !private_file(*facts, uid, MAX_VAULT_BYTES) && io_error(
                e,
                "vault.enc must be a user-owned regular file, mode 0600, at most 64 MiB"@,
            ),
        },
{
    if is_trusted(facts, uid, MAX_VAULT_BYTES, true) {
        return Ok(());
    }
    Err(
        SecretError::Io(
            "vault.enc must be a user-owned regular file, mode 0600, at most 64 MiB".to_owned(),
        ),
    )
}

/// Checks an opened vault directory before its mode is set.
pub fn check_directory(is_dir: bool, owner: u32, uid: u32) -> (r: Result<(), SecretError>)
    ensures
        match r {
            Ok(_) => is_dir && owner == uid,
            Err(e) => !(is_dir && owner == uid) && io_error(
                e,
                "secret directory must be a user-owned real directory"@,
            ),
        },
{
    if is_dir && owner == uid {
        return Ok(());
    }
    Err(SecretError::Io("secret directory must be a user-owned real directory".to_owned()))
}

/// Checks the mode of the vault directory after it was set.
pub fn check_directory_mode(mode: u32) -> (r: Result<(), SecretError>)
    ensures
        match r {
            Ok(_) => mode & MODE_BITS == PRIVATE_DIR_MODE,
            Err(e) => mode & MODE_BITS != PRIVATE_DIR_MODE && io_error(
                e,
                "secret directory mode must be 0700"@,
            ),
        },
{
    if mode & MODE_BITS == PRIVATE_DIR_MODE {
        return Ok(());
    }
    Err(SecretError::Io("secret directory mode must be 0700".to_owned()))
}

/// The name of the login token.
pub const PAM_TOKEN_NAME: &'static str = "aegis-pam-token";

/// The runtime directory of a user.
pub open spec fn runtime_dir_of(uid: nat) -> Seq<char> {
    "/run/user/"@ + crate::text::decimal(uid)
}

/// The runtime directory of a user.
pub fn runtime_dir(uid: u32) -> (path: String)
    ensures
        path@ == runtime_dir_of(uid as nat),
{
    let mut path = "/run/user/".to_owned();
    path.append(decimal_text(uid as u64).as_str());
    path
}

/// The path of the login token. It is the same for the writer and the
/// reader, and no environment variable moves it.
pub fn pam_token_path(uid: u32) -> (path: String)
    ensures
        path@ == runtime_dir_of(uid as nat) + "/"@ + PAM_TOKEN_NAME@,
{
    let mut path = runtime_dir(uid);
    path.append("/");
    path.append(PAM_TOKEN_NAME);
    path
}

/// A line ending.
pub open spec fn line_end(c: char) -> bool {
    c == '\n' || c == '\r'
}

/// A text without the line endings behind it.
pub open spec fn without_line_ends(text: Seq<char>) -> Seq<char>
    decreases text.len(),
{
    if text.len() > 0 && line_end(text.last()) {
        without_line_ends(text.drop_last())
    } else {
        text
    }
}

/// The password that a login token holds, if it holds one.
pub open spec fn token_password(bytes: Seq<u8>) -> Option<Seq<char>> {
    if vstd::utf8::valid_utf8(bytes) {
        let password = without_line_ends(vstd::utf8::decode_utf8(bytes));
        if password.len() == 0 {
            None
        } else {
            Some(password)
        }
    } else {
        None
    }
}

/// The file may be used as a login token; otherwise it is removed unread.
pub fn pam_token_is_safe(facts: &FileFacts, uid: u32) -> (yes: bool)
    ensures
        yes == private_file(*facts, uid, MAX_PAM_TOKEN_BYTES),
{
    is_trusted(facts, uid, MAX_PAM_TOKEN_BYTES, true)
}

/// Takes the password out of a login token, and wipes everything else that it
/// was read into. Bytes that are no text, and an empty password, count as no token.
pub fn consume_pam_token(bytes: Vec<u8>) -> (password: Option<String>)
    ensures
        crate::options::opt_text(password) == token_password(bytes@),
{
    let mut bytes = bytes;
    let text = utf8_text(bytes.as_slice());
    wipe_bytes(&mut bytes);
    match text {
        None => None,
        Some(text) => {
            let mut text = text;
            let mut chars = chars_of(text.as_str());
            wipe_text(&mut text);
            let mut end: usize = chars.len();
            assert(chars@.take(end as int) =~= chars@);
            while end > 0 && (chars[end - 1] == '\n' || chars[end - 1] == '\r')
                invariant
                    end <= chars@.len(),
                    without_line_ends(chars@) == without_line_ends(chars@.take(end as int)),
                decreases end,
            {
                assert(chars@.take(end as int).drop_last() =~= chars@.take(end - 1));
                end = end - 1;
            }
            assert(end > 0 ==> without_line_ends(chars@) =~= chars@.take(end as int));
            let password: Option<String> = if end == 0 {
                None
            } else {
                let kept = vstd::slice::slice_subrange(chars.as_slice(), 0, end);
                assert(kept@ =~= chars@.take(end as int));
                Some(string_of(kept))
            };
            wipe_chars(&mut chars);
            password
        },
    }
}

} // verus!
