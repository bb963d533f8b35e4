//! The login module that leaves a token for the vault.
//!
//! It writes the password that was just verified to the user's runtime
//! directory. A failure never blocks the login.

use vstd::prelude::*;
use vstd::string::*;

use crate::text::hex_bytes_text;

verus! {

/// The name of the token file.
pub const TOKEN_NAME: &'static str = "aegis-pam-token";

/// The token is written under the name under which it is looked for.
pub proof fn writer_and_reader_agree()
    ensures
        TOKEN_NAME@ == crate::secret::PAM_TOKEN_NAME@,
{
}

/// What the module answers the login stack.
#[derive(Debug, Clone, Copy, PartialEq, Eq, Structural)]
pub enum PamAnswer {
    Success,
    UserUnknown,
    SessionError,
}

/// What the module does about a login.
#[derive(Debug, Clone, Copy, PartialEq, Eq, Structural)]
pub enum PamStep {
    Answer(PamAnswer),
    /// Look the account up, and write the token.
    WriteToken,
}

/// Decides about a login: without a user there is nobody to write for, and
/// without a password there is nothing to write. A user name with a zero
/// byte names no account.
pub fn authenticate(user: Option<&[u8]>, password: Option<&[u8]>) -> (step: PamStep)
    ensures
        step == (match user {
            None => PamStep::Answer(PamAnswer::UserUnknown),
            Some(user) => match password {
                None => PamStep::Answer(PamAnswer::Success),
                Some(password) => if password@.len() == 0 {
                    PamStep::Answer(PamAnswer::Success)
                } else if user@.contains(0) {
                    PamStep::Answer(PamAnswer::UserUnknown)
                } else {
                    PamStep::WriteToken
                },
            },
        }),
{
    match user {
        None => PamStep::Answer(PamAnswer::UserUnknown),
        Some(user) => match password {
            None => PamStep::Answer(PamAnswer::Success),
            Some(password) => {
                if password.len() == 0 {
                    return PamStep::Answer(PamAnswer::Success);
                }
                if has_zero(user) {
                    return PamStep::Answer(PamAnswer::UserUnknown);
                }
                PamStep::WriteToken
            },
        },
    }
}

fn has_zero(bytes: &[u8]) -> (yes: bool)
    ensures
        yes == bytes@.contains(0),
{
    let mut i: usize = 0;
    while i < bytes.len()
        invariant
            i <= bytes@.len(),
            forall|k: int| 0 <= k < i ==> bytes@[k] != 0,
        decreases bytes@.len() - i,
    {
        if bytes[i] == 0 {
            assert(bytes@[i as int] == 0);
            return true;
        }
        i = i + 1;
    }
    false
}

/// The answer after the account was looked up and the token written (`None`
/// when there is no such account).
pub fn write_token(written: Option<bool>) -> (answer: PamAnswer)
    ensures
        answer == (match written {
            None => PamAnswer::UserUnknown,
            Some(true) => PamAnswer::Success,
            Some(false) => PamAnswer::SessionError,
        }),
{
    match written {
        None => PamAnswer::UserUnknown,
        Some(true) => PamAnswer::Success,
        Some(false) => PamAnswer::SessionError,
    }
}

/// The smallest buffer for an account lookup.
pub const MIN_ACCOUNT_BUFFER: usize = 1024;

/// The largest buffer for an account lookup.
pub const MAX_ACCOUNT_BUFFER: usize = 1048576;

/// The buffer for an account lookup when the system suggests none.
pub const DEFAULT_ACCOUNT_BUFFER: usize = 16384;

/// The size of the first buffer: what the system suggests, within bounds.
pub fn first_buffer(suggested: i64) -> (size: usize)
    ensures
        size == (if suggested <= 0 {
            DEFAULT_ACCOUNT_BUFFER as int
        } else if suggested < MIN_ACCOUNT_BUFFER {
            MIN_ACCOUNT_BUFFER as int
        } else if suggested > MAX_ACCOUNT_BUFFER {
            MAX_ACCOUNT_BUFFER as int
        } else {
            suggested as int
        }),
{
    if suggested <= 0 {
        DEFAULT_ACCOUNT_BUFFER
    } else if suggested < MIN_ACCOUNT_BUFFER as i64 {
        MIN_ACCOUNT_BUFFER
    } else if suggested > MAX_ACCOUNT_BUFFER as i64 {
        MAX_ACCOUNT_BUFFER
    } else {
        suggested as usize
    }
}

/// The size of the next buffer after one was too small: twice the size, up
/// to the largest, or `None` when the largest was too small.
pub open spec fn grown(size: int) -> Option<int> {
    if size >= MAX_ACCOUNT_BUFFER {
        None
    } else if 2 * size > MAX_ACCOUNT_BUFFER {
        Some(MAX_ACCOUNT_BUFFER as int)
    } else {
        Some(2 * size)
    }
}

/// The size of the next buffer after one was too small.
pub fn next_buffer(size: usize) -> (next: Option<usize>)
    ensures
        match next {
            Some(next) => grown(size as int) == Some(next as int),
            None => grown(size as int) is None,
        },
{
    if size >= MAX_ACCOUNT_BUFFER {
        None
    } else if size * 2 > MAX_ACCOUNT_BUFFER {
        Some(MAX_ACCOUNT_BUFFER)
    } else {
        Some(size * 2)
    }
}

/// How often a buffer of this size can be enlarged.
pub open spec fn enlargements(size: int) -> nat
    decreases MAX_ACCOUNT_BUFFER - size,
{
    if size <= 0 {
        0
    } else {
        match grown(size) {
            Some(next) => 1 + enlargements(next),
            None => 0,
        }
    }
}

/// A lookup ends: the smallest buffer is enlarged at most ten times.
pub proof fn lookups_end(size: int)
    requires
        MIN_ACCOUNT_BUFFER <= size <= MAX_ACCOUNT_BUFFER,
    ensures
        enlargements(size) <= 10,
{
    reveal_with_fuel(enlargements, 12);
}

/// The file type bits of a mode.
pub const TYPE_BITS: u32 = 0xf000;

/// The file type of a directory.
pub const DIRECTORY_TYPE: u32 = 0x4000;

/// The permissions of anyone but the owner.
pub const OTHERS_ACCESS: u32 = 0x3f;

/// The directory may hold a token: it is a directory of the user that nobody
/// else may use.
pub open spec fn safe_runtime_dir(mode: u32, owner: u32, uid: u32) -> bool {
    mode & TYPE_BITS == DIRECTORY_TYPE && owner == uid && mode & OTHERS_ACCESS == 0
}

/// Checks an opened runtime directory.
pub fn open_runtime_dir(mode: u32, owner: u32, uid: u32) -> (r: Result<(), String>)
    ensures
        match r {
            Ok(_) => safe_runtime_dir(mode, owner, uid),
            Err(m) => !safe_runtime_dir(mode, owner, uid) && m@
                == "runtime directory must be owned by the target user and mode 0700"@,
        },
{
    if mode & TYPE_BITS == DIRECTORY_TYPE && owner == uid && mode & OTHERS_ACCESS == 0 {
        return Ok(());
    }
    Err("runtime directory must be owned by the target user and mode 0700".to_owned())
}

/// The name of the file that is written before it becomes the token, made
/// unguessable by random bytes.
pub fn temporary_name(random: &[u8]) -> (name: String)
    ensures
        name@ == "."@ + TOKEN_NAME@ + "."@ + crate::text::hex_bytes(random@) + ".tmp"@,
{
    let mut name = ".".to_owned();
    name.append(TOKEN_NAME);
    name.append(".");
    name.append(hex_bytes_text(random).as_str());
    name.append(".tmp");
    name
}

} // verus!
