//! Laws of the vault at rest and of how it is unlocked.

#![allow(unused_imports)]

use vstd::prelude::*;

use crate::secret::{consume_pam_token, read_vault_file, FileFacts, SecretError};
use crate::unlock::{
    init_in, key_created, outcome_code, prompt_and_unlock, prompted_password, read_keyfile, unlock_with_answer,
    unlock_with_password, unlock_with_token, InitPlan, KeyOutcome, KeyPlan, PortalUnlockOutcome, PromptResponse,
    SecretPrompter, VaultFiles, PROMPT_REASON, PROMPT_TITLE,
};
use crate::vault::Vault;

verus! {

/// The key is Argon2id of the very bytes of the password and of the salt,
/// and it is owed for every salt of 4 to 64 letters, digits and `/+.-` that
/// Argon2id itself takes.
pub proof fn keys_are_hashed_from_the_very_password(
    password: &str,
    salt: &str,
    r: Result<[u8; 32], SecretError>,
)
    requires
        call_ensures(Vault::derive_key, (password, salt), r),
    ensures
        ({
            let usable = 4 <= salt@.len() <= 64 && forall|i: int|
                #![trigger salt@[i]]
                0 <= i < salt@.len() ==> ('a' <= salt@[i] <= 'z') || ('A' <= salt@[i] <= 'Z') || (
                '0' <= salt@[i] <= '9') || salt@[i] == '/' || salt@[i] == '+' || salt@[i] == '.'
                    || salt@[i] == '-';
            let hashed = crate::vault::argon2id(
                vstd::utf8::encode_utf8(password@),
                vstd::utf8::encode_utf8(salt@),
            );
            match r {
                Ok(key) => usable && hashed == Ok::<Seq<u8>, Seq<char>>(key@),
                Err(e) => e is Crypto && (usable ==> hashed is Err),
            }
        }),
{
}

/// A password that unlocks a vault file does so with the key that Argon2id
/// makes of it, and what is handed out is what that key opens: the sealed
/// content behind the nonce of 24 bytes. White space around the salt does
/// not count.
pub proof fn passwords_unlock_with_their_own_key(
    path: Vec<u8>,
    password: &str,
    salt: &[u8],
    file: &[u8],
    r: Result<(Vault, Vec<u8>), SecretError>,
    lead: Seq<char>,
    text: Seq<char>,
    tail: Seq<char>,
)
    requires
        call_ensures(unlock_with_password, (path, password, salt, Some(file)), r),
        salt@ == vstd::utf8::encode_utf8(lead + text + tail),
        crate::text::blank(lead),
        crate::text::blank(tail),
        crate::vault::usable_salt(text),
    ensures
        ({
            let hashed = crate::vault::argon2id(
                vstd::utf8::encode_utf8(password@),
                vstd::utf8::encode_utf8(text),
            );
            match r {
                Ok(opened) => hashed == Ok::<Seq<u8>, Seq<char>>(opened.0.master_key@)
                    && opened.0.path@ == path@ && file@.len() >= 24
                    && crate::vault::xchacha_opened(
                    opened.0.master_key@,
                    file@.take(24),
                    file@.skip(24),
                ) == Some(opened.1@),
                Err(_) => hashed is Err || file@.len() < 24 || file@.len() > 274877906856
                    || crate::vault::xchacha_opened(
                    hashed->Ok_0,
                    file@.take(24),
                    file@.skip(24),
                ) is None,
            }
        }),
{
    vstd::utf8::encode_utf8_valid_utf8(lead + text + tail);
    vstd::utf8::encode_utf8_decode_utf8(lead + text + tail);
    assert(crate::vault::salt_char(text[0]));
    assert(crate::vault::salt_char(text.last()));
    super::texts::padding_is_trimmed(lead, text, tail);
}

/// The password that is typed at the prompt and the password of a login
/// token unlock exactly as the same password does when it is given directly:
/// the same key, the same content, and a failure where that fails.
pub proof fn every_way_of_unlocking_agrees(
    path: Vec<u8>,
    password: &str,
    salt: &[u8],
    file: Option<&[u8]>,
    direct: Result<(Vault, Vec<u8>), SecretError>,
    typed: String,
    prompted: Result<(Vault, Vec<u8>), String>,
)
    requires
        call_ensures(unlock_with_password, (path, password, salt, file), direct),
        call_ensures(
            unlock_with_answer,
            (Ok::<PromptResponse, String>(PromptResponse::Secret(typed)), path, salt, file),
            prompted,
        ),
        typed@ == password@,
    ensures
        prompted is Ok == direct is Ok,
        direct is Ok ==> {
            &&& (prompted->Ok_0).0.master_key@ == (direct->Ok_0).0.master_key@
            &&& (prompted->Ok_0).0.path@ == (direct->Ok_0).0.path@
            &&& (prompted->Ok_0).1@ == (direct->Ok_0).1@
        },
{
}

/// A dismissed prompt and a failed prompt unlock nothing.
pub proof fn only_a_password_unlocks(
    path: Vec<u8>,
    salt: &[u8],
    file: Option<&[u8]>,
    answer: Result<PromptResponse, String>,
    r: Result<(Vault, Vec<u8>), String>,
)
    requires
        call_ensures(unlock_with_answer, (answer, path, salt, file), r),
        r is Ok,
    ensures
        answer is Ok,
        answer->Ok_0 is Secret,
        file is Some,
{
}

/// The password of a login token is its text without the line ends behind
/// it: the token is the password and line ends, the password is not empty
/// and does not end in one. Without such a password nothing is handed out.
pub proof fn tokens_hold_a_password_and_line_ends(bytes: Vec<u8>, password: Option<String>)
    requires
        call_ensures(consume_pam_token, (bytes,), password),
    ensures
        match password {
            Some(password) => vstd::utf8::valid_utf8(bytes@) && ({
                let text = vstd::utf8::decode_utf8(bytes@);
                &&& 0 < password@.len() <= text.len()
                &&& password@ == text.take(password@.len() as int)
                &&& password@.last() != '\n' && password@.last() != '\r'
                &&& forall|i: int|
                    password@.len() <= i < text.len() ==> #[trigger] text[i] == '\n' || text[i]
                        == '\r'
            }),
            None => vstd::utf8::valid_utf8(bytes@) ==> forall|i: int|
                #![trigger vstd::utf8::decode_utf8(bytes@)[i]]
                0 <= i < vstd::utf8::decode_utf8(bytes@).len() ==> vstd::utf8::decode_utf8(
                    bytes@,
                )[i] == '\n' || vstd::utf8::decode_utf8(bytes@)[i] == '\r',
        },
{
    line_ends_shape(vstd::utf8::decode_utf8(bytes@));
}

proof fn line_ends_shape(text: Seq<char>)
    ensures
        ({
            let t = crate::secret::without_line_ends(text);
            &&& t.len() <= text.len()
            &&& t == text.take(t.len() as int)
            &&& t.len() > 0 ==> t.last() != '\n' && t.last() != '\r'
            &&& forall|i: int|
                t.len() <= i < text.len() ==> #[trigger] text[i] == '\n' || text[i] == '\r'
        }),
    decreases text.len(),
{
    let t = crate::secret::without_line_ends(text);
    if text.len() > 0 && crate::secret::line_end(text.last()) {
        line_ends_shape(text.drop_last());
        assert(t =~= text.take(t.len() as int));
        assert forall|i: int| t.len() <= i < text.len() implies #[trigger] text[i] == '\n'
            || text[i] == '\r' by {
            if i < text.len() - 1 {
                assert(text.drop_last()[i] == text[i]);
            }
        }
    } else {
        assert(t =~= text.take(text.len() as int));
    }
}

/// A token unlocks as its password does, and one without a password is not
/// tried.
pub proof fn tokens_unlock_as_their_password(
    token: Vec<u8>,
    path: Vec<u8>,
    salt: &[u8],
    file: Option<&[u8]>,
    consumed: Option<String>,
    password: &str,
    r: Option<Result<(Vault, Vec<u8>), SecretError>>,
    direct: Result<(Vault, Vec<u8>), SecretError>,
)
    requires
        call_ensures(consume_pam_token, (token,), consumed),
        call_ensures(unlock_with_token, (token, path, salt, file), r),
        call_ensures(unlock_with_password, (path, password, salt, file), direct),
        consumed matches Some(text) ==> text@ == password@,
    ensures
        r is Some == consumed is Some,
        r is Some ==> r->0 is Ok == direct is Ok,
        r is Some && direct is Ok ==> {
            &&& (r->0->Ok_0).0.master_key@ == (direct->Ok_0).0.master_key@
            &&& (r->0->Ok_0).0.path@ == (direct->Ok_0).0.path@
            &&& (r->0->Ok_0).1@ == (direct->Ok_0).1@
        },
{
}

/// What is saved comes back, whole, when it is loaded under the same key.
/// The file is a nonce of 24 bytes, the sealed content and its tag of 16.
pub proof fn saved_vaults_are_loaded_again(
    vault: Vault,
    plaintext: &[u8],
    saved: Result<Vec<u8>, SecretError>,
    again: Vault,
    file: &[u8],
    r: Result<Vec<u8>, SecretError>,
)
    requires
        call_ensures(Vault::save, (&vault, plaintext), saved),
        saved is Ok,
        file@ == (saved->Ok_0)@,
        again.master_key@ == vault.master_key@,
        call_ensures(Vault::load, (&again, file), r),
    ensures
        r is Ok,
        (r->Ok_0)@ == plaintext@,
        file@.len() == 24 + plaintext@.len() + 16,
        crate::vault::xchacha_opened(vault.master_key@, file@.take(24), file@.skip(24)) == Some(
            plaintext@,
        ),
{
}

/// A file too short for a nonce is corrupted, and what is loaded is always
/// what the cipher opened under the vault's own key.
pub proof fn loads_are_what_the_cipher_opened(
    vault: Vault,
    file: &[u8],
    r: Result<Vec<u8>, SecretError>,
)
    requires
        call_ensures(Vault::load, (&vault, file), r),
    ensures
        file@.len() < 24 ==> r is Err && r->Err_0 is Vault,
        24 <= file@.len() <= 274877906856 ==> match crate::vault::xchacha_opened(
            vault.master_key@,
            file@.take(24),
            file@.skip(24),
        ) {
            Some(plaintext) => r is Ok && (r->Ok_0)@ == plaintext,
            None => r is Err && r->Err_0 is Crypto,
        },
{
}

/// A key that is written to a key file is read back, also with white space
/// around it.
pub proof fn key_files_are_read_back(
    key: [u8; 32],
    hex: String,
    text: &str,
    r: Result<[u8; 32], SecretError>,
    lead: Seq<char>,
    tail: Seq<char>,
)
    requires
        call_ensures(Vault::key_to_hex, (&key,), hex),
        call_ensures(Vault::key_from_hex, (text,), r),
        crate::text::blank(lead),
        crate::text::blank(tail),
        text@ == lead + hex@ + tail,
    ensures
        r is Ok,
        (r->Ok_0)@ == key@,
        hex@.len() == 64,
{
    crate::text::hex_bytes_shape(key@);
    super::texts::hex_shape(key@, 0);
    super::texts::hex_shape(key@, 31);
    super::texts::padding_is_trimmed(Seq::empty(), hex@, Seq::empty());
    super::texts::padding_is_trimmed(lead, hex@, tail);
    assert(Seq::<char>::empty() + hex@ + Seq::empty() =~= hex@);
    crate::vault::key_files_round_trip(key@);
}

/// A key file is read as its text is, and bytes that are no text are
/// refused.
pub proof fn key_files_are_texts(
    bytes: Vec<u8>,
    text: &str,
    r: Result<[u8; 32], SecretError>,
    direct: Result<[u8; 32], SecretError>,
)
    requires
        call_ensures(read_keyfile, (bytes,), r),
        call_ensures(Vault::key_from_hex, (text,), direct),
        vstd::utf8::valid_utf8(bytes@) ==> text@ == vstd::utf8::decode_utf8(bytes@),
    ensures
        !vstd::utf8::valid_utf8(bytes@) ==> r is Err,
        vstd::utf8::valid_utf8(bytes@) ==> r is Ok == direct is Ok,
        r is Ok ==> (r->Ok_0)@ == (direct->Ok_0)@,
{
}

/// A key file stands above all else; a salt needs its sealed file; a sealed
/// file without either is never written over; and only where nothing is
/// there is a vault set up anew.
pub proof fn sealed_files_are_never_orphaned(
    key: bool,
    salt: bool,
    vault: bool,
    r: Result<InitPlan, SecretError>,
)
    requires
        call_ensures(init_in, (key, salt, vault), r),
    ensures
        key && vault ==> r == Ok::<InitPlan, SecretError>(
            InitPlan::OpenKeyfile { create_vault: false },
        ),
        key && !vault ==> r == Ok::<InitPlan, SecretError>(
            InitPlan::OpenKeyfile { create_vault: true },
        ),
        !key && salt && vault ==> r == Ok::<InitPlan, SecretError>(InitPlan::StartLocked),
        !key && salt && !vault ==> r is Err && r->Err_0 is Vault,
        !key && !salt && vault ==> r is Err && r->Err_0 is Vault,
        !key && !salt && !vault ==> r == Ok::<InitPlan, SecretError>(InitPlan::CreateKeyfile),
{
}

/// A vault file is read only if it is a regular file of the user's own that
/// nobody else can reach, of at most 64 MiB.
pub proof fn only_private_vault_files_are_read(
    facts: FileFacts,
    uid: u32,
    r: Result<(), SecretError>,
)
    requires
        call_ensures(read_vault_file, (&facts, uid), r),
    ensures
        r is Ok <==> facts.is_file && facts.uid == uid && facts.mode & 0xfff == 0x180
            && facts.len <= 64 * 1024 * 1024,
{
}

/// The codes that an unlock is answered with.
pub proof fn unlocks_are_answered_by_code(outcome: PortalUnlockOutcome, code: u32)
    requires
        call_ensures(outcome_code, (outcome,), code),
    ensures
        code == 0 <==> outcome is Delivered,
        code == 1 <==> outcome is Dismissed,
        code == 2 <==> outcome is Failed,
{
}

/// What is kept in a file is read back under its key, and a vault without a
/// file holds nothing yet.
pub proof fn kept_files_are_read(
    vault: Vault,
    file: Option<&[u8]>,
    r: Result<Option<Vec<u8>>, SecretError>,
)
    requires
        call_ensures(Vault::load_stored, (&vault, file), r),
    ensures
        file is None ==> r is Ok && r->Ok_0 is None,
        file matches Some(bytes) ==> {
            &&& bytes@.len() < 24 ==> r is Err
            &&& 24 <= bytes@.len() <= 274877906856 ==> match crate::vault::xchacha_opened(
                vault.master_key@,
                bytes@.take(24),
                bytes@.skip(24),
            ) {
                Some(plaintext) => r is Ok && r->Ok_0 is Some && (r->Ok_0->0)@ == plaintext,
                None => r is Err,
            }
        },
{
}

/// A file is trusted only as a regular one of the user's own within its
/// limit: a private one with mode 0600, any other if nobody else can write
/// it.
pub proof fn trusted_files_are_the_users_own(
    path: &[u8],
    facts: FileFacts,
    uid: u32,
    limit: u64,
    private: bool,
    r: Result<(), SecretError>,
)
    requires
        call_ensures(
            crate::secret::read_regular_file,
            (path, &facts, uid, limit, private),
            r,
        ),
    ensures
        r is Ok <==> facts.is_file && facts.uid == uid && facts.len <= limit && (if private {
            facts.mode & 0xfff == 0x180
        } else {
            facts.mode & 0x12 == 0
        }),
        r is Err ==> r->Err_0 is Io,
{
}

/// A login token is read only if it is a private file of the user's own of
/// at most 64 KiB.
pub proof fn tokens_are_private(facts: FileFacts, uid: u32, yes: bool)
    requires
        call_ensures(crate::secret::pam_token_is_safe, (&facts, uid), yes),
    ensures
        yes == (facts.is_file && facts.uid == uid && facts.mode & 0xfff == 0x180 && facts.len
            <= 65536),
{
}

/// The token of a user stands in the user's own runtime directory.
pub proof fn tokens_stand_in_the_runtime_directory(uid: u32, dir: String, path: String)
    requires
        call_ensures(crate::secret::runtime_dir, (uid,), dir),
        call_ensures(crate::secret::pam_token_path, (uid,), path),
    ensures
        dir@.len() > 10,
        dir@.take(10) == "/run/user/"@,
        super::texts::read_decimal(dir@.skip(10)) == uid,
        path@ == dir@ + "/"@ + "aegis-pam-token"@,
{
    reveal_strlit("/run/user/");
    super::texts::decimals_read_back(uid as nat);
    assert(dir@.take(10) =~= "/run/user/"@);
    assert(dir@.skip(10) =~= crate::text::decimal(uid as nat));
}

/// A secret directory is a real directory of the user's own with mode 0700.
pub proof fn secret_directories_are_private(
    is_dir: bool,
    owner: u32,
    uid: u32,
    mode: u32,
    r: Result<(), SecretError>,
    moded: Result<(), SecretError>,
)
    requires
        call_ensures(crate::secret::check_directory, (is_dir, owner, uid), r),
        call_ensures(crate::secret::check_directory_mode, (mode,), moded),
    ensures
        r is Ok <==> is_dir && owner == uid,
        moded is Ok <==> mode & 0xfff == 0x1c0,
{
}

/// A vault is written beside its file first: in the same folder, under a
/// hidden name of its own.
pub proof fn vaults_are_written_beside_their_file(
    path: &[u8],
    suffix: &str,
    r: Result<Vec<u8>, String>,
)
    requires
        call_ensures(crate::vault::temporary_path, (path, suffix), r),
    ensures
        r is Ok <==> crate::paths::parent(path@) is Some && crate::paths::file_name(path@) is Some,
        r is Ok ==> {
            let dot = vstd::utf8::encode_utf8("."@);
            let name = dot + crate::paths::file_name(path@)->0 + dot + vstd::utf8::encode_utf8(
                suffix@,
            ) + vstd::utf8::encode_utf8(".tmp"@);
            (r->Ok_0)@ == crate::paths::joined(crate::paths::parent(path@)->0, name)
        },
{
}

/// A prompt that unlocks did so with the password that was typed at it, on
/// the files that were read then: the content is what the key of that
/// password opens.
pub proof fn prompts_unlock_with_the_typed_password<
    P: SecretPrompter,
    F: FnOnce() -> Result<VaultFiles, SecretError>,
>(prompter: P, path: Vec<u8>, read: F, r: Result<(Vault, Vec<u8>), String>)
    requires
        call_ensures(prompt_and_unlock::<P, F>, (&prompter, path, read), r),
        r is Ok,
    ensures
        exists|password: String, files: VaultFiles|
            #![trigger unlocks(password@, files, r->Ok_0)]
            call_ensures(
                P::prompt_secret,
                (&prompter, PROMPT_TITLE, Some(PROMPT_REASON)),
                Ok::<PromptResponse, String>(PromptResponse::Secret(password)),
            ) && call_ensures(read, (), Ok::<VaultFiles, SecretError>(files)) && unlocks(
                password@,
                files,
                r->Ok_0,
            ),
        (r->Ok_0).0.path == path,
{
    let answer = choose|answer: Result<PromptResponse, String>| #[trigger]
        call_ensures(P::prompt_secret, (&prompter, PROMPT_TITLE, Some(PROMPT_REASON)), answer)
            && match answer {
            Ok(PromptResponse::Secret(password)) => exists|
                files: Result<VaultFiles, SecretError>,
            | #[trigger]
                call_ensures(read, (), files) && crate::unlock::unlocked_from(
                    password@,
                    path,
                    files,
                    r,
                ),
            Ok(PromptResponse::Cancelled) => r is Err && r->Err_0@ == "prompt dismissed"@,
            Err(error) => r is Err && r->Err_0@ == "secret prompt failed: "@ + error@,
        };
    let password = answer->Ok_0->Secret_0;
    let files = choose|files: Result<VaultFiles, SecretError>| #[trigger]
        call_ensures(read, (), files) && crate::unlock::unlocked_from(password@, path, files, r);
    assert(answer == Ok::<PromptResponse, String>(PromptResponse::Secret(password)));
    assert(files == Ok::<VaultFiles, SecretError>(files->Ok_0));
    assert(unlocks(password@, files->Ok_0, r->Ok_0));
}

/// An open vault has the key that Argon2id makes of a password and the salt
/// of the files, and its content is what that key opens of the file.
pub open spec fn unlocks(password: Seq<char>, files: VaultFiles, opened: (Vault, Vec<u8>)) -> bool {
    let salt = crate::text::trimmed(vstd::utf8::decode_utf8(files.salt@));
    let file = files.file->0@;
    &&& files.file is Some
    &&& vstd::utf8::valid_utf8(files.salt@)
    &&& crate::vault::argon2id(vstd::utf8::encode_utf8(password), vstd::utf8::encode_utf8(salt))
        == Ok::<Seq<u8>, Seq<char>>(opened.0.master_key@)
    &&& crate::vault::xchacha_opened(opened.0.master_key@, file.take(24), file.skip(24)) == Some(
        opened.1@,
    )
}

/// The value of a hexadecimal digit of either case.
pub open spec fn digit_value(b: u8) -> int {
    if 48 <= b <= 57 {
        b - 48
    } else if 97 <= b <= 102 {
        b - 87
    } else {
        b - 55
    }
}

/// A byte is a hexadecimal digit of either case.
pub open spec fn is_digit(b: u8) -> bool {
    (48 <= b <= 57) || (97 <= b <= 102) || (65 <= b <= 70)
}

/// A key is 64 hexadecimal digits of either case, two for each of its bytes,
/// the high one first. Any other length is refused, and so is anything that
/// is neither a digit nor a sign.
pub proof fn keys_are_read_from_their_digits(
    hex: &str,
    r: Result<[u8; 32], SecretError>,
    i: int,
)
    requires
        call_ensures(Vault::key_from_hex, (hex,), r),
    ensures
        ({
            let text = vstd::utf8::encode_utf8(crate::text::trimmed(hex@));
            &&& text.len() != 64 ==> r is Err
            &&& text.len() == 64 && (forall|k: int|
                #![trigger text[k]]
                0 <= k < 64 ==> is_digit(text[k])) ==> r is Ok && (0 <= i < 32 ==> (r->Ok_0)@[i]
                == 16 * digit_value(text[2 * i]) + digit_value(text[2 * i + 1]))
            &&& 0 <= i < 64 && text.len() == 64 && !is_digit(text[i]) && text[i] != 43 ==> r is Err
        }),
{
    let text = vstd::utf8::encode_utf8(crate::text::trimmed(hex@));
    if text.len() == 64 {
        if forall|k: int| #![trigger text[k]] 0 <= k < 64 ==> is_digit(text[k]) {
            digits_are_read(text, 32);
        }
        if 0 <= i < 64 && !is_digit(text[i]) && text[i] != 43 {
            others_are_refused(text, 32, i);
        }
    }
}

proof fn digits_are_read(text: Seq<u8>, pairs: nat)
    requires
        text.len() == 64,
        pairs <= 32,
        forall|k: int| #![trigger text[k]] 0 <= k < 64 ==> is_digit(text[k]),
    ensures
        crate::vault::unhex(text, pairs) is Ok,
        crate::vault::unhex(text, pairs)->Ok_0.len() == pairs,
        forall|i: int|
            #![trigger crate::vault::unhex(text, pairs)->Ok_0[i]]
            0 <= i < pairs ==> crate::vault::unhex(text, pairs)->Ok_0[i] == 16 * digit_value(
                text[2 * i],
            ) + digit_value(text[2 * i + 1]),
    decreases pairs,
{
    if pairs > 0 {
        let before = (pairs - 1) as nat;
        digits_are_read(text, before);
        let a = text[2 * pairs - 2];
        let b = text[2 * pairs - 1];
        assert(is_digit(a) && is_digit(b));
        let done = crate::vault::unhex(text, before)->Ok_0;
        let all = crate::vault::unhex(text, pairs)->Ok_0;
        assert forall|i: int|
            #![trigger all[i]]
            0 <= i < pairs implies all[i] == 16 * digit_value(text[2 * i]) + digit_value(
            text[2 * i + 1],
        ) by {
            if i < before {
                assert(all[i] == done[i]);
            }
        }
    }
}

proof fn others_are_refused(text: Seq<u8>, pairs: nat, i: int)
    requires
        text.len() == 64,
        pairs <= 32,
        0 <= i < 2 * pairs,
        !is_digit(text[i]),
        text[i] != 43,
    ensures
        crate::vault::unhex(text, pairs) is Err,
    decreases pairs,
{
    if i < 2 * pairs - 2 {
        others_are_refused(text, (pairs - 1) as nat, i);
    }
}

/// An error says what kind it is, and why.
pub proof fn errors_say_their_kind(error: SecretError, text: String)
    requires
        call_ensures(SecretError::text, (&error,), text),
    ensures
        error matches SecretError::Io(m) ==> text@ == "I/O error: "@ + m@,
        error matches SecretError::Crypto(m) ==> text@ == "crypto error: "@ + m@,
        error matches SecretError::Vault(m) ==> text@ == "vault error: "@ + m@,
        error matches SecretError::Serialization(m) ==> text@ == "serialization error: "@ + m@,
        error is NoDataDir ==> text@ == "no XDG data directory available"@,
{
}

/// A salt that is no text, and a vault without its file, unlock nothing.
pub proof fn damaged_files_unlock_nothing(
    path: Vec<u8>,
    password: &str,
    salt: &[u8],
    file: Option<&[u8]>,
    r: Result<(Vault, Vec<u8>), SecretError>,
)
    requires
        call_ensures(unlock_with_password, (path, password, salt, file), r),
    ensures
        file is None ==> r is Err && r->Err_0 is Vault,
        file is Some && !vstd::utf8::valid_utf8(salt@) ==> r is Err && r->Err_0 is Crypto,
{
}

/// The password of a prompt is the typed one; a dismissed or failed prompt
/// has none.
pub proof fn prompts_hand_on_the_typed_password(
    answer: Result<PromptResponse, String>,
    r: Result<String, String>,
)
    requires
        call_ensures(prompted_password, (answer,), r),
    ensures
        r is Ok <==> answer is Ok && answer->Ok_0 is Secret,
        r is Ok ==> r->Ok_0@ == answer->Ok_0->Secret_0@,
        answer is Ok && answer->Ok_0 is Cancelled ==> r is Err && r->Err_0@ == "prompt dismissed"@,
        answer is Err ==> r is Err && answer->Err_0@.is_suffix_of(r->Err_0@),
{
    if answer is Err {
        let front = "secret prompt failed: "@;
        assert(r->Err_0@ == front + answer->Err_0@);
        assert((front + answer->Err_0@).subrange(
            front.len() as int,
            (front.len() + answer->Err_0@.len()) as int,
        ) =~= answer->Err_0@);
    }
}

/// A key that another backend wrote first is the one in use, and only a
/// missing vault file is created beside it.
pub proof fn the_first_key_is_used(outcome: KeyOutcome, vault: bool, r: Result<KeyPlan, SecretError>)
    requires
        call_ensures(key_created, (outcome, vault), r),
    ensures
        r is Err <==> outcome is Failed,
        outcome is Written ==> r->Ok_0 is Own,
        outcome is Exists ==> r->Ok_0 is Other && (r->Ok_0->create_vault <==> !vault),
{
}

/// A key is the very bytes that it was made of, and a vault holds its key.
pub proof fn vaults_hold_their_key(
    bytes: &[u8],
    key: [u8; 32],
    path: Vec<u8>,
    vault: Vault,
    held: &[u8; 32],
)
    requires
        call_ensures(Vault::key_of_bytes, (bytes,), key),
        call_ensures(Vault::new, (path, key), vault),
        call_ensures(Vault::get_master_key, (&vault,), held),
    ensures
        held@ == bytes@,
        vault.path@ == path@,
{
}

/// A vault file is taken for one only if it is there and long enough for its
/// nonce.
pub proof fn short_files_are_no_vaults(length: Option<usize>, r: Result<(), SecretError>)
    requires
        call_ensures(Vault::validate_ciphertext, (length,), r),
    ensures
        r is Ok <==> length is Some && length->0 >= 24,
{
}

/// What is sealed with any nonce is opened again by a load with the same
/// key.
pub proof fn sealed_files_are_opened_again(
    vault: Vault,
    nonce: &[u8],
    plaintext: &[u8],
    sealed: Result<Vec<u8>, SecretError>,
)
    requires
        call_ensures(Vault::seal_with, (&vault, nonce, plaintext), sealed),
        nonce@.len() == 24,
    ensures
        sealed is Ok ==> sealed->Ok_0@.take(24) == nonce@ && sealed->Ok_0@.len()
            == plaintext@.len() + 40 && crate::vault::opened(vault.master_key@, sealed->Ok_0@)
            == Some(plaintext@),
{
}

} // verus!
