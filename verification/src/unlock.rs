//! Opening the vault: at startup, with a password, and for the callers that
//! wait for it.
//!
//! Every caller that needs a locked vault waits in one queue. One worker
//! asks the user once and answers the whole batch.

use vstd::prelude::*;
use vstd::string::*;

use crate::request::RequestTracker;
use crate::screencast::{CANCELLED, REFUSED, SUCCESS};
use crate::secret::{consume_pam_token, SecretError};
use crate::text::{trim, utf8_text};
use crate::vault::Vault;
use crate::wipe::{wipe_bytes, wipe_text};

verus! {

// ---------------------------------------------------------------------------
// Startup
// ---------------------------------------------------------------------------

/// How secret support starts.
#[derive(Debug, Clone, Copy, PartialEq, Eq, Structural)]
pub enum InitPlan {
    /// Open the vault with its key file; an empty vault file is created when
    /// there is none.
    OpenKeyfile { create_vault: bool },
    /// The vault has a password: start locked, unless a login token unlocks
    /// it.
    StartLocked,
    /// First run: create a key file and an empty vault file.
    CreateKeyfile,
}

/// The plan for the files that are there, or the message of the error.
pub open spec fn planned(key: bool, salt: bool, vault: bool) -> Result<InitPlan, Seq<char>> {
    if key {
        Ok(InitPlan::OpenKeyfile { create_vault: !vault })
    } else if salt {
        if vault {
            Ok(InitPlan::StartLocked)
        } else {
            Err("password-mode vault has vault.salt but no vault.enc"@)
        }
    } else if vault {
        Err("refusing to overwrite vault.enc without vault.key or vault.salt"@)
    } else {
        Ok(InitPlan::CreateKeyfile)
    }
}

/// Plans the startup by which files exist. A vault file that exists is never
/// created anew.
pub fn init_in(key: bool, salt: bool, vault: bool) -> (r: Result<InitPlan, SecretError>)
    ensures
        match r {
            Ok(plan) => planned(key, salt, vault) == Ok::<InitPlan, Seq<char>>(plan),
            Err(e) => planned(key, salt, vault) is Err && crate::secret::vault_error(
                e,
                planned(key, salt, vault)->Err_0,
            ),
        },
        r matches Ok(InitPlan::CreateKeyfile) ==> !vault,
        r matches Ok(InitPlan::OpenKeyfile { create_vault: true }) ==> !vault,
{
    if key {
        return Ok(InitPlan::OpenKeyfile { create_vault: !vault });
    }
    if salt {
        if vault {
            return Ok(InitPlan::StartLocked);
        }
        return Err(
            SecretError::Vault("password-mode vault has vault.salt but no vault.enc".to_owned()),
        );
    }
    if vault {
        return Err(
            SecretError::Vault(
                "refusing to overwrite vault.enc without vault.key or vault.salt".to_owned(),
            ),
        );
    }
    Ok(InitPlan::CreateKeyfile)
}

/// How the creation of a key file went.
pub enum KeyOutcome {
    Written,
    /// There was one by then: another backend was faster.
    Exists,
    Failed(String),
}

/// Which key counts once a key file was to be created.
#[derive(Debug, Clone, Copy, PartialEq, Eq, Structural)]
pub enum KeyPlan {
    /// The own key; create an empty vault file.
    Own,
    /// The key that the other backend wrote; an empty vault file is created
    /// when there is none, and otherwise opened.
    Other { create_vault: bool },
}

/// Goes on after a key file was to be created. A key file that another
/// backend wrote is never replaced, and neither is its vault file.
pub fn key_created(outcome: KeyOutcome, vault: bool) -> (r: Result<KeyPlan, SecretError>)
    ensures
        match outcome {
            KeyOutcome::Written => r == Ok::<KeyPlan, SecretError>(KeyPlan::Own),
            KeyOutcome::Exists => r == Ok::<KeyPlan, SecretError>(
                KeyPlan::Other { create_vault: !vault },
            ),
            KeyOutcome::Failed(message) => r matches Err(SecretError::Io(m)) && m@ == message@,
        },
{
    match outcome {
        KeyOutcome::Written => Ok(KeyPlan::Own),
        KeyOutcome::Exists => Ok(KeyPlan::Other { create_vault: !vault }),
        KeyOutcome::Failed(message) => Err(SecretError::Io(message)),
    }
}

/// What the bytes of a key file stand for: a key, or the message of the
/// error.
pub open spec fn keyfile_key(bytes: Seq<u8>) -> Result<Seq<u8>, Seq<char>> {
    if vstd::utf8::valid_utf8(bytes) {
        crate::vault::key_of_hex(vstd::utf8::decode_utf8(bytes))
    } else {
        Err("vault.key is not UTF-8"@)
    }
}

/// Reads a key file, and wipes what it was read into.
pub fn read_keyfile(bytes: Vec<u8>) -> (r: Result<[u8; 32], SecretError>)
    ensures
        match r {
            Ok(key) => keyfile_key(bytes@) == Ok::<Seq<u8>, Seq<char>>(key@),
            Err(e) => keyfile_key(bytes@) is Err && crate::secret::crypto_error(
                e,
                keyfile_key(bytes@)->Err_0,
            ),
        },
{
    let mut bytes = bytes;
    let text = utf8_text(bytes.as_slice());
    wipe_bytes(&mut bytes);
    match text {
        Some(hex) => {
            let mut hex = hex;
            let key = Vault::key_from_hex(hex.as_str());
            wipe_text(&mut hex);
            key
        },
        None => Err(SecretError::Crypto("vault.key is not UTF-8".to_owned())),
    }
}

/// The key that a password and a salt file derive, or the message of the
/// error. White space around the salt is ignored.
pub open spec fn password_key(password: Seq<char>, salt: Seq<u8>) -> Result<Seq<u8>, Seq<char>> {
    if vstd::utf8::valid_utf8(salt) {
        crate::vault::derived(password, crate::text::trimmed(vstd::utf8::decode_utf8(salt)))
    } else {
        Err("vault.salt is not UTF-8"@)
    }
}

/// Unlocks a vault file with a password: the vault, and the plaintext that
/// it holds. Opening the file shows that the password is the right one,
/// before the key is used for anything.
pub fn unlock_with_password(
    path: Vec<u8>,
    password: &str,
    salt: &[u8],
    file: Option<&[u8]>,
) -> (r: Result<(Vault, Vec<u8>), SecretError>)
    ensures
        file is Some && vstd::utf8::valid_utf8(salt@) ==> {
            let text = crate::text::trimmed(vstd::utf8::decode_utf8(salt@));
            crate::vault::salt_problem(text) is None <==> crate::vault::usable_salt(text)
        },
        match file {
            None => r is Err && crate::secret::vault_error(
                r->Err_0,
                "password-mode vault is missing vault.enc"@,
            ),
            Some(file) => match password_key(password@, salt@) {
                Err(message) => r is Err && crate::secret::crypto_error(r->Err_0, message),
                Ok(key) => match r {
                    Ok(vault) => vault.0.master_key@ == key && vault.0.path == path
                        && crate::vault::opened(key, file@) == Some(vault.1@),
                    Err(e) => crate::vault::opened(key, file@) is None && (if file@.len() < 24 {
                        crate::secret::vault_error(e, "vault file corrupted"@)
                    } else {
                        crate::secret::crypto_error(e, "decryption failure: aead::Error"@)
                    }),
                },
            },
        },
{
    match file {
        None => Err(
            SecretError::Vault("password-mode vault is missing vault.enc".to_owned()),
        ),
        Some(file) => match utf8_text(salt) {
            None => Err(SecretError::Crypto("vault.salt is not UTF-8".to_owned())),
            Some(text) => {
                let salt = trim(text.as_str());
                match Vault::derive_key(password, salt.as_str()) {
                    Err(error) => Err(error),
                    Ok(key) => {
                        let vault = Vault::new(path, key);
                        match vault.load(file) {
                            Ok(plaintext) => Ok((vault, plaintext)),
                            Err(error) => Err(error),
                        }
                    },
                }
            },
        },
    }
}

// ---------------------------------------------------------------------------
// The prompt
// ---------------------------------------------------------------------------

/// The title of the password prompt.
pub const PROMPT_TITLE: &'static str = "Unlock Keyring";

/// What the password prompt says.
pub const PROMPT_REASON: &'static str =
    "The secret vault is locked. Enter its password to unlock it.";

/// How the user answered the password prompt.
pub enum PromptResponse {
    /// The user confirmed a password.
    Secret(String),
    /// The user dismissed the prompt.
    Cancelled,
}

/// What can ask the user for the password of the vault.
pub trait SecretPrompter {
    fn prompt_secret(&self, title: &str, reason: Option<&str>) -> Result<PromptResponse, String>;
}

/// The password that the prompt gave, or why there is none.
pub fn prompted_password(answer: Result<PromptResponse, String>) -> (r: Result<String, String>)
    ensures
        match answer {
            Ok(PromptResponse::Secret(password)) => r matches Ok(given) && given@ == password@,
            Ok(PromptResponse::Cancelled) => r matches Err(m) && m@ == "prompt dismissed"@,
            Err(error) => r matches Err(m) && m@ == "secret prompt failed: "@ + error@,
        },
{
    match answer {
        Ok(PromptResponse::Secret(password)) => Ok(password),
        Ok(PromptResponse::Cancelled) => Err("prompt dismissed".to_owned()),
        Err(error) => {
            let mut m = "secret prompt failed: ".to_owned();
            m.append(error.as_str());
            Err(m)
        },
    }
}

/// The reason for a password that did not unlock the vault.
pub fn unlock_failure(error: &SecretError) -> (m: String)
    ensures
        m@ == "wrong password or unreadable vault: "@ + crate::secret::error_text(*error),
{
    let mut m = "wrong password or unreadable vault: ".to_owned();
    m.append(error.text().as_str());
    m
}

/// What a prompted password comes to: the unlocked vault, or the reason.
pub open spec fn unlocked_with(
    password: Seq<char>,
    path: Vec<u8>,
    salt: Seq<u8>,
    file: Option<Seq<u8>>,
    r: Result<(Vault, Vec<u8>), String>,
) -> bool {
    match unlocking(password, salt, file) {
        Ok((key, plaintext)) => r is Ok && (r->Ok_0).0.master_key@ == key && (r->Ok_0).0.path
            == path && (r->Ok_0).1@ == plaintext,
        Err(message) => r is Err && r->Err_0@ == "wrong password or unreadable vault: "@ + message,
    }
}

/// What an answered prompt comes to: the unlocked vault, or the reason.
pub open spec fn answered(
    answer: Result<PromptResponse, String>,
    path: Vec<u8>,
    salt: Seq<u8>,
    file: Option<Seq<u8>>,
    r: Result<(Vault, Vec<u8>), String>,
) -> bool {
    match answer {
        Ok(PromptResponse::Cancelled) => r is Err && r->Err_0@ == "prompt dismissed"@,
        Err(error) => r is Err && r->Err_0@ == "secret prompt failed: "@ + error@,
        Ok(PromptResponse::Secret(password)) => unlocked_with(password@, path, salt, file, r),
    }
}

/// What a password unlocks: the key and the plaintext, or the text of the
/// error.
pub open spec fn unlocking(password: Seq<char>, salt: Seq<u8>, file: Option<Seq<u8>>) -> Result<
    (Seq<u8>, Seq<u8>),
    Seq<char>,
> {
    match file {
        None => Err("vault error: "@ + "password-mode vault is missing vault.enc"@),
        Some(file) => match password_key(password, salt) {
            Err(message) => Err("crypto error: "@ + message),
            Ok(key) => match crate::vault::opened(key, file) {
                Some(plaintext) => Ok((key, plaintext)),
                None => if file.len() < 24 {
                    Err("vault error: "@ + "vault file corrupted"@)
                } else {
                    Err("crypto error: "@ + "decryption failure: aead::Error"@)
                },
            },
        },
    }
}

/// The view of an optional file.
pub open spec fn file_view(file: Option<&[u8]>) -> Option<Seq<u8>> {
    match file {
        Some(file) => Some(file@),
        None => None,
    }
}

/// Unlocks a vault file with what the prompt answered, and wipes the
/// password.
pub fn unlock_with_answer(
    answer: Result<PromptResponse, String>,
    path: Vec<u8>,
    salt: &[u8],
    file: Option<&[u8]>,
) -> (r: Result<(Vault, Vec<u8>), String>)
    ensures
        answered(answer, path, salt@, file_view(file), r),
{
    match prompted_password(answer) {
        Err(reason) => Err(reason),
        Ok(password) => {
            let mut password = password;
            let unlocked = unlock_with_password(path, password.as_str(), salt, file);
            wipe_text(&mut password);
            match unlocked {
                Ok(vault) => Ok(vault),
                Err(error) => Err(unlock_failure(&error)),
            }
        },
    }
}

/// The files that a vault with a password is unlocked from.
pub struct VaultFiles {
    pub salt: Vec<u8>,
    pub file: Option<Vec<u8>>,
}

/// What a password comes to once the files were read: the unlocked vault, or
/// the reason.
pub open spec fn unlocked_from(
    password: Seq<char>,
    path: Vec<u8>,
    files: Result<VaultFiles, SecretError>,
    r: Result<(Vault, Vec<u8>), String>,
) -> bool {
    match files {
        Err(error) => r is Err && r->Err_0@ == "wrong password or unreadable vault: "@
            + crate::secret::error_text(error),
        Ok(files) => unlocked_with(
            password,
            path,
            files.salt@,
            crate::vault::bytes_view(files.file),
            r,
        ),
    }
}

/// Asks the user for the password, reads the files, and unlocks the vault.
/// The files are read only once there is a password. Whatever the prompter
/// answers, a vault comes back only for a password that opens the file.
pub fn prompt_and_unlock<P: SecretPrompter, F: FnOnce() -> Result<VaultFiles, SecretError>>(
    prompter: &P,
    path: Vec<u8>,
    read: F,
) -> (r: Result<(Vault, Vec<u8>), String>)
    requires
        call_requires(read, ()),
    ensures
        exists|answer: Result<PromptResponse, String>| #[trigger]
            call_ensures(
                P::prompt_secret,
                (prompter, PROMPT_TITLE, Some(PROMPT_REASON)),
                answer,
            ) && match answer {
                Ok(PromptResponse::Secret(password)) => exists|
                    files: Result<VaultFiles, SecretError>,
                | #[trigger]
                    call_ensures(read, (), files) && unlocked_from(password@, path, files, r),
                Ok(PromptResponse::Cancelled) => r is Err && r->Err_0@ == "prompt dismissed"@,
                Err(error) => r is Err && r->Err_0@ == "secret prompt failed: "@ + error@,
            },
{
    match prompted_password(prompter.prompt_secret(PROMPT_TITLE, Some(PROMPT_REASON))) {
        Err(reason) => Err(reason),
        Ok(password) => {
            let mut password = password;
            let r = match read() {
                Err(error) => Err(unlock_failure(&error)),
                Ok(files) => {
                    let file: Option<&[u8]> = match &files.file {
                        Some(file) => Some(file.as_slice()),
                        None => None,
                    };
                    match unlock_with_password(
                        path,
                        password.as_str(),
                        files.salt.as_slice(),
                        file,
                    ) {
                        Ok(vault) => Ok(vault),
                        Err(error) => Err(unlock_failure(&error)),
                    }
                },
            };
            wipe_text(&mut password);
            r
        },
    }
}

/// Unlocks a vault file with the login token that was read, if it holds a
/// password, and wipes the password.
pub fn unlock_with_token(
    token: Vec<u8>,
    path: Vec<u8>,
    salt: &[u8],
    file: Option<&[u8]>,
) -> (r: Option<Result<(Vault, Vec<u8>), SecretError>>)
    ensures
        match crate::secret::token_password(token@) {
            None => r is None,
            Some(password) => r is Some && match unlocking(password, salt@, file_view(file)) {
                Ok((key, plaintext)) => r->0 matches Ok(vault) && vault.0.master_key@ == key
                    && vault.0.path == path && vault.1@ == plaintext,
                Err(message) => r->0 matches Err(e) && crate::secret::error_text(e) == message,
            },
        },
{
    match consume_pam_token(token) {
        None => None,
        Some(password) => {
            let mut password = password;
            let unlocked = unlock_with_password(path, password.as_str(), salt, file);
            wipe_text(&mut password);
            Some(unlocked)
        },
    }
}

// ---------------------------------------------------------------------------
// The queue
// ---------------------------------------------------------------------------

/// The most callers that may wait.
pub const MAX_PENDING_UNLOCKS: usize = 64;

/// The callers that wait for the vault, and whether a worker serves them.
pub struct UnlockQueue<T> {
    pub pending: Vec<T>,
    pub worker_active: bool,
}

/// What became of a caller.
pub enum Enqueued<T> {
    /// Too many callers wait: answer this one with a failure.
    Rejected(T),
    /// The active worker will serve it.
    Queued,
    /// Start a worker.
    StartWorker,
}

/// The waiting callers and the worker after a caller arrived.
pub open spec fn arrived<T>(pending: Seq<T>, request: T) -> Seq<T> {
    if pending.len() >= MAX_PENDING_UNLOCKS {
        pending
    } else {
        pending.push(request)
    }
}

impl<T> UnlockQueue<T> {
    /// Not too many callers wait, and none waits without a worker.
    pub open spec fn well_formed(self) -> bool {
        &&& self.pending@.len() <= MAX_PENDING_UNLOCKS
        &&& self.pending@.len() > 0 ==> self.worker_active
    }

    /// A queue without callers.
    pub fn new() -> (queue: Self)
        ensures
            queue.well_formed(),
            queue.pending@ == Seq::<T>::empty(),
            !queue.worker_active,
    {
        UnlockQueue { pending: Vec::new(), worker_active: false }
    }

    /// Adds a caller behind the others, unless too many wait.
    pub fn enqueue_unlock_request(&mut self, request: T) -> (r: Enqueued<T>)
        requires
            old(self).well_formed(),
        ensures
            final(self).well_formed(),
            final(self).pending@ == arrived(old(self).pending@, request),
            match r {
                Enqueued::Rejected(refused) => old(self).pending@.len() >= MAX_PENDING_UNLOCKS
                    && refused == request && final(self).worker_active == old(self).worker_active,
                Enqueued::Queued => old(self).pending@.len() < MAX_PENDING_UNLOCKS && old(self).worker_active && final(self).worker_active,
                Enqueued::StartWorker => old(self).pending@.len() < MAX_PENDING_UNLOCKS && !old(self).worker_active && final(self).worker_active,
            },
    {
        if self.pending.len() >= MAX_PENDING_UNLOCKS {
            return Enqueued::Rejected(request);
        }
        self.pending.push(request);
        if self.worker_active {
            return Enqueued::Queued;
        }
        self.worker_active = true;
        Enqueued::StartWorker
    }

    /// Hands the worker every caller that waits. When none does, the worker
    /// is to stop.
    pub fn take_batch(&mut self) -> (batch: Vec<T>)
        requires
            old(self).well_formed(),
        ensures
            final(self).well_formed(),
            batch@ == old(self).pending@,
            final(self).pending@ == Seq::<T>::empty(),
            final(self).worker_active == (old(self).worker_active && batch@.len() > 0),
    {
        let mut batch: Vec<T> = Vec::new();
        std::mem::swap(&mut batch, &mut self.pending);
        if batch.len() == 0 {
            self.worker_active = false;
        }
        batch
    }

    /// The worker could not be started: hands back every caller that waits,
    /// to be answered right away.
    pub fn worker_failed(&mut self) -> (batch: Vec<T>)
        ensures
            final(self).well_formed(),
            batch@ == old(self).pending@,
            final(self).pending@ == Seq::<T>::empty(),
            !final(self).worker_active,
    {
        let mut batch: Vec<T> = Vec::new();
        std::mem::swap(&mut batch, &mut self.pending);
        self.worker_active = false;
        batch
    }
}

/// What a caller is answered.
#[derive(Debug, Clone, Copy, PartialEq, Eq, Structural)]
pub enum PortalUnlockOutcome {
    /// The secret was written to the caller's descriptor.
    Delivered,
    /// The caller went away, or the vault stayed locked.
    Dismissed,
    /// The secret could not be delivered.
    Failed,
}

/// The response code for an outcome.
pub fn outcome_code(outcome: PortalUnlockOutcome) -> (code: u32)
    ensures
        code == (match outcome {
            PortalUnlockOutcome::Delivered => SUCCESS,
            PortalUnlockOutcome::Dismissed => CANCELLED,
            PortalUnlockOutcome::Failed => REFUSED,
        }),
{
    match outcome {
        PortalUnlockOutcome::Delivered => SUCCESS,
        PortalUnlockOutcome::Dismissed => CANCELLED,
        PortalUnlockOutcome::Failed => REFUSED,
    }
}

/// How a caller is completed.
#[derive(Debug, Clone, Copy, PartialEq, Eq, Structural)]
pub enum Completion {
    Answer(PortalUnlockOutcome),
    /// Write the secret to the caller's descriptor.
    Deliver,
}

/// Completes a caller of a batch: one whose request was closed, or a vault
/// that stayed locked, is a dismissal.
pub fn complete_unlock_request(
    tracker: &RequestTracker,
    request_path: &str,
    unlocked: bool,
) -> (completion: Completion)
    ensures
        completion == (if tracker@.contains(request_path@) || !unlocked {
            Completion::Answer(PortalUnlockOutcome::Dismissed)
        } else {
            Completion::Deliver
        }),
{
    if tracker.was_closed(request_path) || !unlocked {
        Completion::Answer(PortalUnlockOutcome::Dismissed)
    } else {
        Completion::Deliver
    }
}

/// Completes every caller of a batch, in order.
pub fn complete_unlock_requests(
    tracker: &RequestTracker,
    request_paths: &Vec<String>,
    unlocked: bool,
) -> (completions: Vec<Completion>)
    ensures
        completions@.len() == request_paths@.len(),
        forall|i: int|
            0 <= i < completions@.len() ==> #[trigger] completions@[i] == (if tracker@.contains(
                request_paths@[i]@,
            ) || !unlocked {
                Completion::Answer(PortalUnlockOutcome::Dismissed)
            } else {
                Completion::Deliver
            }),
{
    let mut completions: Vec<Completion> = Vec::new();
    let mut i: usize = 0;
    while i < request_paths.len()
        invariant
            i <= request_paths@.len(),
            completions@.len() == i,
            forall|k: int|
                0 <= k < i ==> #[trigger] completions@[k] == (if tracker@.contains(
                    request_paths@[k]@,
                ) || !unlocked {
                    Completion::Answer(PortalUnlockOutcome::Dismissed)
                } else {
                    Completion::Deliver
                }),
        decreases request_paths@.len() - i,
    {
        completions.push(complete_unlock_request(tracker, request_paths[i].as_str(), unlocked));
        i = i + 1;
    }
    completions
}

/// What the worker does with a batch.
#[derive(Debug, Clone, Copy, PartialEq, Eq, Structural)]
pub enum WorkerStep {
    /// Nobody waits: stop.
    Stop,
    /// The vault is open: complete the batch.
    Complete,
    /// Ask the user for the password, once for the batch.
    Prompt,
}

/// Decides what the worker does with a batch of this size. An open vault is
/// never prompted for.
pub fn worker_step(batch: usize, unlocked: bool) -> (step: WorkerStep)
    ensures
        step == (if batch == 0 {
            WorkerStep::Stop
        } else if unlocked {
            WorkerStep::Complete
        } else {
            WorkerStep::Prompt
        }),
{
    if batch == 0 {
        WorkerStep::Stop
    } else if unlocked {
        WorkerStep::Complete
    } else {
        WorkerStep::Prompt
    }
}

/// The answer after a delivery (`None` when there was no open vault to take
/// the secret from).
pub fn delivered(written: Option<bool>) -> (outcome: PortalUnlockOutcome)
    ensures
        outcome == (if written == Some(true) {
            PortalUnlockOutcome::Delivered
        } else {
            PortalUnlockOutcome::Failed
        }),
{
    match written {
        Some(true) => PortalUnlockOutcome::Delivered,
        _ => PortalUnlockOutcome::Failed,
    }
}

// ---------------------------------------------------------------------------
// Laws
// ---------------------------------------------------------------------------

/// What happens to a queue.
pub enum QueueEvent<T> {
    /// A caller arrives.
    Arrive(T),
    /// Every caller that waits is handed to the worker, or back because
    /// there is no worker.
    Take,
}

/// The callers that wait after these events.
pub open spec fn waiting<T>(pending: Seq<T>, events: Seq<QueueEvent<T>>) -> Seq<T>
    decreases events.len(),
{
    if events.len() == 0 {
        pending
    } else {
        match events.last() {
            QueueEvent::Arrive(request) => arrived(waiting(pending, events.drop_last()), request),
            QueueEvent::Take => Seq::empty(),
        }
    }
}

/// The callers that were handed out by these events, in order.
pub open spec fn handed_out<T>(pending: Seq<T>, events: Seq<QueueEvent<T>>) -> Seq<T>
    decreases events.len(),
{
    if events.len() == 0 {
        Seq::empty()
    } else {
        let before = handed_out(pending, events.drop_last());
        match events.last() {
            QueueEvent::Arrive(_) => before,
            QueueEvent::Take => before + waiting(pending, events.drop_last()),
        }
    }
}

/// The callers that were let in by these events, in order.
pub open spec fn let_in<T>(pending: Seq<T>, events: Seq<QueueEvent<T>>) -> Seq<T>
    decreases events.len(),
{
    if events.len() == 0 {
        Seq::empty()
    } else {
        let before = let_in(pending, events.drop_last());
        match events.last() {
            QueueEvent::Arrive(request) => if waiting(pending, events.drop_last()).len()
                < MAX_PENDING_UNLOCKS {
                before.push(request)
            } else {
                before
            },
            QueueEvent::Take => before,
        }
    }
}

/// Every caller that is let in is handed out exactly once, in the order of
/// arrival, or still waits; and never do more wait than the queue holds.
pub proof fn every_caller_is_served_once<T>(pending: Seq<T>, events: Seq<QueueEvent<T>>)
    requires
        pending.len() <= MAX_PENDING_UNLOCKS,
    ensures
        handed_out(pending, events) + waiting(pending, events) == pending + let_in(pending, events),
        waiting(pending, events).len() <= MAX_PENDING_UNLOCKS,
    decreases events.len(),
{
    if events.len() == 0 {
        assert(handed_out(pending, events) + waiting(pending, events) =~= pending + let_in(
            pending,
            events,
        ));
    } else {
        every_caller_is_served_once(pending, events.drop_last());
        let before = events.drop_last();
        match events.last() {
            QueueEvent::Arrive(request) => {
                if waiting(pending, before).len() < MAX_PENDING_UNLOCKS {
                    assert(handed_out(pending, before) + waiting(pending, before).push(request)
                        =~= (handed_out(pending, before) + waiting(pending, before)).push(request));
                    assert((pending + let_in(pending, before)).push(request) =~= pending + let_in(
                        pending,
                        before,
                    ).push(request));
                }
            },
            QueueEvent::Take => {
                assert((handed_out(pending, before) + waiting(pending, before)) + Seq::<T>::empty()
                    =~= handed_out(pending, before) + waiting(pending, before));
            },
        }
    }
}

} // verus!
