use aegis_portal::objects::{
    collection_path, generate_id, item_of_path, item_path, prompt_path, session_path,
    ALIAS_DEFAULT_PATH, NO_OBJECT, SERVICE_PATH,
};
use aegis_portal::pam::{
    authenticate, first_buffer, next_buffer, open_runtime_dir, temporary_name, write_token,
    PamAnswer, PamStep, TOKEN_NAME,
};
use aegis_portal::request::RequestTracker;
use aegis_portal::secret::{
    check_directory, check_directory_mode, consume_pam_token, pam_token_is_safe, pam_token_path,
    read_regular_file, read_vault_file, runtime_dir, FileFacts, SecretError, MAX_KEYFILE_BYTES,
    MAX_VAULT_BYTES,
};
use aegis_portal::options::{text_pairs, OptionValue, Options};
use aegis_portal::secret_service::{
    complete_request, deleted_paths, item_paths, new_collection_label, new_item_label,
    register_collections, request_collection, unlock, CreateStep, PromptReport, UnlockKind,
    UnlockStep, COLLECTION_LABEL, ITEM_LABEL,
};
use aegis_portal::secret_store::{
    collection_id, complete_unlock, negotiate, NewItem, SecretState, SentSecret, StoreError,
    DH_ALGORITHM,
};
use aegis_portal::textmap::TextMap;
use aegis_portal::transport::{
    calculate_dh_shared_secret, derive_portal_secret, derive_session_key, exchange, SessionCrypto,
};
use aegis_portal::unlock::{
    complete_unlock_request, complete_unlock_requests, delivered, init_in, key_created, outcome_code,
    prompt_and_unlock,
    prompted_password, read_keyfile, unlock_failure, unlock_with_answer, unlock_with_password,
    unlock_with_token, worker_step, Completion, Enqueued, InitPlan, KeyOutcome, KeyPlan, PortalUnlockOutcome,
    PromptResponse, SecretPrompter, UnlockQueue, VaultFiles, WorkerStep, MAX_PENDING_UNLOCKS, PROMPT_REASON,
    PROMPT_TITLE,
};
use aegis_portal::vault::{temporary_path, Vault};
use hmac::{Hmac, Mac};
use num_bigint::BigUint;
use sha2::Sha256;

const PRIME: &str = "FFFFFFFFFFFFFFFFC90FDAA22168C234C4C6628B80DC1CD1\
                     29024E088A67CC74020BBEA63B139B22514A08798E3404DD\
                     EF9519B3CD3A431B302B0A6DF25F14374FE1356D6D51C245\
                     E485B576625E7EC6F44C42E9A637ED6B0BFF5CB6F406B7ED\
                     EE386BFB5A899FA5AE9F24117C4B1FE649286651ECE65381\
                     FFFFFFFFFFFFFFFF";

fn ok<T>(r: Result<T, SecretError>) -> T {
    match r {
        Ok(value) => value,
        Err(error) => panic!("{}", error.text()),
    }
}

fn problem<T>(r: Result<T, SecretError>) -> String {
    match r {
        Ok(_) => panic!("an error is due"),
        Err(error) => error.text(),
    }
}

fn authentication_code(key: &[u8], pieces: &[&[u8]]) -> Vec<u8> {
    let mut mac = Hmac::<Sha256>::new_from_slice(key).unwrap();
    for piece in pieces {
        mac.update(piece);
    }
    mac.finalize().into_bytes().to_vec()
}

fn python_hkdf(shared_secret_128: &[u8]) -> [u8; 16] {
    let prk = authentication_code(&[0u8; 32], &[shared_secret_128]);
    let t1 = authentication_code(&prk, &[&[0x01]]);
    let mut key = [0u8; 16];
    key.copy_from_slice(&t1[..16]);
    key
}

fn padded(number: &BigUint) -> Vec<u8> {
    let bytes = number.to_bytes_be();
    let mut wide = vec![0u8; 128 - bytes.len()];
    wide.extend_from_slice(&bytes);
    wide
}

#[test]
fn hkdf_matches_libsecret_reference() {
    let shared = [0u8; 128];
    let ours = derive_session_key(&shared);
    let reference = python_hkdf(&shared);
    assert_eq!(ours, reference, "HKDF output must match libsecret reference");
}

#[test]
fn session_keys_follow_the_published_vector() {
    assert_eq!(
        derive_session_key(&[0x0b; 22]),
        [
            0x8d, 0xa4, 0xe7, 0x75, 0xa5, 0x63, 0xc1, 0x8f, 0x71, 0x5f, 0x80, 0x2a, 0x06, 0x3c,
            0x5a, 0x31
        ]
    );
}

#[test]
fn portal_secrets_are_derived_from_the_master_key() {
    let key = [7u8; 32];
    let prk = authentication_code(&[0u8; 32], &[&key]);
    let expected = authentication_code(&prk, &[b"aegis.portal.Secret/v1", &[0x01]]);
    assert_eq!(derive_portal_secret(&key), expected);
}

#[test]
fn full_dh_roundtrip() {
    let p = BigUint::parse_bytes(PRIME.as_bytes(), 16).unwrap();
    let g = BigUint::from(2u32);

    let client_priv = BigUint::from(12345678901234u64);
    let client_pub_bytes = padded(&g.modpow(&client_priv, &p));

    let (server_pub_bytes, server_key) = ok(calculate_dh_shared_secret(&client_pub_bytes));

    let server_pub_bn = BigUint::from_bytes_be(&server_pub_bytes);
    let shared_bytes = padded(&server_pub_bn.modpow(&client_priv, &p));
    let client_key = python_hkdf(&shared_bytes);

    assert_eq!(
        server_key.as_slice(),
        &client_key,
        "DH keys must match on both sides"
    );
}

#[test]
fn exchanges_use_the_given_exponent() {
    let p = BigUint::parse_bytes(PRIME.as_bytes(), 16).unwrap();
    let client = padded(&BigUint::from(9u32));
    let (public, key) = ok(exchange(&client, &[5]));
    assert_eq!(public, padded(&BigUint::from(32u32)));
    assert_eq!(key, python_hkdf(&padded(&BigUint::from(59049u32))));
    let limit = padded(&(&p - BigUint::from(1u32)));
    for refused in [vec![0u8], vec![1u8], limit, padded(&p)] {
        assert_eq!(
            problem(exchange(&refused, &[5])),
            "crypto error: client DH public key out of valid range"
        );
    }
    let largest = padded(&(&p - BigUint::from(2u32)));
    assert!(exchange(&largest, &[5]).is_ok());
}

#[test]
fn session_crypto_roundtrip() {
    let key = vec![0x42u8; 16];
    let crypto = SessionCrypto::Dh(key);
    let (iv, ciphertext) = ok(crypto.encrypt(b"top secret"));
    assert_eq!(iv.len(), 16);
    assert_ne!(ciphertext, b"top secret");
    let plaintext = ok(crypto.decrypt(&iv, &ciphertext));
    assert_eq!(plaintext, b"top secret");

    let (params, value) = ok(SessionCrypto::Plain.encrypt(b"plain"));
    assert!(params.is_empty());
    assert_eq!(ok(SessionCrypto::Plain.decrypt(&params, &value)), b"plain");
}

#[test]
fn secrets_are_encrypted_as_published() {
    let key = vec![
        0x2b, 0x7e, 0x15, 0x16, 0x28, 0xae, 0xd2, 0xa6, 0xab, 0xf7, 0x15, 0x88, 0x09, 0xcf, 0x4f,
        0x3c,
    ];
    let iv: Vec<u8> = (0u8..16).collect();
    let block = [
        0x6b, 0xc1, 0xbe, 0xe2, 0x2e, 0x40, 0x9f, 0x96, 0xe9, 0x3d, 0x7e, 0x11, 0x73, 0x93, 0x17,
        0x2a,
    ];
    let crypto = SessionCrypto::Dh(key);
    let (parameters, value) = crypto.encrypt_with(&iv, &block);
    assert_eq!(parameters, iv);
    assert_eq!(value.len(), 32);
    assert_eq!(
        value[..16],
        [
            0x76, 0x49, 0xab, 0xac, 0x81, 0x19, 0xb2, 0x46, 0xce, 0xe9, 0x8e, 0x9b, 0x12, 0xe9,
            0x19, 0x7d
        ]
    );
    assert_eq!(ok(crypto.decrypt(&parameters, &value)), block);
    assert_eq!(
        problem(crypto.decrypt(&iv[..15], &value)),
        "crypto error: invalid IV length: 15"
    );
    assert!(problem(crypto.decrypt(&iv, &value[..31])).starts_with("crypto error: "));
}

#[test]
fn vault_crypto_roundtrip() {
    let password = "super-secret-password";
    let salt = ok(Vault::generate_salt());
    let key = ok(Vault::derive_key(password, &salt));

    let vault = Vault::new(b"/tmp/vault.enc".to_vec(), key);
    let file = ok(vault.save(b"hunter2"));
    assert_eq!(ok(vault.load(&file)), b"hunter2");
    assert_eq!(file.len(), 24 + 7 + 16);
    assert!(!file.windows(7).any(|piece| piece == b"hunter2"));

    assert_eq!(
        problem(vault.load(&file[..23])),
        "vault error: vault file corrupted"
    );
    let mut other = file.clone();
    other[30] ^= 1;
    assert!(problem(vault.load(&other)).starts_with("crypto error: decryption failure: "));
    let stranger = Vault::new(b"/tmp/vault.enc".to_vec(), [0; 32]);
    assert!(stranger.load(&file).is_err());
}

#[test]
fn sealed_files_start_with_their_nonce() {
    let vault = Vault::new(b"/tmp/vault.enc".to_vec(), [3; 32]);
    let nonce = [9u8; 24];
    let a = ok(vault.seal_with(&nonce, b"text"));
    let b = ok(vault.seal_with(&nonce, b"text"));
    assert_eq!(a, b);
    assert_eq!(a[..24], nonce);
    assert_eq!(ok(vault.load(&a)), b"text");
    assert_eq!(*vault.get_master_key(), [3u8; 32]);
}

#[test]
fn passwords_derive_their_key() {
    let salt = "c29tZXNhbHQ";
    let a = ok(Vault::derive_key("a", salt));
    assert_eq!(a, ok(Vault::derive_key("a", salt)));
    assert_ne!(a, ok(Vault::derive_key("b", salt)));
    assert_ne!(a, ok(Vault::derive_key("a", "c29tZXNhbHR")));
    assert!(problem(Vault::derive_key("a", "!")).starts_with("crypto error: "));
    for refused in ["abcd!", "abc=", "ab\u{e9}d"] {
        assert!(problem(Vault::derive_key("a", refused)).starts_with("crypto error: "));
    }
    assert!(problem(Vault::derive_key("a", &"a".repeat(65))).starts_with("crypto error: "));
    assert_eq!(ok(Vault::derive_key("a", &"a".repeat(64))).len(), 32);
    assert_ne!(
        ok(Vault::generate_salt()),
        ok(Vault::generate_salt()),
        "each vault has its own salt"
    );
    assert_ne!(ok(Vault::generate_key()), ok(Vault::generate_key()));
    let bytes: Vec<u8> = (0..32).collect();
    assert_eq!(Vault::key_of_bytes(&bytes).to_vec(), bytes);
}

#[test]
fn key_files_hold_hexadecimal() {
    let mut key = [0u8; 32];
    key[0] = 0xab;
    key[31] = 0x0f;
    let text = Vault::key_to_hex(&key);
    assert_eq!(text.len(), 64);
    assert!(text.starts_with("ab00"));
    assert!(text.ends_with("000f"));
    assert_eq!(ok(Vault::key_from_hex(&format!("  {text}\n"))), key);
    assert_eq!(ok(read_keyfile(text.into_bytes())), key);
    assert!(Vault::key_from_hex("ab").is_err());
    assert!(Vault::key_from_hex(&"g".repeat(64)).is_err());
    assert_eq!(
        problem(read_keyfile(vec![0xff])),
        "crypto error: vault.key is not UTF-8"
    );
}

#[test]
fn replacements_are_written_beside_the_file() {
    assert_eq!(
        temporary_path(b"/data/vault.enc", "00ff"),
        Ok(b"/data/.vault.enc.00ff.tmp".to_vec())
    );
    assert_eq!(
        temporary_path(b"/", "00"),
        Err("vault path must have a parent directory".to_owned())
    );
    assert_eq!(
        temporary_path(b"/data/..", "00"),
        Err("vault path must name a file".to_owned())
    );
    assert!(Vault::validate_ciphertext(Some(24)).is_ok());
    assert_eq!(
        problem(Vault::validate_ciphertext(Some(23))),
        "vault error: vault file corrupted"
    );
    assert_eq!(
        problem(Vault::validate_ciphertext(None)),
        "vault error: vault file is missing"
    );
}

#[test]
fn salt_without_ciphertext_is_rejected() {
    assert!(init_in(false, true, false).is_err());
}

#[test]
fn orphan_ciphertext_is_never_overwritten() {
    assert!(init_in(false, false, true).is_err());
}

#[test]
fn startup_follows_the_files() {
    assert_eq!(ok(init_in(false, false, false)), InitPlan::CreateKeyfile);
    assert_eq!(ok(init_in(false, true, true)), InitPlan::StartLocked);
    for salt in [false, true] {
        assert_eq!(
            ok(init_in(true, salt, true)),
            InitPlan::OpenKeyfile { create_vault: false }
        );
        assert_eq!(
            ok(init_in(true, salt, false)),
            InitPlan::OpenKeyfile { create_vault: true }
        );
    }
    assert_eq!(
        problem(init_in(false, true, false)),
        "vault error: password-mode vault has vault.salt but no vault.enc"
    );
}

struct Scripted(Result<PromptResponse, String>);

impl SecretPrompter for Scripted {
    fn prompt_secret(&self, title: &str, reason: Option<&str>) -> Result<PromptResponse, String> {
        assert_eq!(title, PROMPT_TITLE);
        assert_eq!(reason, Some(PROMPT_REASON));
        match &self.0 {
            Ok(PromptResponse::Secret(password)) => Ok(PromptResponse::Secret(password.clone())),
            Ok(PromptResponse::Cancelled) => Ok(PromptResponse::Cancelled),
            Err(m) => Err(m.clone()),
        }
    }
}

#[test]
fn passwords_open_their_vault() {
    let salt = b"c29tZXNhbHQ\n";
    let key = ok(Vault::derive_key("right", "c29tZXNhbHQ"));
    let file = ok(Vault::new(b"/v".to_vec(), key).save(b"kept"));
    let (vault, kept) = ok(unlock_with_password(b"/v".to_vec(), "right", salt, Some(&file)));
    assert_eq!(kept, b"kept");
    assert_eq!(*vault.get_master_key(), key);
    assert!(problem(unlock_with_password(b"/v".to_vec(), "wrong", salt, Some(&file)))
        .starts_with("crypto error: decryption failure: "));
    assert_eq!(
        problem(unlock_with_password(b"/v".to_vec(), "right", salt, None)),
        "vault error: password-mode vault is missing vault.enc"
    );
    let token = |text: &[u8]| unlock_with_token(text.to_vec(), b"/v".to_vec(), salt, Some(&file));
    assert!(matches!(token(b"right\n"), Some(Ok((_, kept))) if kept == b"kept"));
    assert!(matches!(token(b"wrong\n"), Some(Err(_))));
    assert!(token(b"\n").is_none());
    let right = || Ok(PromptResponse::Secret("right".to_owned()));
    let files = |file: Option<&Vec<u8>>| VaultFiles {
        salt: salt.to_vec(),
        file: file.cloned(),
    };
    assert!(unlock_with_answer(right(), b"/v".to_vec(), salt, Some(&file)).is_ok());
    assert!(prompt_and_unlock(&Scripted(right()), b"/v".to_vec(), || Ok(files(Some(&file)))).is_ok());
    match prompt_and_unlock(&Scripted(right()), b"/v".to_vec(), || Ok(files(None))) {
        Err(m) => assert_eq!(
            m,
            "wrong password or unreadable vault: vault error: password-mode vault is missing vault.enc"
        ),
        Ok(_) => panic!("there is no file"),
    }
    let unread = || Err(SecretError::NoDataDir);
    assert_eq!(
        prompt_and_unlock(&Scripted(right()), b"/v".to_vec(), unread).err(),
        Some("wrong password or unreadable vault: no XDG data directory available".to_owned())
    );
    assert_eq!(
        prompt_and_unlock(&Scripted(Ok(PromptResponse::Cancelled)), b"/v".to_vec(), || {
            panic!("nothing is read without a password")
        })
        .err(),
        Some("prompt dismissed".to_owned())
    );
}

#[test]
fn outcomes_have_their_codes() {
    assert_eq!(outcome_code(PortalUnlockOutcome::Delivered), 0);
    assert_eq!(outcome_code(PortalUnlockOutcome::Dismissed), 1);
    assert_eq!(outcome_code(PortalUnlockOutcome::Failed), 2);
}

#[test]
fn prompts_may_be_dismissed_or_fail() {
    assert_eq!(
        prompted_password(Ok(PromptResponse::Cancelled)),
        Err("prompt dismissed".to_owned())
    );
    assert_eq!(
        prompted_password(Err("gone".to_owned())),
        Err("secret prompt failed: gone".to_owned())
    );
    assert_eq!(
        unlock_failure(&SecretError::NoDataDir),
        "wrong password or unreadable vault: no XDG data directory available"
    );
}

#[test]
fn every_waiting_caller_is_in_one_batch() {
    let mut queue = UnlockQueue::new();
    assert!(matches!(queue.enqueue_unlock_request(0), Enqueued::StartWorker));
    for caller in 1..MAX_PENDING_UNLOCKS {
        assert!(matches!(queue.enqueue_unlock_request(caller), Enqueued::Queued));
    }
    assert!(matches!(queue.enqueue_unlock_request(99), Enqueued::Rejected(99)));
    let batch = queue.take_batch();
    assert_eq!(batch, (0..MAX_PENDING_UNLOCKS).collect::<Vec<_>>());
    assert!(queue.take_batch().is_empty());
    assert!(!queue.worker_active);
    queue.enqueue_unlock_request(7);
    assert_eq!(queue.worker_failed(), vec![7]);
    assert!(matches!(queue.enqueue_unlock_request(8), Enqueued::StartWorker));
}

#[test]
fn waiting_callers_are_completed() {
    let mut tracker = RequestTracker::default();
    assert_eq!(complete_unlock_request(&tracker, "/r/1", true), Completion::Deliver);
    let dismissed = Completion::Answer(PortalUnlockOutcome::Dismissed);
    assert_eq!(complete_unlock_request(&tracker, "/r/1", false), dismissed);
    tracker.close("/r/1");
    assert_eq!(complete_unlock_request(&tracker, "/r/1", true), dismissed);
    assert_eq!(delivered(Some(true)), PortalUnlockOutcome::Delivered);
    assert_eq!(delivered(Some(false)), PortalUnlockOutcome::Failed);
    assert_eq!(delivered(None), PortalUnlockOutcome::Failed);
    let paths = vec!["/r/1".to_owned(), "/r/2".to_owned()];
    assert_eq!(
        complete_unlock_requests(&tracker, &paths, true),
        vec![dismissed, Completion::Deliver]
    );
    assert_eq!(
        complete_unlock_requests(&tracker, &paths, false),
        vec![dismissed, dismissed]
    );
    assert_eq!(worker_step(0, false), WorkerStep::Stop);
    assert_eq!(worker_step(2, false), WorkerStep::Prompt);
    assert_eq!(worker_step(2, true), WorkerStep::Complete);
}

fn facts(mode: u32) -> FileFacts {
    FileFacts {
        is_file: true,
        uid: 1000,
        mode,
        len: 9,
    }
}

#[test]
fn pam_token_must_be_regular_private_and_is_one_shot() {
    assert!(pam_token_is_safe(&facts(0o100600), 1000));
    let consumed = consume_pam_token(b"password\n".to_vec());
    assert_eq!(consumed.as_deref(), Some("password"));
    assert!(!pam_token_is_safe(&facts(0o100644), 1000));
}

#[test]
fn tokens_without_a_password_are_ignored() {
    assert_eq!(consume_pam_token(b"\r\n".to_vec()), None);
    assert_eq!(consume_pam_token(vec![0xff]), None);
    assert_eq!(consume_pam_token(b"a\nb\r\n\n".to_vec()).as_deref(), Some("a\nb"));
    assert!(!pam_token_is_safe(&facts(0o100600), 1001));
    let mut large = facts(0o100600);
    large.len = 65537;
    assert!(!pam_token_is_safe(&large, 1000));
    large.len = 65536;
    assert!(pam_token_is_safe(&large, 1000));
}

#[test]
fn unsafe_files_are_refused() {
    assert!(read_regular_file(b"/k", &facts(0o100600), 1000, MAX_KEYFILE_BYTES, true).is_ok());
    assert!(read_regular_file(b"/k", &facts(0o100644), 1000, MAX_KEYFILE_BYTES, false).is_ok());
    assert!(read_regular_file(b"/k", &facts(0o100644), 1000, MAX_KEYFILE_BYTES, true).is_err());
    assert_eq!(
        problem(read_regular_file(b"/k", &facts(0o100622), 1000, MAX_KEYFILE_BYTES, false)),
        "I/O error: unsafe file ownership, mode, type, or size: /k"
    );
    assert!(read_vault_file(&facts(0o100600), 1000).is_ok());
    let mut large = facts(0o100600);
    large.len = MAX_VAULT_BYTES + 1;
    assert!(read_vault_file(&large, 1000).is_err());
    assert!(check_directory(true, 1000, 1000).is_ok());
    assert_eq!(
        problem(check_directory(false, 1000, 1000)),
        "I/O error: secret directory must be a user-owned real directory"
    );
    assert!(check_directory_mode(0o40700).is_ok());
    assert_eq!(
        problem(check_directory_mode(0o40755)),
        "I/O error: secret directory mode must be 0700"
    );
}

#[test]
fn rejects_runtime_directory_accessible_to_other_users() {
    assert!(open_runtime_dir(0o40770, 1000, 1000).is_err());
}

#[test]
fn logins_write_a_token_for_known_users() {
    assert_eq!(authenticate(Some(b"ming"), Some(b"pw")), PamStep::WriteToken);
    let unknown = PamStep::Answer(PamAnswer::UserUnknown);
    assert_eq!(authenticate(None, Some(b"pw")), unknown);
    assert_eq!(authenticate(Some(b"mi\0ng"), Some(b"pw")), unknown);
    let nothing = PamStep::Answer(PamAnswer::Success);
    assert_eq!(authenticate(Some(b"ming"), None), nothing);
    assert_eq!(authenticate(Some(b"ming"), Some(b"")), nothing);
    assert_eq!(write_token(None), PamAnswer::UserUnknown);
    assert_eq!(write_token(Some(true)), PamAnswer::Success);
    assert_eq!(write_token(Some(false)), PamAnswer::SessionError);
    assert!(open_runtime_dir(0o40700, 1000, 1000).is_ok());
    assert!(open_runtime_dir(0o100700, 1000, 1000).is_err());
    assert!(open_runtime_dir(0o40700, 0, 1000).is_err());
}

#[test]
fn writer_and_reader_name_the_same_token() {
    assert_eq!(runtime_dir(1000), "/run/user/1000");
    assert_eq!(pam_token_path(1000), "/run/user/1000/aegis-pam-token");
    assert_eq!(pam_token_path(1000), format!("/run/user/1000/{TOKEN_NAME}"));
    assert_eq!(temporary_name(&[0, 0xff]), ".aegis-pam-token.00ff.tmp");
}

#[test]
fn account_buffers_grow_to_a_limit() {
    assert_eq!(first_buffer(-1), 16384);
    assert_eq!(first_buffer(10), 1024);
    assert_eq!(first_buffer(1 << 30), 1048576);
    assert_eq!(first_buffer(2048), 2048);
    assert_eq!(next_buffer(1024), Some(2048));
    assert_eq!(next_buffer(1000000), Some(1048576));
    assert_eq!(next_buffer(1048576), None);
    let mut size = first_buffer(1);
    let mut steps = 0;
    while let Some(next) = next_buffer(size) {
        size = next;
        steps += 1;
    }
    assert_eq!(steps, 10);
}

#[test]
fn object_paths_name_collections_and_items() {
    assert_eq!(SERVICE_PATH, "/org/freedesktop/secrets");
    assert_eq!(ALIAS_DEFAULT_PATH, "/org/freedesktop/secrets/aliases/default");
    assert_eq!(
        collection_path("login"),
        "/org/freedesktop/secrets/collection/login"
    );
    assert_eq!(session_path("1"), "/org/freedesktop/secrets/session/s1");
    assert_eq!(prompt_path("1"), "/org/freedesktop/secrets/prompt/p1");
    let path = item_path("login", "i1");
    assert_eq!(path, "/org/freedesktop/secrets/collection/login/i1");
    assert_eq!(
        item_of_path(&path),
        Some(("login".to_owned(), "i1".to_owned()))
    );
    assert_eq!(item_of_path("/org/freedesktop/secrets/collection/login"), None);
    assert_eq!(item_of_path("/elsewhere/login/i1"), None);
    let id = generate_id().unwrap();
    assert!(!id.is_empty());
    assert!(id.chars().all(|c| c.is_ascii_hexdigit()));
    assert_ne!(generate_id(), Some(id));
}

fn attributes(pairs: &[(&str, &str)]) -> TextMap<String> {
    let mut map = TextMap::new();
    for (key, value) in pairs {
        map.insert(key, (*value).to_owned());
    }
    map
}

fn plain(value: &[u8]) -> SentSecret {
    SentSecret {
        parameters: Vec::new(),
        value: value.to_vec(),
    }
}

fn store() -> SecretState {
    let mut state = SecretState::new(true);
    assert!(state.ensure_login_collection());
    assert!(!state.ensure_login_collection());
    state.open_session("/s/1", SessionCrypto::Plain);
    state
}

fn add(state: &mut SecretState, id: &str, pairs: &[(&str, &str)], replace: bool) -> Vec<String> {
    let new = NewItem {
        label: id.to_uppercase(),
        attributes: attributes(pairs),
    };
    let secret = plain(format!("secret of {id}").as_bytes());
    match state.create_item("login", id, new, "/s/1", &secret, replace) {
        Ok(ids) => ids,
        Err(_) => panic!("the item is created"),
    }
}

fn names(state: &SecretState, pairs: &[(&str, &str)]) -> Vec<String> {
    let mut list: Vec<String> = state
        .search_items(&attributes(pairs))
        .into_iter()
        .map(|found| found.item)
        .collect();
    list.sort();
    list
}

#[test]
fn items_are_created_found_and_deleted() {
    let mut state = store();
    assert_eq!(add(&mut state, "i1", &[("app", "a"), ("user", "x")], false).len(), 0);
    assert_eq!(add(&mut state, "i2", &[("app", "a")], false).len(), 0);
    assert_eq!(names(&state, &[("app", "a")]), ["i1", "i2"]);
    assert_eq!(names(&state, &[("user", "x")]), ["i1"]);
    assert_eq!(names(&state, &[]), ["i1", "i2"]);
    assert_eq!(state.search_collection("login", &attributes(&[])).len(), 2);
    assert_eq!(state.search_collection("other", &attributes(&[])).len(), 0);
    assert_eq!(state.items("login").len(), 2);

    match state.get_secret("login", "i1", "/s/1") {
        Ok(sent) => {
            assert!(sent.parameters.is_empty());
            assert_eq!(sent.value, b"secret of i1");
        }
        Err(_) => panic!("the secret is handed out"),
    }
    assert!(state.set_secret("login", "i1", "/s/1", &plain(b"changed")).is_ok());
    let paths = vec![item_path("login", "i1"), item_path("login", "i9"), "/x".to_owned()];
    match state.get_secrets(&paths, "/s/1") {
        Ok(found) => {
            assert_eq!(found.len(), 1);
            assert_eq!(found.get(&paths[0]).map(|sent| sent.value.clone()), Some(b"changed".to_vec()));
        }
        Err(_) => panic!("the secrets are handed out"),
    }

    assert!(state.delete_item("login", "i1").is_ok());
    assert!(state.delete_item("login", "i1").is_ok());
    assert_eq!(names(&state, &[]), ["i2"]);
    assert!(matches!(
        state.get_secret("login", "i9", "/s/1"),
        Err(StoreError::Failed(m)) if m == "unknown item i9"
    ));
}

#[test]
fn items_of_the_same_attributes_are_replaced() {
    let mut state = store();
    add(&mut state, "i1", &[("app", "a")], false);
    add(&mut state, "i2", &[("app", "b")], false);
    assert_eq!(add(&mut state, "i3", &[("app", "a")], true), ["i1"]);
    assert_eq!(names(&state, &[]), ["i2", "i3"]);
}

#[test]
fn labels_and_attributes_change() {
    let mut state = store();
    add(&mut state, "i1", &[("app", "a")], false);
    assert_eq!(state.item_label("login", "i1"), "I1");
    assert!(state.set_item_label("login", "i1", "One".to_owned()));
    assert_eq!(state.item_label("login", "i1"), "One");
    assert!(state.set_item_attributes("login", "i1", attributes(&[("k", "v")])));
    assert_eq!(state.item_attributes("login", "i1").keys(), ["k"]);
    assert!(!state.set_item_label("login", "i9", "x".to_owned()));
    assert_eq!(state.collection_label("login"), "Login");
    assert!(state.set_collection_label("login", "Mine".to_owned()));
    assert_eq!(state.collection_label("login"), "Mine");
}

#[test]
fn collections_are_created_and_deleted() {
    let mut state = store();
    assert!(matches!(state.create_collection("c1", "One"), Ok(true)));
    assert!(matches!(state.create_collection("c1", "Two"), Ok(false)));
    assert_eq!(state.collection_label("c1"), "One");
    assert_eq!(state.collection_ids().len(), 2);
    assert!(matches!(state.delete_collection("c1"), Ok(ids) if ids.is_empty()));
    assert_eq!(state.collection_ids(), ["login"]);
    assert_eq!(collection_id("", "f"), "cf");
    assert_eq!(collection_id("default", "f"), "default");
    match state.read_alias("default") {
        Ok(path) => assert_eq!(path, "/org/freedesktop/secrets/collection/login"),
        Err(_) => panic!("the default collection is there"),
    }
    assert!(matches!(state.read_alias("other"), Ok(path) if path == NO_OBJECT));
}

#[test]
fn locked_stores_refuse() {
    let mut state = SecretState::new(false);
    state.open_session("/s/1", SessionCrypto::Plain);
    assert!(!state.is_unlocked());
    assert!(matches!(
        state.get_secret("login", "i1", "/s/1"),
        Err(StoreError::IsLocked)
    ));
    assert!(matches!(
        state.set_secret("login", "i1", "/s/1", &plain(b"x")),
        Err(StoreError::IsLocked)
    ));
    assert!(matches!(state.create_collection("c", "C"), Err(StoreError::IsLocked)));
    assert!(matches!(state.delete_collection("c"), Err(StoreError::IsLocked)));
    assert!(matches!(state.delete_item("c", "i"), Err(StoreError::IsLocked)));
}

#[test]
fn sessions_are_negotiated_and_closed() {
    match negotiate("plain", None) {
        Ok(session) => {
            assert!(session.output.is_empty());
            assert!(matches!(session.crypto, SessionCrypto::Plain));
        }
        Err(_) => panic!("a plain session"),
    }
    match negotiate(DH_ALGORITHM, Some(&[9])) {
        Ok(session) => {
            assert_eq!(session.output.len(), 128);
            assert!(matches!(session.crypto, SessionCrypto::Dh(key) if key.len() == 16));
        }
        Err(_) => panic!("an encrypted session"),
    }
    assert!(matches!(
        negotiate(DH_ALGORITHM, None),
        Err(StoreError::InvalidArgs(m)) if m == "invalid DH input"
    ));
    assert!(matches!(
        negotiate("rot13", None),
        Err(StoreError::InvalidArgs(m)) if m == "unsupported session algorithm 'rot13'"
    ));
    let mut state = store();
    add(&mut state, "i1", &[], false);
    state.close_session("/s/1");
    assert!(matches!(
        state.get_secret("login", "i1", "/s/1"),
        Err(StoreError::InvalidArgs(m)) if m == "invalid session"
    ));
}

#[test]
fn encrypted_sessions_carry_secrets() {
    let mut state = store();
    add(&mut state, "i1", &[], false);
    let key = vec![5u8; 16];
    state.open_session("/s/2", SessionCrypto::Dh(key.clone()));
    match state.get_secret("login", "i1", "/s/2") {
        Ok(sent) => {
            assert_ne!(sent.value, b"secret of i1");
            let read = ok(SessionCrypto::Dh(key).decrypt(&sent.parameters, &sent.value));
            assert_eq!(read, b"secret of i1");
        }
        Err(_) => panic!("the secret is handed out"),
    }
    assert!(matches!(
        state.set_secret("login", "i1", "/s/2", &plain(b"not encrypted")),
        Err(StoreError::Failed(_))
    ));
}

#[test]
fn what_is_kept_is_read_back() {
    let mut state = store();
    add(&mut state, "i1", &[("app", "a")], false);
    add(&mut state, "i2", &[("app", "b")], false);
    assert!(state.delete_item("login", "i1").is_ok());
    let data = state.sync_to_vault();
    assert_eq!(data.collections.len(), 1);
    assert_eq!(data.collections[0].id, "login");
    assert_eq!(data.collections[0].items.len(), 1);
    assert_eq!(data.collections[0].items[0].secret, b"secret of i2");
    let mut other = SecretState::new(true);
    other.populate(&data);
    assert_eq!(names(&other, &[]), ["i2"]);
    assert_eq!(other.collection_label("login"), "Login");
}

#[test]
fn unlocking_reports_the_objects() {
    let objects = vec!["/a".to_owned()];
    assert_eq!(complete_unlock(objects.clone(), true), (false, objects.clone()));
    assert_eq!(complete_unlock(objects, false), (true, Vec::new()));
}

#[test]
fn unlocking_waits_for_the_prompt() {
    let objects = || vec!["/a".to_owned(), "/b".to_owned()];
    match unlock(&SecretState::new(true), objects()) {
        UnlockStep::Unlocked(unlocked) => assert_eq!(unlocked, objects()),
        UnlockStep::Prompt(_) => panic!("the vault is open"),
    }
    let mut state = SecretState::new(false);
    let kind = match unlock(&state, objects()) {
        UnlockStep::Prompt(kind) => kind,
        UnlockStep::Unlocked(_) => panic!("the vault is locked"),
    };
    let done = complete_request(&mut state, kind, true, "f");
    assert!(!done.dismissed && !done.register && !done.keep);
    assert!(matches!(done.report, PromptReport::Objects(reported) if reported == objects()));
    let done = complete_request(&mut state, UnlockKind::Unlock(objects()), false, "f");
    assert!(done.dismissed);
    assert!(matches!(done.report, PromptReport::Objects(reported) if reported.is_empty()));
}

fn labelled(key: &str, label: &str) -> Options {
    let mut properties = Options::new();
    properties.insert(key, OptionValue::Text(label.to_owned()));
    properties
}

#[test]
fn attributes_are_the_pairs_of_texts() {
    let text = |text: &str| OptionValue::Text(text.to_owned());
    let map = text_pairs(&vec![
        (text("app"), text("first")),
        (text("count"), OptionValue::U32(3)),
        (OptionValue::Bool(true), text("flag")),
        (text("user"), text("u")),
        (text("app"), text("last")),
    ]);
    assert_eq!(map.get("app").map(String::as_str), Some("last"));
    assert_eq!(map.get("user").map(String::as_str), Some("u"));
    assert!(map.get("count").is_none() && map.get("flag").is_none());
}

#[test]
fn collections_wait_for_the_prompt() {
    let properties = labelled(COLLECTION_LABEL, "Default");
    let mut state = SecretState::new(false);
    let kind = match request_collection(&mut state, &properties, "default", "f") {
        Ok(CreateStep::Prompt(kind)) => kind,
        _ => panic!("the vault is locked"),
    };
    state.unlocked = true;
    let done = complete_request(&mut state, kind, true, "f");
    assert!(!done.dismissed && done.register && done.keep);
    assert!(matches!(
        done.report,
        PromptReport::Path(path) if path == "/org/freedesktop/secrets/collection/default"
    ));
    assert_eq!(state.collection_label("default"), "Default");

    match request_collection(&mut state, &Options::new(), "", "12ab") {
        Ok(CreateStep::Created { id, path, new }) => {
            assert_eq!(id, "c12ab");
            assert_eq!(path, "/org/freedesktop/secrets/collection/c12ab");
            assert!(new);
        }
        _ => panic!("the collection is created"),
    }
    assert_eq!(state.collection_label("c12ab"), "New Collection");
    assert!(matches!(
        request_collection(&mut state, &Options::new(), "default", "f"),
        Ok(CreateStep::Created { new: false, .. })
    ));
    assert!(matches!(
        request_collection(&mut state, &Options::new(), "not a path", "f"),
        Err(StoreError::InvalidArgs(m)) if m == "Invalid object path"
    ));
    let dismissed = UnlockKind::CreateCollection {
        alias: "x".to_owned(),
        label: "X".to_owned(),
    };
    let done = complete_request(&mut state, dismissed, false, "f");
    assert!(done.dismissed && !done.register && !done.keep);
    assert!(matches!(done.report, PromptReport::Path(path) if path == NO_OBJECT));
    assert_eq!(state.collection_label("x"), "");
}

#[test]
fn labels_have_defaults() {
    assert_eq!(new_collection_label(&Options::new()), "New Collection");
    assert_eq!(new_item_label(&Options::new()), "New Item");
    assert_eq!(new_item_label(&labelled(ITEM_LABEL, "Mail")), "Mail");
    let mut other = Options::new();
    other.insert(ITEM_LABEL, OptionValue::U32(1));
    assert_eq!(new_item_label(&other), "New Item");
}

fn served(state: &SecretState) -> Vec<String> {
    let mut paths: Vec<String> = register_collections(state)
        .into_iter()
        .map(|object| object.path)
        .collect();
    paths.sort();
    paths
}

#[test]
fn served_objects_follow_the_store() {
    let mut state = store();
    add(&mut state, "i1", &[("app", "a")], false);
    add(&mut state, "i2", &[("app", "b")], false);
    assert!(matches!(state.create_collection("c1", "One"), Ok(true)));
    let login = "/org/freedesktop/secrets/collection/login";
    assert_eq!(
        served(&state),
        [
            ALIAS_DEFAULT_PATH,
            "/org/freedesktop/secrets/collection/c1",
            login,
            "/org/freedesktop/secrets/collection/login/i1",
            "/org/freedesktop/secrets/collection/login/i2",
        ]
    );
    assert!(state.delete_item("login", "i1").is_ok());
    assert_eq!(served(&state).len(), 4);
    assert_eq!(
        item_paths("login", &vec!["i1".to_owned()]),
        ["/org/freedesktop/secrets/collection/login/i1"]
    );
    let ids = match state.delete_collection("login") {
        Ok(ids) => ids,
        Err(_) => panic!("the collection is deleted"),
    };
    let mut gone = deleted_paths("login", &ids);
    assert_eq!(gone.pop(), Some(ALIAS_DEFAULT_PATH.to_owned()));
    assert_eq!(gone.pop(), Some(login.to_owned()));
    gone.sort();
    assert_eq!(gone, item_paths("login", &vec!["i1".to_owned(), "i2".to_owned()]));
    assert_eq!(served(&state), ["/org/freedesktop/secrets/collection/c1"]);
    assert!(deleted_paths("c1", &Vec::new()).len() == 1);
    state.unlocked = false;
    assert!(served(&state).is_empty());
}

#[test]
fn a_missing_vault_file_reads_as_an_empty_vault() {
    let vault = Vault::new(b"/v".to_vec(), [7; 32]);
    assert_eq!(ok(vault.load_stored(None)), None);
    let file = ok(vault.save(b"text"));
    assert_eq!(ok(vault.load_stored(Some(&file))), Some(b"text".to_vec()));
    assert_eq!(
        problem(vault.load_stored(Some(&file[..23]))),
        "vault error: vault file corrupted"
    );
}

#[test]
fn nonces_and_vectors_are_fresh() {
    let vault = Vault::new(b"/v".to_vec(), [7; 32]);
    let (a, b) = (ok(vault.save(b"text")), ok(vault.save(b"text")));
    assert_ne!(a[..24], b[..24]);
    assert_eq!(ok(vault.seal_with(&a[..24], b"text")), a);
    let crypto = SessionCrypto::Dh(vec![1; 16]);
    let (a, b) = (ok(crypto.encrypt(b"text")), ok(crypto.encrypt(b"text")));
    assert_ne!(a.0, b.0);
    assert_eq!(crypto.encrypt_with(&a.0, b"text"), a);
}

#[test]
fn the_first_key_file_counts() {
    assert_eq!(ok(key_created(KeyOutcome::Written, false)), KeyPlan::Own);
    assert_eq!(
        ok(key_created(KeyOutcome::Exists, false)),
        KeyPlan::Other { create_vault: true }
    );
    assert_eq!(
        ok(key_created(KeyOutcome::Exists, true)),
        KeyPlan::Other { create_vault: false }
    );
    assert_eq!(
        problem(key_created(KeyOutcome::Failed("denied".to_owned()), false)),
        "I/O error: denied"
    );
}
