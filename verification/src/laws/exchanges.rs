//! Laws of sessions, object paths, login tokens and unlock requests.

#![allow(unused_imports)]

use vstd::arithmetic::power::pow;
use vstd::prelude::*;

use crate::objects::{collection_path, generate_id, item_of_path, item_path, prompt_path, session_path};
use crate::pam::{authenticate, first_buffer, next_buffer, write_token, open_runtime_dir, PamAnswer, PamStep};
use crate::request::RequestTracker;
use crate::secret::SecretError;
use crate::secret_service::{
    complete_request, deleted_paths, new_item_label, register_collections, unlock, Completed,
    CreateStep, PromptReport, ServedObject, UnlockKind, UnlockStep, request_collection,
};
use crate::secret_store::{collection_id, complete_unlock, SecretState, StoreError};
use crate::options::{OptionValue, Options};
use crate::transport::{
    derive_portal_secret, derive_session_key, exchange, SessionCrypto,
};
use crate::unlock::{
    complete_unlock_request, complete_unlock_requests, delivered, worker_step, Completion, Enqueued, PortalUnlockOutcome, UnlockQueue,
    WorkerStep,
};

verus! {

/// What one side of a session encrypts, the other decrypts; in a plain
/// session it travels as it is.
pub proof fn sessions_decrypt_what_they_encrypt(
    crypto: SessionCrypto,
    secret: &[u8],
    sent: Result<(Vec<u8>, Vec<u8>), SecretError>,
    parameters: &[u8],
    value: &[u8],
    r: Result<Vec<u8>, SecretError>,
)
    requires
        call_ensures(SessionCrypto::encrypt, (&crypto, secret), sent),
        sent is Ok,
        parameters@ == (sent->Ok_0).0@,
        value@ == (sent->Ok_0).1@,
        call_ensures(SessionCrypto::decrypt, (&crypto, parameters, value), r),
    ensures
        r is Ok,
        (r->Ok_0)@ == secret@,
        crypto is Plain ==> value@ == secret@ && parameters@.len() == 0,
        crypto matches SessionCrypto::Dh(key) ==> parameters@.len() == 16 && value@
            == crate::transport::aes_cbc_encrypted(key@, parameters@, secret@),
{
}

/// What is decrypted is what the cipher gives under the session's key and a
/// vector of 16 bytes, and nothing else is.
pub proof fn decryption_is_the_ciphers(
    crypto: SessionCrypto,
    parameters: &[u8],
    value: &[u8],
    r: Result<Vec<u8>, SecretError>,
)
    requires
        call_ensures(SessionCrypto::decrypt, (&crypto, parameters, value), r),
    ensures
        crypto is Plain ==> r is Ok && (r->Ok_0)@ == value@,
        crypto matches SessionCrypto::Dh(key) ==> {
            let plain = crate::transport::aes_cbc_decrypted(key@, parameters@, value@);
            &&& r is Ok <==> parameters@.len() == 16 && plain is Some
            &&& r is Ok ==> (r->Ok_0)@ == plain->0
        },
{
}

/// Both sides of an exchange come to the same key: the client that raised
/// the generator to its exponent gets, from the server's answer and that
/// exponent, the key that the server derived.
pub proof fn both_sides_derive_the_same_key(
    client: &[u8],
    exponent: &[u8],
    r: Result<(Vec<u8>, Vec<u8>), SecretError>,
    x: nat,
)
    requires
        call_ensures(exchange, (client, exponent), r),
        r is Ok,
        crate::transport::number(client@) == pow(2, x) % (crate::transport::prime() as int),
    ensures
        (r->Ok_0).0@.len() == 128,
        (r->Ok_0).1@.len() == 16,
        1 < crate::transport::number(client@) < crate::transport::prime() - 1,
        ({
            let answer = crate::transport::number((r->Ok_0).0@);
            let shared = (pow(answer as int, x) % (crate::transport::prime() as int)) as nat;
            (r->Ok_0).1@ == crate::transport::hkdf_sha256(
                crate::transport::fixed_width(shared, 128),
                Seq::<u8>::empty(),
                16,
            )
        }),
{
    let e = crate::transport::number(exponent@);
    let public = crate::transport::group_power(2, e);
    crate::transport::both_sides_agree(x, e);
    widths_are_fixed(public, 128);
    crate::transport::powers_are_small(2, e);
    crate::transport::public_keys_round_trip(public, 128);
    assert(crate::transport::number((r->Ok_0).0@) == public);
    assert(crate::transport::group_power(public, x) == crate::transport::group_power(
        crate::transport::number(client@),
        e,
    ));
}

proof fn widths_are_fixed(n: nat, width: nat)
    ensures
        crate::transport::fixed_width(n, width).len() == width,
    decreases width,
{
    if width > 0 {
        widths_are_fixed(n / 256, (width - 1) as nat);
    }
}

/// A key of a degenerate kind is refused, every other is answered.
pub proof fn degenerate_keys_are_refused(
    client: &[u8],
    exponent: &[u8],
    r: Result<(Vec<u8>, Vec<u8>), SecretError>,
)
    requires
        call_ensures(exchange, (client, exponent), r),
    ensures
        r is Ok <==> 1 < crate::transport::number(client@) < crate::transport::prime() - 1,
        r is Err ==> r->Err_0 is Crypto,
{
}

/// An item stands below its collection, a collection below the service; and
/// the path of an item names its collection and the item.
pub proof fn item_paths_name_their_item(
    collection: &str,
    item: &str,
    below: String,
    path: String,
    text: &str,
    named: Option<(String, String)>,
)
    requires
        call_ensures(collection_path, (collection,), below),
        call_ensures(item_path, (collection, item), path),
        text@ == path@,
        call_ensures(item_of_path, (text,), named),
        !collection@.contains('/'),
        !item@.contains('/'),
    ensures
        below@ == "/org/freedesktop/secrets"@ + "/collection/"@ + collection@,
        path@ == below@ + "/"@ + item@,
        named is Some,
        (named->0).0@ == collection@,
        (named->0).1@ == item@,
{
    crate::objects::item_paths_round_trip(collection@, item@);
}

/// A new collection is named by its alias, or by fresh letters where it has
/// none.
pub proof fn collections_are_named_by_their_alias(alias: &str, fresh: &str, id: String)
    requires
        call_ensures(collection_id, (alias, fresh), id),
    ensures
        alias@.len() > 0 ==> id@ == alias@,
        alias@.len() == 0 ==> id@ == "c"@ + fresh@,
{
}

/// A locked vault is unlocked by a prompt, an open one at once; and the
/// objects are reported exactly if it was unlocked.
pub proof fn locked_vaults_are_prompted_for(
    state: SecretState,
    objects: Vec<String>,
    step: UnlockStep,
    unlocked: bool,
    r: (bool, Vec<String>),
)
    requires
        call_ensures(unlock, (&state, objects), step),
        call_ensures(complete_unlock, (objects, unlocked), r),
    ensures
        state.unlocked <==> step is Unlocked,
        step matches UnlockStep::Unlocked(now) ==> now@ == objects@,
        step matches UnlockStep::Prompt(kind) ==> kind == UnlockKind::Unlock(objects),
        r.0 == !unlocked,
        unlocked ==> r.1@ == objects@,
        !unlocked ==> r.1@.len() == 0,
{
}

/// A collection that was asked for while the vault was locked is made once
/// it is unlocked, with its label, and reported by its path; nothing is made
/// where the prompt was dismissed, and no other collection changes.
pub proof fn asked_for_collections_are_made(
    before: SecretState,
    after: SecretState,
    alias: String,
    label: String,
    unlocked: bool,
    fresh: &str,
    done: Completed,
    c: Seq<char>,
)
    requires
        exists|s: &mut SecretState|
            #[trigger] call_ensures(
                complete_request,
                (s, UnlockKind::CreateCollection { alias, label }, unlocked, fresh),
                done,
            ) && *s == before && *final(s) == after,
        alias@.len() > 0,
        before.unlocked,
    ensures
        unlocked ==> after.collections@.dom().contains(alias@),
        unlocked && !before.collections@.dom().contains(alias@)
            ==> after.collections@[alias@].label@ == label@ && !after.collections@[alias@].deleted
            && after.collections@[alias@].items@.dom() =~= Set::<Seq<char>>::empty(),
        !unlocked ==> after.collections@.dom().contains(c) == before.collections@.dom().contains(c),
        c != alias@ ==> after.collections@.dom().contains(c) == before.collections@.dom().contains(
            c,
        ),
        done.dismissed ==> done.report is Path && done.report->Path_0@ == "/"@ && !done.register,
        !done.dismissed ==> unlocked && done.register && done.report is Path
            && done.report->Path_0@ == "/org/freedesktop/secrets"@ + "/collection/"@ + alias@,
        done.keep == unlocked,
{
    assert(before.content().dom().contains(alias@) == before.collections@.dom().contains(alias@));
    assert(after.content().dom().contains(alias@) == after.collections@.dom().contains(alias@));
    assert(before.content().dom().contains(c) == before.collections@.dom().contains(c));
    assert(after.content().dom().contains(c) == after.collections@.dom().contains(c));
    if unlocked && !before.collections@.dom().contains(alias@) {
        let made = after.content()[alias@];
        assert(made == crate::secret_store::fresh_collection(label@));
        assert(made.items.dom() =~= after.collections@[alias@].items@.dom());
    }
}

/// The labels of new items and collections are what was asked for, else a
/// default.
pub proof fn new_items_bear_their_label(properties: Options, label: String)
    requires
        call_ensures(new_item_label, (&properties,), label),
    ensures
        ({
            let key = "org.freedesktop.Secret.Item.Label"@;
            let given = properties@.dom().contains(key) && properties@[key] is Text;
            &&& given ==> label@ == properties@[key]->Text_0@
            &&& !given ==> label@ == "New Item"@
        }),
{
}

/// A locked store serves nothing. An open one serves every collection and
/// item that is not deleted, at its path, and the login collection also at
/// the alias.
pub proof fn open_stores_serve_what_they_hold(
    state: SecretState,
    list: Vec<ServedObject>,
    n: int,
    c: Seq<char>,
    i: Seq<char>,
)
    requires
        call_ensures(register_collections, (&state,), list),
    ensures
        !state.unlocked ==> list@.len() == 0,
        0 <= n < list@.len() ==> {
            let at = list@[n].collection@;
            &&& state.collections@.dom().contains(at)
            &&& !state.collections@[at].deleted
            &&& list@[n].item is None ==> list@[n].path@ == "/org/freedesktop/secrets"@
                + "/collection/"@ + at || (at == "login"@ && list@[n].path@
                == "/org/freedesktop/secrets/aliases/default"@)
            &&& list@[n].item matches Some(item) ==> state.collections@[at].items@.dom().contains(
                item@,
            ) && !state.collections@[at].items@[item@].deleted && list@[n].path@
                == "/org/freedesktop/secrets"@ + "/collection/"@ + at + "/"@ + item@
        },
        state.unlocked && state.collections@.dom().contains(c) && !state.collections@[c].deleted
            ==> exists|m: int|
            #![trigger list@[m]]
            0 <= m < list@.len() && list@[m].collection@ == c && list@[m].item is None
                && list@[m].path@ == "/org/freedesktop/secrets"@ + "/collection/"@ + c,
        state.unlocked && state.collections@.dom().contains(c) && !state.collections@[c].deleted
            && state.collections@[c].items@.dom().contains(i)
            && !state.collections@[c].items@[i].deleted ==> exists|m: int|
            #![trigger list@[m]]
            0 <= m < list@.len() && list@[m].collection@ == c && list@[m].item is Some
                && list@[m].item->0@ == i,
{
    if list@.len() > 0 {
        assert(crate::secret_service::serves(list@, list@[0]@));
    }
    if 0 <= n < list@.len() {
        assert(crate::secret_service::serves(list@, list@[n]@));
        assert(crate::secret_service::belongs(state.content(), list@[n]@));
    }
    let whole = crate::secret_service::Place {
        path: crate::objects::collection_path_of(c),
        collection: c,
        item: None,
    };
    let one = crate::secret_service::Place {
        path: crate::objects::item_path_of(c, i),
        collection: c,
        item: Some(i),
    };
    if state.unlocked && state.collections@.dom().contains(c) && !state.collections@[c].deleted {
        assert(crate::secret_service::belongs(state.content(), whole));
        assert(crate::secret_service::serves(list@, whole));
        let m = choose|m: int| 0 <= m < list@.len() && (#[trigger] list@[m])@ == whole;
        assert(list@[m]@ == whole);
        if state.collections@[c].items@.dom().contains(i)
            && !state.collections@[c].items@[i].deleted {
            assert(crate::secret_service::belongs(state.content(), one));
            assert(crate::secret_service::serves(list@, one));
            let k = choose|k: int| 0 <= k < list@.len() && (#[trigger] list@[k])@ == one;
            assert(list@[k]@ == one);
        }
    }
}

/// A deleted collection leaves the bus with all its items, and the login
/// collection with its alias.
pub proof fn deleted_collections_leave_with_their_items(
    collection: &str,
    ids: Vec<String>,
    paths: Vec<String>,
    n: int,
)
    requires
        call_ensures(deleted_paths, (collection, &ids), paths),
        0 <= n < ids@.len(),
    ensures
        paths@.len() == ids@.len() + (if collection@ == "login"@ {
            2int
        } else {
            1int
        }),
        paths@[n]@ == "/org/freedesktop/secrets"@ + "/collection/"@ + collection@ + "/"@
            + ids@[n]@,
        paths@[ids@.len() as int]@ == "/org/freedesktop/secrets"@ + "/collection/"@ + collection@,
        collection@ == "login"@ ==> paths@.last()@ == "/org/freedesktop/secrets/aliases/default"@,
{
    let views = crate::secret_service::id_views(paths@);
    let names = crate::secret_service::id_views(ids@);
    assert(views.len() == paths@.len());
    assert(names.len() == ids@.len());
    assert(names[n] == ids@[n]@);
    assert(views[n] == paths@[n]@);
    assert(views[ids@.len() as int] == paths@[ids@.len() as int]@);
    assert(views.last() == paths@.last()@);
}

/// A request for the password waits in turn; up to 64 wait, the first of
/// them starts the work, and one too many is handed back.
pub proof fn unlock_requests_wait_in_turn<T>(
    before: UnlockQueue<T>,
    after: UnlockQueue<T>,
    request: T,
    r: Enqueued<T>,
)
    requires
        exists|s: &mut UnlockQueue<T>|
            #[trigger] call_ensures(UnlockQueue::<T>::enqueue_unlock_request, (s, request), r)
                && *s == before && *final(s) == after,
    ensures
        before.pending@.len() < 64 ==> after.pending@ == before.pending@.push(request)
            && after.worker_active && !(r is Rejected),
        before.pending@.len() >= 64 ==> after.pending@ == before.pending@ && r is Rejected
            && r->Rejected_0 == request,
        r is StartWorker <==> before.pending@.len() < 64 && !before.worker_active,
{
}

/// A batch is everybody who waits, in turn, and nobody waits any more; the
/// work ends with an empty batch.
pub proof fn batches_take_everybody<T>(
    before: UnlockQueue<T>,
    after: UnlockQueue<T>,
    batch: Vec<T>,
    unlocked: bool,
    count: usize,
    step: WorkerStep,
)
    requires
        exists|s: &mut UnlockQueue<T>|
            #[trigger] call_ensures(UnlockQueue::<T>::take_batch, (s,), batch) && *s == before
                && *final(s) == after,
        call_ensures(worker_step, (count, unlocked), step),
        count == batch@.len(),
    ensures
        batch@ == before.pending@,
        after.pending@.len() == 0,
        before.worker_active ==> (after.worker_active <==> batch@.len() > 0),
        step is Stop <==> before.pending@.len() == 0,
        step is Complete <==> before.pending@.len() > 0 && unlocked,
        step is Prompt <==> before.pending@.len() > 0 && !unlocked,
{
}

/// Every caller of a batch is answered: with the secret if the vault was
/// unlocked and the caller is still there, else that it was dismissed.
pub proof fn every_caller_is_answered(
    tracker: RequestTracker,
    paths: Vec<String>,
    unlocked: bool,
    completions: Vec<Completion>,
    i: int,
)
    requires
        call_ensures(complete_unlock_requests, (&tracker, &paths, unlocked), completions),
        0 <= i < paths@.len(),
    ensures
        completions@.len() == paths@.len(),
        completions@[i] is Deliver <==> unlocked && !tracker@.contains(paths@[i]@),
        !(completions@[i] is Deliver) ==> completions@[i] == Completion::Answer(
            PortalUnlockOutcome::Dismissed,
        ),
{
}

/// A login writes its token for a named user with a password, and else goes
/// on without.
pub proof fn logins_with_a_password_write_a_token(
    user: Option<&[u8]>,
    password: Option<&[u8]>,
    step: PamStep,
)
    requires
        call_ensures(authenticate, (user, password), step),
    ensures
        step is WriteToken <==> user is Some && password is Some && password->0@.len() > 0
            && !user->0@.contains(0),
        user is None ==> step == PamStep::Answer(PamAnswer::UserUnknown),
        user is Some && (password is None || password->0@.len() == 0) ==> step == PamStep::Answer(
            PamAnswer::Success,
        ),
{
}

/// The runtime directory is used only if it is a directory of the user's own
/// that nobody else can enter.
pub proof fn runtime_directories_are_private(
    mode: u32,
    owner: u32,
    uid: u32,
    r: Result<(), String>,
)
    requires
        call_ensures(open_runtime_dir, (mode, owner, uid), r),
    ensures
        r is Ok <==> mode & 0xf000 == 0x4000 && owner == uid && mode & 0x3f == 0,
{
}

/// A look-up that did not fit is tried with twice the room, up to a MiB.
pub proof fn lookups_get_twice_the_room(size: usize, next: Option<usize>)
    requires
        call_ensures(next_buffer, (size,), next),
    ensures
        next is None <==> size >= 1024 * 1024,
        size <= 512 * 1024 ==> next is Some && next->0 == 2 * size,
        512 * 1024 < size < 1024 * 1024 ==> next == Some(1048576usize),
{
}

/// A path of six elements names an item if its fourth is `collection`: the
/// last two are the collection and the item. Else it names none.
pub proof fn only_paths_below_a_collection_name_an_item(
    path: &str,
    named: Option<(String, String)>,
    e: Seq<Seq<char>>,
)
    requires
        call_ensures(item_of_path, (path,), named),
        e.len() == 6,
        forall|k: int| 0 <= k < 6 ==> !(#[trigger] e[k]).contains('/'),
        ({
            let s = seq!['/'];
            path@ == s + e[0] + s + e[1] + s + e[2] + s + e[3] + s + e[4] + s + e[5]
        }),
    ensures
        named is Some <==> e[3] == "collection"@,
        named is Some ==> (named->0).0@ == e[4] && (named->0).1@ == e[5],
{
    crate::objects::elements_stand_behind_the_slashes(e);
    let list = seq![Seq::<char>::empty()] + e;
    assert(list.len() == 7 && list[4] == e[3] && list[5] == e[4] && list[6] == e[5]);
}

/// Asking for a collection: a locked vault is prompted for, with the alias
/// and the label; in an open one the collection is made, unless it is there,
/// and answered by its path.
pub proof fn collections_are_made_or_prompted_for(
    before: SecretState,
    after: SecretState,
    properties: Options,
    alias: &str,
    fresh: &str,
    r: Result<CreateStep, StoreError>,
    c: Seq<char>,
)
    requires
        exists|s: &mut SecretState|
            #[trigger] call_ensures(request_collection, (s, &properties, alias, fresh), r) && *s
                == before && *final(s) == after,
        alias@.len() > 0,
    ensures
        ({
            let key = "org.freedesktop.Secret.Collection.Label"@;
            let given = properties@.dom().contains(key) && properties@[key] is Text;
            let label = if given {
                properties@[key]->Text_0@
            } else {
                "New Collection"@
            };
            let path = "/org/freedesktop/secrets"@ + "/collection/"@ + alias@;
            &&& !before.unlocked ==> r is Ok && r->Ok_0 is Prompt && (
            r->Ok_0->Prompt_0 matches UnlockKind::CreateCollection { alias: a, label: l } && a@
                == alias@ && l@ == label) && (after.collections@.dom().contains(c)
                == before.collections@.dom().contains(c))
            &&& before.unlocked ==> after.collections@.dom().contains(alias@) && (c != alias@
                ==> after.collections@.dom().contains(c) == before.collections@.dom().contains(c))
            &&& before.unlocked && !before.collections@.dom().contains(alias@)
                ==> after.collections@[alias@].label@ == label
            &&& before.unlocked && r is Ok ==> r->Ok_0 is Created && r->Ok_0->id@ == alias@
                && r->Ok_0->path@ == path && r->Ok_0->new == !before.collections@.dom().contains(
                alias@,
            )
            &&& before.unlocked && crate::objects::valid_object_path(path) ==> r is Ok
        }),
{
    assert(before.content().dom() =~= before.collections@.dom());
    assert(after.content().dom() =~= after.collections@.dom());
    if before.unlocked && !before.collections@.dom().contains(alias@) {
        assert(after.content()[alias@].label == after.collections@[alias@].label@);
    }
}

/// What the prompt that an unlock waited for reports.
pub proof fn prompted_unlocks_report_their_objects(
    before: SecretState,
    after: SecretState,
    objects: Vec<String>,
    unlocked: bool,
    fresh: &str,
    done: Completed,
    c: Seq<char>,
)
    requires
        exists|s: &mut SecretState|
            #[trigger] call_ensures(
                complete_request,
                (s, UnlockKind::Unlock(objects), unlocked, fresh),
                done,
            ) && *s == before && *final(s) == after,
    ensures
        done.dismissed == !unlocked,
        done.report is Objects,
        unlocked ==> done.report->Objects_0@ == objects@,
        !unlocked ==> done.report->Objects_0@.len() == 0,
        !done.register && !done.keep,
        after.collections@.dom().contains(c) == before.collections@.dom().contains(c),
{
    assert(before.content().dom() =~= before.collections@.dom());
    assert(after.content().dom() =~= after.collections@.dom());
}

/// The secret is delivered only for an open request and an open vault.
pub proof fn secrets_are_delivered_to_open_requests(
    tracker: RequestTracker,
    path: &str,
    unlocked: bool,
    completion: Completion,
    written: Option<bool>,
    outcome: PortalUnlockOutcome,
)
    requires
        call_ensures(complete_unlock_request, (&tracker, path, unlocked), completion),
        call_ensures(delivered, (written,), outcome),
    ensures
        completion is Deliver <==> unlocked && !tracker@.contains(path@),
        completion is Answer ==> completion->Answer_0 == PortalUnlockOutcome::Dismissed,
        outcome == PortalUnlockOutcome::Delivered <==> written == Some(true),
        written != Some(true) ==> outcome == PortalUnlockOutcome::Failed,
{
}

/// A worker that fails hands back every waiting request and leaves none.
pub proof fn failed_workers_hand_back_their_requests<T>(
    before: UnlockQueue<T>,
    after: UnlockQueue<T>,
    batch: Vec<T>,
)
    requires
        exists|s: &mut UnlockQueue<T>|
            #[trigger] call_ensures(UnlockQueue::<T>::worker_failed, (s,), batch) && *s == before
                && *final(s) == after,
    ensures
        batch@ == before.pending@,
        after.pending@.len() == 0,
        !after.worker_active,
{
}

/// What travels under a vector is read back by the session that sent it, and
/// a plain session sends the secret as it is.
pub proof fn sent_secrets_are_read_back(
    session: SessionCrypto,
    iv: &[u8],
    secret: &[u8],
    sent: (Vec<u8>, Vec<u8>),
    parameters: &[u8],
    value: &[u8],
    r: Result<Vec<u8>, SecretError>,
)
    requires
        call_ensures(SessionCrypto::encrypt_with, (&session, iv, secret), sent),
        parameters@ == sent.0@,
        value@ == sent.1@,
        call_ensures(SessionCrypto::decrypt, (&session, parameters, value), r),
        iv@.len() == 16,
    ensures
        r is Ok && r->Ok_0@ == secret@,
        session is Plain ==> sent.0@.len() == 0 && sent.1@ == secret@,
        session is Dh ==> sent.0@ == iv@,
{
}

/// The portal's secret and a session's key are derived from the whole input
/// and have their fixed lengths.
pub proof fn derived_keys_come_from_the_whole_input(
    master: &[u8],
    secret: Vec<u8>,
    shared: &[u8],
    key: Vec<u8>,
)
    requires
        call_ensures(derive_portal_secret, (master,), secret),
        call_ensures(derive_session_key, (shared,), key),
    ensures
        secret@.len() == 32,
        secret@ == crate::transport::hkdf_sha256(
            master@,
            vstd::utf8::encode_utf8("aegis.portal.Secret/v1"@),
            32,
        ),
        key@.len() == 16,
        key@ == crate::transport::hkdf_sha256(shared@, Seq::<u8>::empty(), 16),
{
}

/// Sessions and prompts have paths of their own below the service, one for
/// each id.
pub proof fn sessions_and_prompts_have_their_own_paths(
    id: &str,
    other: &str,
    session: String,
    prompt: String,
    session_too: String,
    prompt_too: String,
)
    requires
        call_ensures(session_path, (id,), session),
        call_ensures(prompt_path, (id,), prompt),
        call_ensures(session_path, (other,), session_too),
        call_ensures(prompt_path, (other,), prompt_too),
    ensures
        "/org/freedesktop/secrets/session/s"@ + id@ == session@,
        "/org/freedesktop/secrets/prompt/p"@ + id@ == prompt@,
        session@ == session_too@ ==> id@ == other@,
        prompt@ == prompt_too@ ==> id@ == other@,
{
    reveal_strlit("/org/freedesktop/secrets");
    reveal_strlit("/session/s");
    reveal_strlit("/prompt/p");
    reveal_strlit("/org/freedesktop/secrets/session/s");
    reveal_strlit("/org/freedesktop/secrets/prompt/p");
    let s = "/org/freedesktop/secrets"@ + "/session/s"@;
    let p = "/org/freedesktop/secrets"@ + "/prompt/p"@;
    assert("/org/freedesktop/secrets/session/s"@ =~= s);
    assert("/org/freedesktop/secrets/prompt/p"@ =~= p);
    assert((s + id@).skip(s.len() as int) =~= id@);
    assert((s + other@).skip(s.len() as int) =~= other@);
    assert((p + id@).skip(p.len() as int) =~= id@);
    assert((p + other@).skip(p.len() as int) =~= other@);
}

/// A token that was written answers success, one that could not be written a
/// session error, and no account that the user is unknown.
pub proof fn tokens_are_answered_as_written(written: Option<bool>, answer: PamAnswer)
    requires
        call_ensures(write_token, (written,), answer),
    ensures
        answer == PamAnswer::Success <==> written == Some(true),
        answer == PamAnswer::SessionError <==> written == Some(false),
        answer == PamAnswer::UserUnknown <==> written is None,
{
}

/// The first account buffer is the suggested one, kept within its bounds.
pub proof fn account_buffers_start_within_bounds(suggested: i64, size: usize)
    requires
        call_ensures(first_buffer, (suggested,), size),
    ensures
        1024 <= size <= 1048576,
        1024 <= suggested <= 1048576 ==> size == suggested,
        0 < suggested < 1024 ==> size == 1024,
        suggested > 1048576 ==> size == 1048576,
{
}

/// A collection without an id has no valid path, nor has one whose id ends
/// in a slash or holds anything but letters, digits, underscores and slashes.
pub proof fn odd_ids_have_no_path(id: &str, path: String, k: int)
    requires
        call_ensures(collection_path, (id,), path),
        ({
            ||| id@.len() == 0
            ||| id@.last() == '/'
            ||| 0 <= k < id@.len() && id@[k] != '/' && id@[k] != '_' && !('a' <= id@[k] <= 'z')
                && !('A' <= id@[k] <= 'Z') && !('0' <= id@[k] <= '9')
        }),
    ensures
        !crate::objects::valid_object_path(path@),
{
    reveal_strlit("/collection/");
    let front = crate::objects::SERVICE_PATH@ + "/collection/"@;
    assert(front.len() > 1);
    assert(front.last() == '/');
    if id@.len() == 0 {
        assert(path@ =~= front);
    } else if id@.last() == '/' {
        assert(path@.last() == '/');
    } else {
        assert(path@[front.len() + k] == id@[k]);
    }
}

} // verus!
