//! Laws of the store of secrets.

#![allow(unused_imports)]

use vstd::prelude::*;

use crate::secret_store::{
    ItemRef, ItemRt, NewItem, SecretState, SentSecret, StoreError,
};
use crate::textmap::TextMap;
use crate::transport::SessionCrypto;
use crate::vault::VaultData;

verus! {

/// A search names an item exactly when the item and its collection are
/// there and not deleted, the item has an object path, and it has every
/// wanted attribute with the wanted value.
pub proof fn searches_name_the_items_with_every_wanted_attribute(
    state: SecretState,
    wanted: TextMap<String>,
    list: Vec<ItemRef>,
    c: Seq<char>,
    i: Seq<char>,
)
    requires
        call_ensures(SecretState::search_items, (&state, &wanted), list),
    ensures
        (exists|n: int|
            0 <= n < list@.len() && (#[trigger] list@[n]).collection@ == c && list@[n].item@ == i)
            <==> {
            &&& state.collections@.dom().contains(c)
            &&& !state.collections@[c].deleted
            &&& state.collections@[c].items@.dom().contains(i)
            &&& !state.collections@[c].items@[i].deleted
            &&& crate::objects::valid_object_path(crate::objects::item_path_of(c, i))
            &&& forall|k: Seq<char>| #[trigger]
                wanted@.dom().contains(k) ==> {
                    let attributes = state.collections@[c].items@[i].attributes@;
                    attributes.dom().contains(k) && attributes[k]@ == wanted@[k]@
                }
        },
{
    item_is_seen(state, c, i);
    all_are_wanted(state.collections@[c].items@[i].attributes@, wanted@);
    assert(crate::secret_store::names_item(list@, c, i) <==> crate::secret_store::found(
        state.content(),
        c,
        i,
        crate::secret_store::texts(wanted@),
    ));
}

/// A search in one collection names the items of that collection alone, by
/// the same rule; it is not asked whether the collection is deleted.
pub proof fn collection_searches_name_the_items_with_every_wanted_attribute(
    state: SecretState,
    collection: &str,
    wanted: TextMap<String>,
    list: Vec<ItemRef>,
    c: Seq<char>,
    i: Seq<char>,
)
    requires
        call_ensures(SecretState::search_collection, (&state, collection, &wanted), list),
    ensures
        (exists|n: int|
            0 <= n < list@.len() && (#[trigger] list@[n]).collection@ == c && list@[n].item@ == i)
            <==> {
            &&& c == collection@
            &&& state.collections@.dom().contains(c)
            &&& state.collections@[c].items@.dom().contains(i)
            &&& !state.collections@[c].items@[i].deleted
            &&& crate::objects::valid_object_path(crate::objects::item_path_of(c, i))
            &&& forall|k: Seq<char>| #[trigger]
                wanted@.dom().contains(k) ==> {
                    let attributes = state.collections@[c].items@[i].attributes@;
                    attributes.dom().contains(k) && attributes[k]@ == wanted@[k]@
                }
        },
{
    item_is_seen(state, c, i);
    all_are_wanted(state.collections@[c].items@[i].attributes@, wanted@);
    assert(crate::secret_store::names_item(list@, c, i) <==> c == collection@
        && state.content().dom().contains(c) && crate::secret_store::hit(
        c,
        state.content()[c].items,
        i,
        crate::secret_store::texts(wanted@),
    ));
}

/// Narrowing a search only takes items away: whoever asks for more
/// attributes is named no item that the shorter question did not name.
pub proof fn longer_questions_name_fewer_items(
    state: SecretState,
    wanted: TextMap<String>,
    more: TextMap<String>,
    list: Vec<ItemRef>,
    fewer: Vec<ItemRef>,
    n: int,
)
    requires
        call_ensures(SecretState::search_items, (&state, &wanted), list),
        call_ensures(SecretState::search_items, (&state, &more), fewer),
        forall|k: Seq<char>| #[trigger]
            wanted@.dom().contains(k) ==> more@.dom().contains(k) && more@[k]@ == wanted@[k]@,
        0 <= n < fewer@.len(),
    ensures
        exists|m: int|
            0 <= m < list@.len() && (#[trigger] list@[m]).collection@ == fewer@[n].collection@
                && list@[m].item@ == fewer@[n].item@,
{
    let c = fewer@[n].collection@;
    let i = fewer@[n].item@;
    searches_name_the_items_with_every_wanted_attribute(state, more, fewer, c, i);
    searches_name_the_items_with_every_wanted_attribute(state, wanted, list, c, i);
}

/// The two items hold the same label, attributes and secret, and both are
/// deleted or neither is.
pub open spec fn same_item(a: ItemRt, b: ItemRt) -> bool {
    &&& a.label@ == b.label@
    &&& a.secret@ == b.secret@
    &&& a.deleted == b.deleted
    &&& same_texts(a.attributes@, b.attributes@)
}

/// The two maps hold the same texts under the same keys.
pub open spec fn same_texts(a: Map<Seq<char>, String>, b: Map<Seq<char>, String>) -> bool {
    &&& forall|k: Seq<char>| #[trigger] a.dom().contains(k) <==> #[trigger] b.dom().contains(k)
    &&& forall|k: Seq<char>| #[trigger] a.dom().contains(k) ==> a[k]@ == b[k]@
}

/// Nothing but this item of this collection differs between two stores.
pub open spec fn same_elsewhere(
    before: SecretState,
    after: SecretState,
    collection: Seq<char>,
    item: Seq<char>,
) -> bool {
    forall|c: Seq<char>, i: Seq<char>|
        (c, i) != (collection, item) ==> #[trigger] same_at(before, after, c, i)
}

/// The stores agree on a collection and on one of its items.
pub open spec fn same_at(
    before: SecretState,
    after: SecretState,
    c: Seq<char>,
    i: Seq<char>,
) -> bool {
    let old_one = before.collections@[c];
    let new_one = after.collections@[c];
    &&& before.collections@.dom().contains(c) == after.collections@.dom().contains(c)
    &&& before.collections@.dom().contains(c) ==> {
        &&& old_one.label@ == new_one.label@
        &&& old_one.deleted == new_one.deleted
        &&& old_one.items@.dom().contains(i) == new_one.items@.dom().contains(i)
        &&& old_one.items@.dom().contains(i) ==> same_item(old_one.items@[i], new_one.items@[i])
    }
}

/// A deleted item is marked as deleted, keeps what else it holds, and
/// nothing else in the store changes; and no search names it again.
pub proof fn deleting_marks_one_item(
    before: SecretState,
    after: SecretState,
    collection: &str,
    item: &str,
    r: Result<(), StoreError>,
    wanted: TextMap<String>,
    list: Vec<ItemRef>,
    n: int,
)
    requires
        exists|s: &mut SecretState|
            #[trigger] call_ensures(SecretState::delete_item, (s, collection, item), r) && *s
                == before && *final(s) == after,
        call_ensures(SecretState::search_items, (&after, &wanted), list),
        0 <= n < list@.len(),
    ensures
        r is Ok <==> before.unlocked,
        r is Err ==> r->Err_0 is IsLocked && same_at(before, after, collection@, item@),
        same_elsewhere(before, after, collection@, item@),
        r is Ok && before.collections@.dom().contains(collection@)
            && before.collections@[collection@].items@.dom().contains(item@) ==> {
            let gone = after.collections@[collection@].items@[item@];
            &&& after.collections@.dom().contains(collection@)
            &&& after.collections@[collection@].items@.dom().contains(item@)
            &&& gone.deleted
            &&& gone.secret@ == before.collections@[collection@].items@[item@].secret@
            &&& !(list@[n].collection@ == collection@ && list@[n].item@ == item@)
        },
{
    assert forall|c: Seq<char>, i: Seq<char>|
        (c, i) != (collection@, item@) || r is Err implies #[trigger] same_at(
        before,
        after,
        c,
        i,
    ) by {
        stores_agree(before, after, c, i);
    }
    item_is_seen(before, collection@, item@);
    item_is_seen(after, collection@, item@);
    searches_name_the_items_with_every_wanted_attribute(
        after,
        wanted,
        list,
        list@[n].collection@,
        list@[n].item@,
    );
}

/// A new item holds the label, the attributes and the secret that it was
/// created with. An item that it replaces had exactly the same attributes
/// and was not deleted, and is reported and marked as deleted; without
/// replacing, and for every other item, nothing changes.
pub proof fn created_items_hold_what_they_were_created_with(
    before: SecretState,
    after: SecretState,
    collection: &str,
    id: &str,
    new: NewItem,
    session: &str,
    sent: SentSecret,
    replace: bool,
    r: Result<Vec<String>, StoreError>,
    other: Seq<char>,
)
    requires
        exists|s: &mut SecretState|
            #[trigger] call_ensures(
                SecretState::create_item,
                (s, collection, id, new, session, &sent, replace),
                r,
            ) && *s == before && *final(s) == after,
        r is Ok,
    ensures
        before.unlocked,
        before.sessions@.dom().contains(session@),
        before.collections@.dom().contains(collection@),
        after.collections@.dom().contains(collection@),
        after.collections@[collection@].label@ == before.collections@[collection@].label@,
        after.collections@[collection@].deleted == before.collections@[collection@].deleted,
        ({
            let items = after.collections@[collection@].items@;
            &&& items.dom().contains(id@)
            &&& items[id@].label@ == new.label@
            &&& same_texts(items[id@].attributes@, new.attributes@)
            &&& !items[id@].deleted
            &&& match before.sessions@[session@] {
                SessionCrypto::Plain => items[id@].secret@ == sent.value@,
                SessionCrypto::Dh(key) => crate::transport::aes_cbc_decrypted(
                    key@,
                    sent.parameters@,
                    sent.value@,
                ) == Some(items[id@].secret@),
            }
        }),
        ({
            let old_items = before.collections@[collection@].items@;
            let items = after.collections@[collection@].items@;
            let replaced = replace && old_items.dom().contains(other) && !old_items[other].deleted
                && same_texts(old_items[other].attributes@, new.attributes@);
            &&& (exists|n: int| 0 <= n < (r->Ok_0)@.len() && (#[trigger] (r->Ok_0)@[n])@ == other) == replaced
            &&& other != id@ ==> items.dom().contains(other) == old_items.dom().contains(other)
            &&& other != id@ && items.dom().contains(other) ==> {
                &&& items[other].label@ == old_items[other].label@
                &&& items[other].secret@ == old_items[other].secret@
                &&& same_texts(items[other].attributes@, old_items[other].attributes@)
                &&& items[other].deleted == (old_items[other].deleted || replaced)
            }
        }),
        forall|c: Seq<char>, i: Seq<char>|
            c != collection@ ==> #[trigger] same_at(before, after, c, i),
{
    item_is_seen(before, collection@, other);
    item_is_seen(before, collection@, id@);
    item_is_seen(after, collection@, id@);
    item_is_seen(after, collection@, other);
    let old_items = before.collections@[collection@].items@;
    let items = after.collections@[collection@].items@;
    texts_agree(items[id@].attributes@, new.attributes@);
    texts_agree(old_items[other].attributes@, new.attributes@);
    texts_agree(items[other].attributes@, old_items[other].attributes@);
    assert(crate::secret_store::listed((r->Ok_0)@, other) <==> replace
        && crate::secret_store::replaced_by(
        before.content()[collection@].items,
        crate::secret_store::texts(new.attributes@),
    ).contains(other));
    assert forall|c: Seq<char>, i: Seq<char>| c != collection@ implies #[trigger] same_at(
        before,
        after,
        c,
        i,
    ) by {
        stores_agree(before, after, c, i);
    }
}

/// The secret of an item is the one that was last set, whatever way it
/// travelled, and nothing else changes.
pub proof fn set_secrets_are_held(
    before: SecretState,
    after: SecretState,
    collection: &str,
    item: &str,
    session: &str,
    sent: SentSecret,
)
    requires
        exists|s: &mut SecretState|
            #[trigger] call_ensures(
                SecretState::set_secret,
                (s, collection, item, session, &sent),
                Ok::<(), StoreError>(()),
            ) && *s == before && *final(s) == after,
    ensures
        before.unlocked,
        before.sessions@.dom().contains(session@),
        before.collections@.dom().contains(collection@),
        before.collections@[collection@].items@.dom().contains(item@),
        after.collections@[collection@].items@.dom().contains(item@),
        ({
            let held = after.collections@[collection@].items@[item@];
            let had = before.collections@[collection@].items@[item@];
            &&& held.label@ == had.label@
            &&& held.deleted == had.deleted
            &&& same_texts(held.attributes@, had.attributes@)
            &&& match before.sessions@[session@] {
                SessionCrypto::Plain => held.secret@ == sent.value@,
                SessionCrypto::Dh(key) => crate::transport::aes_cbc_decrypted(
                    key@,
                    sent.parameters@,
                    sent.value@,
                ) == Some(held.secret@),
            }
        }),
        same_elsewhere(before, after, collection@, item@),
{
    item_is_seen(before, collection@, item@);
    item_is_seen(after, collection@, item@);
    texts_agree(
        after.collections@[collection@].items@[item@].attributes@,
        before.collections@[collection@].items@[item@].attributes@,
    );
    assert forall|c: Seq<char>, i: Seq<char>|
        (c, i) != (collection@, item@) implies #[trigger] same_at(before, after, c, i) by {
        stores_agree(before, after, c, i);
    }
}

/// The secret that is handed out is the item's own: in a plain session the
/// very bytes, in an encrypted one a text that the session's key decrypts to
/// them.
pub proof fn handed_out_secrets_are_the_items_own(
    state: SecretState,
    collection: &str,
    item: &str,
    session: &str,
    sent: SentSecret,
)
    requires
        call_ensures(
            SecretState::get_secret,
            (&state, collection, item, session),
            Ok::<SentSecret, StoreError>(sent),
        ),
    ensures
        state.unlocked,
        state.sessions@.dom().contains(session@),
        state.collections@.dom().contains(collection@),
        state.collections@[collection@].items@.dom().contains(item@),
        ({
            let secret = state.collections@[collection@].items@[item@].secret@;
            match state.sessions@[session@] {
                SessionCrypto::Plain => sent.value@ == secret && sent.parameters@.len() == 0,
                SessionCrypto::Dh(key) => sent.parameters@.len() == 16
                    && crate::transport::aes_cbc_decrypted(key@, sent.parameters@, sent.value@)
                    == Some(secret),
            }
        }),
{
    item_is_seen(state, collection@, item@);
}

/// Of several items that are asked for at once, each answer stands under the
/// path that was asked for and carries the secret of the item which that
/// path names, and no deleted item is answered.
pub proof fn answers_carry_the_secret_that_their_path_names(
    state: SecretState,
    paths: Vec<String>,
    session: &str,
    r: Result<TextMap<SentSecret>, StoreError>,
    c: Seq<char>,
    i: Seq<char>,
    path: Seq<char>,
)
    requires
        call_ensures(SecretState::get_secrets, (&state, &paths, session), r),
        r is Ok,
        !c.contains('/'),
        !i.contains('/'),
        path == "/org/freedesktop/secrets"@ + "/collection/"@ + c + "/"@ + i,
        (r->Ok_0)@.dom().contains(path),
    ensures
        state.sessions@.dom().contains(session@),
        exists|n: int| 0 <= n < paths@.len() && (#[trigger] paths@[n])@ == path,
        state.collections@.dom().contains(c),
        !state.collections@[c].deleted,
        state.collections@[c].items@.dom().contains(i),
        !state.collections@[c].items@[i].deleted,
        ({
            let secret = state.collections@[c].items@[i].secret@;
            match state.sessions@[session@] {
                SessionCrypto::Plain => (r->Ok_0)@[path].value@ == secret,
                SessionCrypto::Dh(key) => crate::transport::aes_cbc_decrypted(
                    key@,
                    (r->Ok_0)@[path].parameters@,
                    (r->Ok_0)@[path].value@,
                ) == Some(secret),
            }
        }),
{
    item_is_seen(state, c, i);
    crate::objects::item_paths_round_trip(c, i);
    assert(path == crate::objects::item_path_of(c, i));
    assert(crate::secret_store::answered(
        state.content(),
        paths@,
        paths@.len() as int,
        path,
    ));
    assert(crate::secret_store::sent_as(
        state.sessions@[session@],
        crate::secret_store::secret_at(state.content(), path)->0,
        (r->Ok_0)@[path],
    ));
    crate::textmap::first_keys_are(paths@, paths@.len() as int, path);
}

/// In a plain session every item that is asked for by its path, and is not
/// deleted, is answered.
pub proof fn plain_sessions_answer_every_item(
    state: SecretState,
    paths: Vec<String>,
    session: &str,
    r: Result<TextMap<SentSecret>, StoreError>,
    c: Seq<char>,
    i: Seq<char>,
    n: int,
)
    requires
        call_ensures(SecretState::get_secrets, (&state, &paths, session), r),
        state.sessions@.dom().contains(session@),
        state.sessions@[session@] is Plain,
        !c.contains('/'),
        !i.contains('/'),
        0 <= n < paths@.len(),
        paths@[n]@ == "/org/freedesktop/secrets"@ + "/collection/"@ + c + "/"@ + i,
        crate::objects::valid_object_path(paths@[n]@),
        state.collections@.dom().contains(c),
        !state.collections@[c].deleted,
        state.collections@[c].items@.dom().contains(i),
        !state.collections@[c].items@[i].deleted,
    ensures
        r is Ok,
        (r->Ok_0)@.dom().contains(paths@[n]@),
        (r->Ok_0)@[paths@[n]@].value@ == state.collections@[c].items@[i].secret@,
{
    item_is_seen(state, c, i);
    crate::objects::item_paths_round_trip(c, i);
    crate::textmap::first_keys_are(paths@, paths@.len() as int, paths@[n]@);
    assert(crate::objects::item_path_of(c, i) == paths@[n]@);
    assert(crate::secret_store::secret_at(state.content(), paths@[n]@) is Some);
    assert(crate::textmap::first_keys(paths@, paths@.len() as int).contains(paths@[n]@));
    assert(crate::secret_store::answered(
        state.content(),
        paths@,
        paths@.len() as int,
        paths@[n]@,
    ));
    let secret = crate::secret_store::secret_at(state.content(), paths@[n]@)->0;
    assert(secret == state.collections@[c].items@[i].secret@);
    assert(!crate::secret_store::send_failed(state.sessions@[session@], secret));
    assert(secret == state.content()[c].items[i].secret);
    assert(crate::secret_store::listed(paths@, paths@[n]@));
    assert((r->Ok_0)@.dom().contains(paths@[n]@));
    assert(crate::secret_store::sent_as(
        state.sessions@[session@],
        secret,
        (r->Ok_0)@[paths@[n]@],
    ));
}

/// A store that is filled from what another one kept holds that store's
/// collections and items, each with its label, its attributes and its
/// secret, and none that was deleted.
pub proof fn kept_stores_are_filled_again(
    state: SecretState,
    data: VaultData,
    before: SecretState,
    after: SecretState,
    c: Seq<char>,
    i: Seq<char>,
)
    requires
        call_ensures(SecretState::sync_to_vault, (&state,), data),
        exists|s: &mut SecretState|
            #[trigger] call_ensures(SecretState::populate, (s, &data), ()) && *s == before
                && *final(s) == after,
    ensures
        after.collections@.dom().contains(c) <==> state.collections@.dom().contains(c)
            && !state.collections@[c].deleted,
        after.collections@.dom().contains(c) ==> {
            let kept = after.collections@[c];
            let from = state.collections@[c];
            &&& !kept.deleted
            &&& kept.label@ == from.label@
            &&& kept.items@.dom().contains(i) <==> from.items@.dom().contains(i)
                && !from.items@[i].deleted
            &&& kept.items@.dom().contains(i) ==> same_item(kept.items@[i], from.items@[i])
        },
        after.unlocked == before.unlocked,
{
    item_is_seen(state, c, i);
    item_is_seen(after, c, i);
    assert(after.content() == crate::secret_store::live(state.content()));
    texts_agree(
        after.collections@[c].items@[i].attributes@,
        state.collections@[c].items@[i].attributes@,
    );
}

proof fn stores_agree(before: SecretState, after: SecretState, c: Seq<char>, i: Seq<char>)
    requires
        before.content().dom().contains(c) == after.content().dom().contains(c),
        before.content().dom().contains(c) ==> {
            &&& before.content()[c].label == after.content()[c].label
            &&& before.content()[c].deleted == after.content()[c].deleted
            &&& before.content()[c].items.dom().contains(i)
                == after.content()[c].items.dom().contains(i)
            &&& before.content()[c].items.dom().contains(i) ==> before.content()[c].items[i]
                == after.content()[c].items[i]
        },
    ensures
        same_at(before, after, c, i),
{
    item_is_seen(before, c, i);
    item_is_seen(after, c, i);
    texts_agree(
        before.collections@[c].items@[i].attributes@,
        after.collections@[c].items@[i].attributes@,
    );
}

proof fn texts_agree(a: Map<Seq<char>, String>, b: Map<Seq<char>, String>)
    ensures
        crate::secret_store::texts(a) == crate::secret_store::texts(b) <==> same_texts(a, b),
{
    let x = crate::secret_store::texts(a);
    let y = crate::secret_store::texts(b);
    assert forall|k: Seq<char>| #[trigger] a.dom().contains(k) implies x.dom().contains(k) && x[k]
        == a[k]@ by {}
    assert forall|k: Seq<char>| #[trigger] b.dom().contains(k) implies y.dom().contains(k) && y[k]
        == b[k]@ by {}
    if x == y {
        assert forall|k: Seq<char>| #[trigger] a.dom().contains(k) <==> #[trigger] b.dom().contains(
            k,
        ) by {
            assert(x.dom().contains(k) == y.dom().contains(k));
        }
    }
    if same_texts(a, b) {
        assert(x =~= y);
    }
}

proof fn item_is_seen(state: SecretState, c: Seq<char>, i: Seq<char>)
    ensures
        state.content().dom().contains(c) == state.collections@.dom().contains(c),
        state.collections@.dom().contains(c) ==> {
            let seen = state.content()[c];
            let kept = state.collections@[c];
            &&& seen.deleted == kept.deleted
            &&& seen.label == kept.label@
            &&& seen.items.dom().contains(i) == kept.items@.dom().contains(i)
            &&& kept.items@.dom().contains(i) ==> {
                &&& seen.items[i].deleted == kept.items@[i].deleted
                &&& seen.items[i].label == kept.items@[i].label@
                &&& seen.items[i].secret == kept.items@[i].secret@
                &&& seen.items[i].attributes == crate::secret_store::texts(
                    kept.items@[i].attributes@,
                )
            }
        },
{
}

proof fn all_are_wanted(attributes: Map<Seq<char>, String>, wanted: Map<Seq<char>, String>)
    ensures
        crate::secret_store::includes(
            crate::secret_store::texts(attributes),
            crate::secret_store::texts(wanted),
        ) <==> forall|k: Seq<char>| #[trigger]
            wanted.dom().contains(k) ==> attributes.dom().contains(k) && attributes[k]@
                == wanted[k]@,
{
    let have = crate::secret_store::texts(attributes);
    let want = crate::secret_store::texts(wanted);
    assert forall|k: Seq<char>| #[trigger] wanted.dom().contains(k) implies want.dom().contains(k)
        && want[k] == wanted[k]@ && (have.dom().contains(k) <==> attributes.dom().contains(k)) && (
    attributes.dom().contains(k) ==> have[k] == attributes[k]@) by {}
    assert forall|k: Seq<char>| #[trigger] want.dom().contains(k) implies wanted.dom().contains(
        k,
    ) by {}
}

/// The items of a collection are its items that are not deleted.
pub proof fn items_are_listed_unless_deleted(
    state: SecretState,
    collection: &str,
    list: Vec<ItemRef>,
    i: Seq<char>,
)
    requires
        call_ensures(SecretState::items, (&state, collection), list),
    ensures
        (exists|n: int|
            0 <= n < list@.len() && (#[trigger] list@[n]).item@ == i && list@[n].collection@
                == collection@) <==> state.collections@.dom().contains(collection@)
            && state.collections@[collection@].items@.dom().contains(i)
            && !state.collections@[collection@].items@[i].deleted
            && crate::objects::valid_object_path(crate::objects::item_path_of(collection@, i)),
{
    item_is_seen(state, collection@, i);
    assert(crate::secret_store::names_item(list@, collection@, i) <==> state.content().dom().contains(
        collection@,
    ) && crate::secret_store::hit(
        collection@,
        state.content()[collection@].items,
        i,
        Map::empty(),
    ));
}

/// The collections of a store are those that are not deleted.
pub proof fn collections_are_listed_unless_deleted(
    state: SecretState,
    list: Vec<String>,
    c: Seq<char>,
)
    requires
        call_ensures(SecretState::collection_ids, (&state,), list),
    ensures
        (exists|n: int| 0 <= n < list@.len() && (#[trigger] list@[n])@ == c)
            <==> state.collections@.dom().contains(c) && !state.collections@[c].deleted
            && crate::objects::valid_object_path(crate::objects::collection_path_of(c)),
{
    item_is_seen(state, c, Seq::empty());
    assert(crate::secret_store::listed(list@, c) <==> state.content().dom().contains(c)
        && !state.content()[c].deleted && crate::objects::valid_object_path(
        crate::objects::collection_path_of(c),
    ));
}

/// A deleted collection is marked as deleted with its label and items kept,
/// its items are reported, and no other collection changes.
pub proof fn deleting_marks_one_collection(
    before: SecretState,
    after: SecretState,
    collection: &str,
    r: Result<Vec<String>, StoreError>,
    c: Seq<char>,
    i: Seq<char>,
)
    requires
        exists|s: &mut SecretState|
            #[trigger] call_ensures(SecretState::delete_collection, (s, collection), r) && *s
                == before && *final(s) == after,
    ensures
        r is Ok <==> before.unlocked,
        after.collections@.dom().contains(c) == before.collections@.dom().contains(c),
        c != collection@ || r is Err ==> same_at(before, after, c, i),
        r is Ok && before.collections@.dom().contains(collection@) ==> {
            &&& after.collections@[collection@].deleted
            &&& after.collections@[collection@].label@ == before.collections@[collection@].label@
            &&& (exists|n: int| 0 <= n < (r->Ok_0)@.len() && (#[trigger] (r->Ok_0)@[n])@ == i)
                <==> before.collections@[collection@].items@.dom().contains(i)
        },
{
    item_is_seen(before, collection@, i);
    item_is_seen(after, collection@, i);
    item_is_seen(before, c, i);
    item_is_seen(after, c, i);
    if c != collection@ || r is Err {
        stores_agree(before, after, c, i);
    }
    if r is Ok && before.collections@.dom().contains(collection@) {
        assert(crate::secret_store::listed((r->Ok_0)@, i) <==> crate::secret_store::has_item(
            before.content(),
            collection@,
            i,
        ));
    }
}

/// A new collection bears its label and holds nothing; one that is there
/// stays as it is, and so does every other.
pub proof fn new_collections_are_empty(
    before: SecretState,
    after: SecretState,
    id: &str,
    label: &str,
    r: Result<bool, StoreError>,
    c: Seq<char>,
    i: Seq<char>,
)
    requires
        exists|s: &mut SecretState|
            #[trigger] call_ensures(SecretState::create_collection, (s, id, label), r) && *s
                == before && *final(s) == after,
    ensures
        r is Ok <==> before.unlocked,
        r is Ok ==> r->Ok_0 == !before.collections@.dom().contains(id@),
        r == Ok::<bool, StoreError>(true) ==> {
            &&& after.collections@.dom().contains(id@)
            &&& after.collections@[id@].label@ == label@
            &&& !after.collections@[id@].deleted
            &&& !after.collections@[id@].items@.dom().contains(i)
        },
        r != Ok::<bool, StoreError>(true) || c != id@ ==> same_at(before, after, c, i),
{
    item_is_seen(before, id@, i);
    item_is_seen(after, id@, i);
    if r != Ok::<bool, StoreError>(true) || c != id@ {
        stores_agree(before, after, c, i);
    }
}

/// An item has the label and the attributes that were last set, and keeps
/// its secret.
pub proof fn set_labels_and_attributes_are_held(
    before: SecretState,
    labelled: SecretState,
    after: SecretState,
    collection: &str,
    item: &str,
    label: String,
    attributes: TextMap<String>,
    changed: bool,
    changed_too: bool,
    seen_label: String,
    seen: TextMap<String>,
)
    requires
        exists|s: &mut SecretState|
            #[trigger] call_ensures(SecretState::set_item_label, (s, collection, item, label), changed)
                && *s == before && *final(s) == labelled,
        exists|s: &mut SecretState|
            #[trigger] call_ensures(
                SecretState::set_item_attributes,
                (s, collection, item, attributes),
                changed_too,
            ) && *s == labelled && *final(s) == after,
        call_ensures(SecretState::item_label, (&after, collection, item), seen_label),
        call_ensures(SecretState::item_attributes, (&after, collection, item), seen),
        before.collections@.dom().contains(collection@),
        before.collections@[collection@].items@.dom().contains(item@),
    ensures
        changed && changed_too,
        seen_label@ == label@,
        same_texts(seen@, attributes@),
        after.collections@[collection@].items@[item@].secret@
            == before.collections@[collection@].items@[item@].secret@,
        after.collections@[collection@].items@[item@].deleted
            == before.collections@[collection@].items@[item@].deleted,
{
    item_is_seen(before, collection@, item@);
    item_is_seen(labelled, collection@, item@);
    item_is_seen(after, collection@, item@);
    texts_agree(seen@, attributes@);
}

/// An alias is the collection of its name; the default one, where there is
/// none of that name, is the login collection; and where there is none it
/// is no object.
pub proof fn aliases_name_a_collection(state: SecretState, alias: &str, r: Result<String, StoreError>)
    requires
        call_ensures(SecretState::read_alias, (&state, alias), r),
    ensures
        ({
            let there = state.collections@.dom().contains(alias@);
            let login = alias@ == "default"@ && !there && state.collections@.dom().contains(
                "login"@,
            );
            let path = "/org/freedesktop/secrets"@ + "/collection/"@ + alias@;
            let login_path = "/org/freedesktop/secrets"@ + "/collection/"@ + "login"@;
            &&& there && r is Ok ==> (r->Ok_0)@ == path
            &&& there && crate::objects::valid_object_path(path) ==> r is Ok
            &&& login && r is Ok ==> (r->Ok_0)@ == login_path
            &&& !there && !login ==> r is Ok && (r->Ok_0)@ == "/"@
        }),
{
    assert(state.content().dom() =~= state.collections@.dom());
}

/// A session is plain, or of the one kind of exchange, or refused. Its
/// crypto is what the sides agreed on.
pub proof fn sessions_are_plain_or_exchanged(
    algorithm: &str,
    input: Option<&[u8]>,
    r: Result<crate::secret_store::Negotiated, StoreError>,
)
    requires
        call_ensures(crate::secret_store::negotiate, (algorithm, input), r),
    ensures
        algorithm@ == "plain"@ ==> r is Ok && r->Ok_0.crypto is Plain && r->Ok_0.output@.len() == 0,
        algorithm@ != "plain"@ && r is Ok ==> algorithm@ == "dh-ietf1024-sha256-aes128-cbc-pkcs7"@
            && input is Some && r->Ok_0.crypto is Dh && r->Ok_0.crypto->Dh_0@.len() == 16
            && 1 < crate::transport::number(input->0@) < crate::transport::prime() - 1,
        algorithm@ == "dh-ietf1024-sha256-aes128-cbc-pkcs7"@ && algorithm@ != "plain"@ && input
            is Some && 1 < crate::transport::number(input->0@) < crate::transport::prime() - 1
            ==> r is Ok,
{
}

/// An item is created whenever the store is open, the session is there, its
/// secret can be read, and the collection exists; and only then.
pub proof fn items_are_created_when_they_can_be(
    before: SecretState,
    after: SecretState,
    collection: &str,
    id: &str,
    new: NewItem,
    session: &str,
    sent: SentSecret,
    replace: bool,
    r: Result<Vec<String>, StoreError>,
    c: Seq<char>,
    i: Seq<char>,
)
    requires
        exists|s: &mut SecretState|
            #[trigger] call_ensures(
                SecretState::create_item,
                (s, collection, id, new, session, &sent, replace),
                r,
            ) && *s == before && *final(s) == after,
    ensures
        r is Ok <==> before.unlocked && before.sessions@.dom().contains(session@)
            && before.collections@.dom().contains(collection@) && match before.sessions@[session@] {
            SessionCrypto::Plain => true,
            SessionCrypto::Dh(key) => sent.parameters@.len() == 16
                && crate::transport::aes_cbc_decrypted(key@, sent.parameters@, sent.value@)
                is Some,
        },
        !before.unlocked ==> r is Err && r->Err_0 is IsLocked,
        before.unlocked && !before.sessions@.dom().contains(session@) ==> r is Err && r->Err_0
            is InvalidArgs,
        r is Err ==> same_at(before, after, c, i),
{
    item_is_seen(before, collection@, i);
    if r is Err {
        stores_agree(before, after, c, i);
    }
}

/// What is kept of a store: each collection that is not deleted under its
/// own identity and label, with each of its items that is not deleted,
/// under its own identity and label, with its attributes and the bytes of
/// its secret.
pub proof fn stores_keep_what_they_hold(
    state: SecretState,
    data: VaultData,
    c: Seq<char>,
    i: Seq<char>,
)
    requires
        call_ensures(SecretState::sync_to_vault, (&state,), data),
        state.collections@.dom().contains(c),
        !state.collections@[c].deleted,
    ensures
        exists|n: int|
            #![trigger data.collections@[n]]
            0 <= n < data.collections@.len() && data.collections@[n].id@ == c
                && data.collections@[n].label@ == state.collections@[c].label@ && (
            state.collections@[c].items@.dom().contains(i)
                && !state.collections@[c].items@[i].deleted ==> exists|m: int|
                #![trigger data.collections@[n].items@[m]]
                0 <= m < data.collections@[n].items@.len() && {
                    let kept = data.collections@[n].items@[m];
                    let held = state.collections@[c].items@[i];
                    kept.id@ == i && kept.label@ == held.label@ && kept.secret@ == held.secret@
                        && same_texts(kept.attributes@, held.attributes@)
                }),
{
    item_is_seen(state, c, i);
    let kept = crate::secret_store::kept_collections(data.collections@);
    assert(kept == crate::secret_store::live(state.content()));
    assert(kept.dom().contains(c));
    last_collection(data.collections@, c);
    let n = choose|n: int|
        #![trigger data.collections@[n]]
        0 <= n < data.collections@.len() && data.collections@[n].id@ == c && kept[c]
            == crate::secret_store::kept_collection(data.collections@[n]);
    let one = data.collections@[n];
    assert(one.label@ == state.collections@[c].label@);
    if state.collections@[c].items@.dom().contains(i) && !state.collections@[c].items@[i].deleted {
        let items = crate::secret_store::kept_items(one.items@);
        assert(items.dom().contains(i));
        last_item(one.items@, i);
        let m = choose|m: int|
            #![trigger one.items@[m]]
            0 <= m < one.items@.len() && one.items@[m].id@ == i && items[i]
                == crate::secret_store::kept_item(one.items@[m]);
        assert(items[i] == state.content()[c].items[i]);
        texts_agree(one.items@[m].attributes@, state.collections@[c].items@[i].attributes@);
        assert(data.collections@[n].items@[m].id@ == i);
    }
}

proof fn last_collection(collections: Seq<crate::vault::CollectionData>, c: Seq<char>)
    requires
        crate::secret_store::kept_collections(collections).dom().contains(c),
    ensures
        exists|n: int|
            #![trigger collections[n]]
            0 <= n < collections.len() && collections[n].id@ == c
                && crate::secret_store::kept_collections(collections)[c]
                == crate::secret_store::kept_collection(collections[n]),
    decreases collections.len(),
{
    if collections.len() > 0 {
        let rest = collections.drop_last();
        if collections[collections.len() - 1].id@ != c {
            last_collection(rest, c);
            let n = choose|n: int|
                #![trigger rest[n]]
                0 <= n < rest.len() && rest[n].id@ == c
                    && crate::secret_store::kept_collections(rest)[c]
                    == crate::secret_store::kept_collection(rest[n]);
            assert(collections[n] == rest[n]);
        }
    }
}

proof fn last_item(items: Seq<crate::vault::ItemData>, i: Seq<char>)
    requires
        crate::secret_store::kept_items(items).dom().contains(i),
    ensures
        exists|m: int|
            #![trigger items[m]]
            0 <= m < items.len() && items[m].id@ == i && crate::secret_store::kept_items(items)[i]
                == crate::secret_store::kept_item(items[m]),
    decreases items.len(),
{
    if items.len() > 0 {
        let rest = items.drop_last();
        if items[items.len() - 1].id@ != i {
            last_item(rest, i);
            let m = choose|m: int|
                #![trigger rest[m]]
                0 <= m < rest.len() && rest[m].id@ == i && crate::secret_store::kept_items(rest)[i]
                    == crate::secret_store::kept_item(rest[m]);
            assert(items[m] == rest[m]);
        }
    }
}

/// Nothing that was deleted is kept.
pub proof fn deleted_things_are_not_kept(state: SecretState, data: VaultData, n: int)
    requires
        call_ensures(SecretState::sync_to_vault, (&state,), data),
        0 <= n < data.collections@.len(),
    ensures
        ({
            let c = data.collections@[n].id@;
            state.collections@.dom().contains(c) && !state.collections@[c].deleted
        }),
{
    let c = data.collections@[n].id@;
    item_is_seen(state, c, Seq::empty());
    collections_are_kept(data.collections@, n);
}

proof fn collections_are_kept(collections: Seq<crate::vault::CollectionData>, n: int)
    requires
        0 <= n < collections.len(),
    ensures
        crate::secret_store::kept_collections(collections).dom().contains(collections[n].id@),
    decreases collections.len(),
{
    if n < collections.len() - 1 {
        assert(collections.drop_last()[n] == collections[n]);
        collections_are_kept(collections.drop_last(), n);
    }
}

/// The session that comes of an exchange has the key of that exchange: some
/// exponent made the answer of the generator and the key of the client's
/// number.
pub proof fn exchanged_sessions_have_the_exchanged_key(
    algorithm: &str,
    client: &[u8],
    r: Result<crate::secret_store::Negotiated, StoreError>,
)
    requires
        call_ensures(crate::secret_store::negotiate, (algorithm, Some(client)), r),
        r is Ok,
        r->Ok_0.crypto is Dh,
    ensures
        exists|e: nat|
            #![trigger vstd::arithmetic::power::pow(2, e)]
            {
                let p = crate::transport::prime() as int;
                let public = (vstd::arithmetic::power::pow(2, e) % p) as nat;
                let shared = (vstd::arithmetic::power::pow(
                    crate::transport::number(client@) as int,
                    e,
                ) % p) as nat;
                &&& 2 <= e < p - 2
                &&& r->Ok_0.output@ == crate::transport::fixed_width(public, 128)
                &&& r->Ok_0.crypto->Dh_0@ == crate::transport::hkdf_sha256(
                    crate::transport::fixed_width(shared, 128),
                    Seq::<u8>::empty(),
                    16,
                )
            },
{
    reveal_strlit("plain");
    let out = r->Ok_0.output@;
    let key = r->Ok_0.crypto->Dh_0@;
    assert(crate::transport::exchanged(client@, out, key));
    let e = choose|e: nat|
        crate::transport::exponent_drawn(e) && #[trigger] crate::transport::answers_with(
            client@,
            e,
            out,
            key,
        );
    assert(crate::transport::answers_with(client@, e, out, key));
    let power = vstd::arithmetic::power::pow(2, e);
    assert(crate::transport::group_power(2, e) == (power % (crate::transport::prime() as int))
        as nat);
}

/// The login collection is made once, empty and under its own label, in an
/// open store that has none; no other collection changes.
pub proof fn the_login_collection_is_made_once(
    before: SecretState,
    after: SecretState,
    created: bool,
    c: Seq<char>,
    i: Seq<char>,
)
    requires
        exists|s: &mut SecretState|
            #[trigger] call_ensures(SecretState::ensure_login_collection, (s,), created) && *s
                == before && *final(s) == after,
    ensures
        created <==> before.unlocked && !before.collections@.dom().contains("login"@),
        created ==> {
            &&& after.collections@.dom().contains("login"@)
            &&& after.collections@["login"@].label@ == "Login"@
            &&& !after.collections@["login"@].deleted
            &&& !after.collections@["login"@].items@.dom().contains(i)
        },
        !created || c != "login"@ ==> same_at(before, after, c, i),
{
    item_is_seen(before, "login"@, i);
    item_is_seen(after, "login"@, i);
    if !created || c != "login"@ {
        stores_agree(before, after, c, i);
    }
}

/// A collection has the label that was last set, and keeps its items.
pub proof fn set_collection_labels_are_held(
    before: SecretState,
    after: SecretState,
    collection: &str,
    label: String,
    changed: bool,
    seen: String,
    c: Seq<char>,
    i: Seq<char>,
)
    requires
        exists|s: &mut SecretState|
            #[trigger] call_ensures(SecretState::set_collection_label, (s, collection, label), changed)
                && *s == before && *final(s) == after,
        call_ensures(SecretState::collection_label, (&after, collection), seen),
    ensures
        changed <==> before.collections@.dom().contains(collection@),
        changed ==> seen@ == label@ && after.collections@[collection@].deleted
            == before.collections@[collection@].deleted,
        !changed ==> seen@.len() == 0,
        changed ==> (after.collections@[collection@].items@.dom().contains(i)
            <==> before.collections@[collection@].items@.dom().contains(i)),
        !changed || c != collection@ ==> same_at(before, after, c, i),
{
    item_is_seen(before, collection@, i);
    item_is_seen(after, collection@, i);
    if !changed || c != collection@ {
        stores_agree(before, after, c, i);
    }
}

/// A session that was opened stays as it was opened until it is closed, and
/// no other session changes.
pub proof fn sessions_last_until_closed(
    before: SecretState,
    between: SecretState,
    after: SecretState,
    path: &str,
    crypto: SessionCrypto,
    other: Seq<char>,
    c: Seq<char>,
    i: Seq<char>,
)
    requires
        exists|s: &mut SecretState|
            #[trigger] call_ensures(SecretState::open_session, (s, path, crypto), ()) && *s
                == before && *final(s) == between,
        exists|s: &mut SecretState|
            #[trigger] call_ensures(SecretState::close_session, (s, path), ()) && *s == between
                && *final(s) == after,
        other != path@,
    ensures
        between.sessions@.dom().contains(path@) && between.sessions@[path@] == crypto,
        !after.sessions@.dom().contains(path@),
        before.sessions@.dom().contains(other) <==> between.sessions@.dom().contains(other),
        before.sessions@.dom().contains(other) <==> after.sessions@.dom().contains(other),
        before.sessions@.dom().contains(other) ==> between.sessions@[other]
            == before.sessions@[other] && after.sessions@[other] == before.sessions@[other],
        same_at(before, between, c, i),
        same_at(between, after, c, i),
        between.unlocked == before.unlocked && after.unlocked == before.unlocked,
{
    stores_agree(before, between, c, i);
    stores_agree(between, after, c, i);
}

} // verus!
