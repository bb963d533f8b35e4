//! The collections, items and sessions of the secret service.
//!
//! A deleted collection or item stays as a tombstone: it is never found by a
//! search, never handed out in a batch, and never kept on disk.

use vstd::prelude::*;
use vstd::string::*;

use crate::objects::{collection_path, is_object_path, item_of_path, item_path};
use crate::secret::SecretError;
use crate::text::same_text;
use crate::textmap::TextMap;
use crate::transport::{calculate_dh_shared_secret, SessionCrypto};
use crate::vault::{CollectionData, ItemData, VaultData};

verus! {

/// An item.
pub struct ItemRt {
    pub label: String,
    pub attributes: TextMap<String>,
    pub secret: Vec<u8>,
    pub deleted: bool,
}

/// A collection.
pub struct CollectionRt {
    pub label: String,
    pub deleted: bool,
    pub items: TextMap<ItemRt>,
}

/// Everything that the service knows.
pub struct SecretState {
    /// The vault is open.
    pub unlocked: bool,
    pub collections: TextMap<CollectionRt>,
    /// How secrets travel, by the path of the session.
    pub sessions: TextMap<SessionCrypto>,
}

/// What an item holds.
#[verifier::ext_equal]
pub struct ItemContent {
    pub label: Seq<char>,
    pub attributes: Map<Seq<char>, Seq<char>>,
    pub secret: Seq<u8>,
    pub deleted: bool,
}

/// What a collection holds.
#[verifier::ext_equal]
pub struct CollectionContent {
    pub label: Seq<char>,
    pub deleted: bool,
    pub items: Map<Seq<char>, ItemContent>,
}

/// The texts of a map.
pub open spec fn texts(map: Map<Seq<char>, String>) -> Map<Seq<char>, Seq<char>> {
    map.map_values(|t: String| t@)
}

/// What the items of a map hold.
pub open spec fn item_contents(map: Map<Seq<char>, ItemRt>) -> Map<Seq<char>, ItemContent> {
    map.map_values(|item: ItemRt| item@)
}

/// What the collections of a map hold.
pub open spec fn collection_contents(map: Map<Seq<char>, CollectionRt>) -> Map<
    Seq<char>,
    CollectionContent,
> {
    map.map_values(|collection: CollectionRt| collection@)
}

impl View for ItemRt {
    type V = ItemContent;

    open spec fn view(&self) -> ItemContent {
        ItemContent {
            label: self.label@,
            attributes: texts(self.attributes@),
            secret: self.secret@,
            deleted: self.deleted,
        }
    }
}

impl View for CollectionRt {
    type V = CollectionContent;

    open spec fn view(&self) -> CollectionContent {
        CollectionContent {
            label: self.label@,
            deleted: self.deleted,
            items: item_contents(self.items@),
        }
    }
}

impl SecretState {
    /// The collections.
    pub open spec fn content(self) -> Map<Seq<char>, CollectionContent> {
        collection_contents(self.collections@)
    }

    /// Every session key has the right length.
    pub open spec fn well_formed(self) -> bool {
        forall|path: Seq<char>|
            self.sessions@.dom().contains(path) ==> (#[trigger] self.sessions@[path]).well_formed()
    }

    /// A state without collections or sessions.
    pub fn new(unlocked: bool) -> (state: Self)
        ensures
            state.well_formed(),
            state.unlocked == unlocked,
            state.content() == Map::<Seq<char>, CollectionContent>::empty(),
            state.sessions@ == Map::<Seq<char>, SessionCrypto>::empty(),
    {
        let state = SecretState {
            unlocked,
            collections: TextMap::new(),
            sessions: TextMap::new(),
        };
        assert(state.content() =~= Map::<Seq<char>, CollectionContent>::empty());
        state
    }

    /// The vault is open.
    pub fn is_unlocked(&self) -> (yes: bool)
        ensures
            yes == self.unlocked,
    {
        self.unlocked
    }
}

/// Why a call failed.
pub enum StoreError {
    /// The vault is locked.
    IsLocked,
    InvalidArgs(String),
    Failed(String),
}

/// The error is about an argument, with this message.
pub open spec fn argument_error(error: StoreError, message: Seq<char>) -> bool {
    error is InvalidArgs && error->InvalidArgs_0@ == message
}

/// The error is a failure with this message.
pub open spec fn failure(error: StoreError, message: Seq<char>) -> bool {
    error is Failed && error->Failed_0@ == message
}

fn named_failure(what: &str, name: &str) -> (error: StoreError)
    ensures
        failure(error, what@ + name@),
{
    let mut m = what.to_owned();
    m.append(name);
    StoreError::Failed(m)
}

// ---------------------------------------------------------------------------
// Attributes
// ---------------------------------------------------------------------------

/// The attributes include all that are wanted.
pub open spec fn includes(
    attributes: Map<Seq<char>, Seq<char>>,
    wanted: Map<Seq<char>, Seq<char>>,
) -> bool {
    forall|k: Seq<char>| #[trigger]
        wanted.dom().contains(k) ==> attributes.dom().contains(k) && attributes[k] == wanted[k]
}

fn attributes_include(attributes: &TextMap<String>, wanted: &TextMap<String>) -> (yes: bool)
    ensures
        yes == includes(texts(attributes@), texts(wanted@)),
{
    let keys = wanted.keys();
    let mut i: usize = 0;
    while i < keys.len()
        invariant
            i <= keys@.len(),
            forall|k: int| 0 <= k < keys@.len() ==> wanted@.dom().contains((#[trigger] keys@[k])@),
            forall|k: Seq<char>| #[trigger]
                wanted@.dom().contains(k) ==> exists|j: int|
                    0 <= j < keys@.len() && (#[trigger] keys@[j])@ == k,
            forall|j: int|
                0 <= j < i ==> {
                    let k = (#[trigger] keys@[j])@;
                    attributes@.dom().contains(k) && attributes@[k]@ == wanted@[k]@
                },
        decreases keys@.len() - i,
    {
        let key: &str = keys[i].as_str();
        let ghost k = key@;
        assert(texts(wanted@).dom().contains(k));
        if let Some(value) = wanted.get(key) {
            match attributes.get(key) {
                Some(have) => {
                    if !same_text(have.as_str(), value.as_str()) {
                        assert(texts(attributes@)[k] != texts(wanted@)[k]);
                        return false;
                    }
                },
                None => {
                    return false;
                },
            }
        }
        i = i + 1;
    }
    assert forall|k: Seq<char>| #[trigger] texts(wanted@).dom().contains(k) implies texts(
        attributes@,
    ).dom().contains(k) && texts(attributes@)[k] == texts(wanted@)[k] by {
        let j = choose|j: int| 0 <= j < keys@.len() && (#[trigger] keys@[j])@ == k;
        assert(keys@[j]@ == k);
    }
    true
}

fn same_attributes(a: &TextMap<String>, b: &TextMap<String>) -> (same: bool)
    ensures
        same == (texts(a@) == texts(b@)),
{
    let same: bool = attributes_include(a, b) && attributes_include(b, a);
    proof {
        if same {
            assert(texts(a@) =~= texts(b@));
        }
    }
    same
}

/// A copy of attributes.
fn copy_attributes(attributes: &TextMap<String>) -> (copy: TextMap<String>)
    ensures
        texts(copy@) == texts(attributes@),
{
    let keys = attributes.keys();
    let mut copy: TextMap<String> = TextMap::new();
    let mut i: usize = 0;
    assert(texts(copy@) =~= texts(attributes@).restrict(crate::textmap::first_keys(keys@, 0)));
    while i < keys.len()
        invariant
            i <= keys@.len(),
            forall|k: int|
                0 <= k < keys@.len() ==> attributes@.dom().contains((#[trigger] keys@[k])@),
            texts(copy@) == texts(attributes@).restrict(
                crate::textmap::first_keys(keys@, i as int),
            ),
        decreases keys@.len() - i,
    {
        let key: &str = keys[i].as_str();
        let ghost before = texts(copy@);
        if let Some(value) = attributes.get(key) {
            copy.insert(key, value.clone());
            assert(texts(copy@) =~= before.insert(key@, value@));
        }
        i = i + 1;
        assert(texts(copy@) =~= texts(attributes@).restrict(
            crate::textmap::first_keys(keys@, i as int),
        ));
    }
    proof {
        crate::textmap::all_keys_are_the_domain(attributes@, keys@);
        assert(texts(copy@) =~= texts(attributes@));
    }
    copy
}

// ---------------------------------------------------------------------------
// Search
// ---------------------------------------------------------------------------

/// An item of a collection.
pub struct ItemRef {
    pub collection: String,
    pub item: String,
}

/// The list names an item.
pub open spec fn names_item(list: Seq<ItemRef>, collection: Seq<char>, item: Seq<char>) -> bool {
    exists|i: int|
        0 <= i < list.len() && (#[trigger] list[i]).collection@ == collection && list[i].item@
            == item
}

/// The list names no item twice.
pub open spec fn each_once(list: Seq<ItemRef>) -> bool {
    forall|i: int, j: int|
        0 <= i < j < list.len() ==> !((#[trigger] list[i]).collection@ == (
        #[trigger] list[j]).collection@ && list[i].item@ == list[j].item@)
}

/// The item is not deleted, has the wanted attributes, and has an object
/// path.
pub open spec fn hit(
    collection: Seq<char>,
    items: Map<Seq<char>, ItemContent>,
    item: Seq<char>,
    wanted: Map<Seq<char>, Seq<char>>,
) -> bool {
    &&& items.dom().contains(item)
    &&& !items[item].deleted
    &&& includes(items[item].attributes, wanted)
    &&& crate::objects::valid_object_path(crate::objects::item_path_of(collection, item))
}

/// The item is a hit in a collection that is not deleted.
pub open spec fn found(
    content: Map<Seq<char>, CollectionContent>,
    collection: Seq<char>,
    item: Seq<char>,
    wanted: Map<Seq<char>, Seq<char>>,
) -> bool {
    &&& content.dom().contains(collection)
    &&& !content[collection].deleted
    &&& hit(collection, content[collection].items, item, wanted)
}

/// Adds the hits of one collection to a list that names none of its items.
fn add_hits(
    list: &mut Vec<ItemRef>,
    collection: &str,
    items: &TextMap<ItemRt>,
    wanted: &TextMap<String>,
)
    requires
        each_once(old(list)@),
        forall|item: Seq<char>| !names_item(old(list)@, collection@, item),
    ensures
        each_once(final(list)@),
        forall|c: Seq<char>, item: Seq<char>| #[trigger]
            names_item(final(list)@, c, item) <==> names_item(old(list)@, c, item) || (c
                == collection@ && hit(c, item_contents(items@), item, texts(wanted@))),
{
    let keys = items.keys();
    let ghost before = list@;
    let mut i: usize = 0;
    while i < keys.len()
        invariant
            i <= keys@.len(),
            forall|k: int| 0 <= k < keys@.len() ==> items@.dom().contains((#[trigger] keys@[k])@),
            forall|a: int, b: int|
                0 <= a < b < keys@.len() ==> (#[trigger] keys@[a])@ != (#[trigger] keys@[b])@,
            each_once(list@),
            forall|item: Seq<char>| !names_item(before, collection@, item),
            forall|c: Seq<char>, item: Seq<char>| #[trigger]
                names_item(list@, c, item) <==> names_item(before, c, item) || (c == collection@
                    && crate::textmap::first_keys(keys@, i as int).contains(item) && hit(
                    c,
                    item_contents(items@),
                    item,
                    texts(wanted@),
                )),
        decreases keys@.len() - i,
    {
        let key: &str = keys[i].as_str();
        let ghost now = list@;
        proof {
            crate::textmap::next_key_is_new(keys@, i as int);
            assert(!names_item(now, collection@, key@));
        }
        if let Some(item) = items.get(key) {
            if !item.deleted && attributes_include(&item.attributes, wanted) {
                let path = item_path(collection, key);
                if is_object_path(path.as_str()) {
                    list.push(
                        ItemRef { collection: collection.to_owned(), item: key.to_owned() },
                    );
                    proof {
                        assert(list@.drop_last() =~= now);
                        one_more_is_named(now, list@, collection@, key@);
                    }
                }
            }
            assert(hit(collection@, item_contents(items@), key@, texts(wanted@)) == (list@.len()
                > now.len()));
        }
        i = i + 1;
    }
    proof {
        crate::textmap::all_keys_are_the_domain(items@, keys@);
    }
}

proof fn one_more_is_named(
    before: Seq<ItemRef>,
    now: Seq<ItemRef>,
    collection: Seq<char>,
    item: Seq<char>,
)
    requires
        each_once(before),
        !names_item(before, collection, item),
        now.len() == before.len() + 1,
        now.drop_last() == before,
        now.last().collection@ == collection,
        now.last().item@ == item,
    ensures
        each_once(now),
        forall|c: Seq<char>, i: Seq<char>| #[trigger]
            names_item(now, c, i) <==> names_item(before, c, i) || (c == collection && i == item),
{
    assert forall|c: Seq<char>, i: Seq<char>| #[trigger] names_item(now, c, i) <==> names_item(
        before,
        c,
        i,
    ) || (c == collection && i == item) by {
        if names_item(before, c, i) {
            let k = choose|k: int|
                0 <= k < before.len() && (#[trigger] before[k]).collection@ == c
                    && before[k].item@ == i;
            assert(now[k] == before[k]);
        }
        if c == collection && i == item {
            assert(now[now.len() - 1].collection@ == c);
        }
        if names_item(now, c, i) {
            let k = choose|k: int|
                0 <= k < now.len() && (#[trigger] now[k]).collection@ == c && now[k].item@ == i;
            if k < before.len() {
                assert(before[k] == now[k]);
            }
        }
    }
    assert forall|a: int, b: int| 0 <= a < b < now.len() implies !((
    #[trigger] now[a]).collection@ == (#[trigger] now[b]).collection@ && now[a].item@
        == now[b].item@) by {
        assert(now[a] == before[a]);
        if b < before.len() {
            assert(now[b] == before[b]);
        } else if now[a].collection@ == now[b].collection@ && now[a].item@ == now[b].item@ {
            assert(names_item(before, collection, item));
        }
    }
}

impl SecretState {
    /// The items of all collections that have these attributes. Tombstones
    /// are never among them.
    pub fn search_items(&self, wanted: &TextMap<String>) -> (list: Vec<ItemRef>)
        ensures
            each_once(list@),
            forall|c: Seq<char>, item: Seq<char>| #[trigger]
                names_item(list@, c, item) <==> found(self.content(), c, item, texts(wanted@)),
            forall|n: int, k: Seq<char>|
                #![trigger list@[n], wanted@.dom().contains(k)]
                0 <= n < list@.len() && wanted@.dom().contains(k) ==> {
                    let items = self.collections@[list@[n].collection@].items@;
                    let attributes = items[list@[n].item@].attributes@;
                    attributes.dom().contains(k) && attributes[k]@ == wanted@[k]@
                },
    {
        let keys = self.collections.keys();
        let mut list: Vec<ItemRef> = Vec::new();
        let mut i: usize = 0;
        while i < keys.len()
            invariant
                i <= keys@.len(),
                forall|k: int|
                    0 <= k < keys@.len() ==> self.collections@.dom().contains(
                        (#[trigger] keys@[k])@,
                    ),
                forall|a: int, b: int|
                    0 <= a < b < keys@.len() ==> (#[trigger] keys@[a])@ != (#[trigger] keys@[b])@,
                each_once(list@),
                forall|c: Seq<char>, item: Seq<char>| #[trigger]
                    names_item(list@, c, item) <==> crate::textmap::first_keys(
                        keys@,
                        i as int,
                    ).contains(c) && found(self.content(), c, item, texts(wanted@)),
            decreases keys@.len() - i,
        {
            let key: &str = keys[i].as_str();
            proof {
                crate::textmap::next_key_is_new(keys@, i as int);
            }
            if let Some(collection) = self.collections.get(key) {
                if !collection.deleted {
                    add_hits(&mut list, key, &collection.items, wanted);
                }
            }
            i = i + 1;
        }
        proof {
            crate::textmap::all_keys_are_the_domain(self.collections@, keys@);
            assert forall|n: int, k: Seq<char>|
                #![trigger list@[n], wanted@.dom().contains(k)]
                0 <= n < list@.len() && wanted@.dom().contains(k) implies ({
                let items = self.collections@[list@[n].collection@].items@;
                let attributes = items[list@[n].item@].attributes@;
                attributes.dom().contains(k) && attributes[k]@ == wanted@[k]@
            }) by {
                assert(names_item(list@, list@[n].collection@, list@[n].item@));
                assert(texts(wanted@).dom().contains(k));
            }
        }
        list
    }

    /// The items of one collection that have these attributes.
    pub fn search_collection(&self, collection: &str, wanted: &TextMap<String>) -> (list: Vec<
        ItemRef,
    >)
        ensures
            each_once(list@),
            forall|c: Seq<char>, item: Seq<char>| #[trigger]
                names_item(list@, c, item) <==> c == collection@ && self.content().dom().contains(
                    c,
                ) && hit(c, self.content()[c].items, item, texts(wanted@)),
            forall|n: int, k: Seq<char>|
                #![trigger list@[n], wanted@.dom().contains(k)]
                0 <= n < list@.len() && wanted@.dom().contains(k) ==> {
                    let items = self.collections@[collection@].items@;
                    let attributes = items[list@[n].item@].attributes@;
                    attributes.dom().contains(k) && attributes[k]@ == wanted@[k]@
                },
    {
        let mut list: Vec<ItemRef> = Vec::new();
        if let Some(found) = self.collections.get(collection) {
            add_hits(&mut list, collection, &found.items, wanted);
        }
        proof {
            assert forall|n: int, k: Seq<char>|
                #![trigger list@[n], wanted@.dom().contains(k)]
                0 <= n < list@.len() && wanted@.dom().contains(k) implies ({
                let items = self.collections@[collection@].items@;
                let attributes = items[list@[n].item@].attributes@;
                attributes.dom().contains(k) && attributes[k]@ == wanted@[k]@
            }) by {
                assert(names_item(list@, list@[n].collection@, list@[n].item@));
                assert(texts(wanted@).dom().contains(k));
            }
        }
        list
    }

    /// The items of a collection that are not deleted.
    pub fn items(&self, collection: &str) -> (list: Vec<ItemRef>)
        ensures
            each_once(list@),
            forall|c: Seq<char>, item: Seq<char>| #[trigger]
                names_item(list@, c, item) <==> c == collection@ && self.content().dom().contains(
                    c,
                ) && hit(c, self.content()[c].items, item, Map::empty()),
    {
        let all: TextMap<String> = TextMap::new();
        assert(texts(all@) =~= Map::<Seq<char>, Seq<char>>::empty());
        self.search_collection(collection, &all)
    }

    /// The collections that are not deleted and have an object path, each
    /// once.
    pub fn collection_ids(&self) -> (list: Vec<String>)
        ensures
            forall|a: int, b: int|
                0 <= a < b < list@.len() ==> (#[trigger] list@[a])@ != (#[trigger] list@[b])@,
            forall|c: Seq<char>| #[trigger]
                listed(list@, c) <==> self.content().dom().contains(c) && !self.content()[c].deleted
                    && crate::objects::valid_object_path(crate::objects::collection_path_of(c)),
    {
        let keys = self.collections.keys();
        let mut list: Vec<String> = Vec::new();
        let mut i: usize = 0;
        while i < keys.len()
            invariant
                i <= keys@.len(),
                forall|k: int|
                    0 <= k < keys@.len() ==> self.collections@.dom().contains(
                        (#[trigger] keys@[k])@,
                    ),
                forall|a: int, b: int|
                    0 <= a < b < keys@.len() ==> (#[trigger] keys@[a])@ != (#[trigger] keys@[b])@,
                forall|a: int, b: int|
                    0 <= a < b < list@.len() ==> (#[trigger] list@[a])@ != (#[trigger] list@[b])@,
                forall|c: Seq<char>| #[trigger]
                    listed(list@, c) <==> crate::textmap::first_keys(keys@, i as int).contains(c)
                        && self.content().dom().contains(c) && !self.content()[c].deleted
                        && crate::objects::valid_object_path(
                        crate::objects::collection_path_of(c),
                    ),
            decreases keys@.len() - i,
        {
            let key: &str = keys[i].as_str();
            let ghost now = list@;
            proof {
                crate::textmap::next_key_is_new(keys@, i as int);
                assert(!listed(now, key@));
            }
            if let Some(collection) = self.collections.get(key) {
                if !collection.deleted && is_object_path(collection_path(key).as_str()) {
                    list.push(key.to_owned());
                    proof {
                        assert(list@.drop_last() =~= now);
                        one_more_is_listed(now, list@, key@);
                    }
                }
            }
            i = i + 1;
        }
        proof {
            crate::textmap::all_keys_are_the_domain(self.collections@, keys@);
        }
        list
    }
}

/// The list holds a text.
pub open spec fn listed(list: Seq<String>, text: Seq<char>) -> bool {
    exists|i: int| 0 <= i < list.len() && (#[trigger] list[i])@ == text
}

proof fn one_more_is_listed(before: Seq<String>, now: Seq<String>, text: Seq<char>)
    requires
        now.len() == before.len() + 1,
        now.drop_last() == before,
        now.last()@ == text,
    ensures
        forall|c: Seq<char>| #[trigger] listed(now, c) <==> listed(before, c) || c == text,
        !listed(before, text) ==> forall|i: int|
            0 <= i < before.len() ==> (#[trigger] now[i])@ != text,
{
    assert forall|c: Seq<char>| #[trigger] listed(now, c) <==> listed(before, c) || c == text by {
        if listed(before, c) {
            let k = choose|k: int| 0 <= k < before.len() && (#[trigger] before[k])@ == c;
            assert(now[k] == before[k]);
        }
        if c == text {
            assert(now[now.len() - 1]@ == c);
        }
        if listed(now, c) {
            let k = choose|k: int| 0 <= k < now.len() && (#[trigger] now[k])@ == c;
            if k < before.len() {
                assert(before[k] == now[k]);
            }
        }
    }
    assert forall|i: int| 0 <= i < before.len() implies now[i] == before[i] by {}
    if !listed(before, text) {
        assert forall|i: int| 0 <= i < before.len() implies (#[trigger] now[i])@ != text by {
            assert(now[i] == before[i]);
        }
    }
}

// ---------------------------------------------------------------------------
// Changes
// ---------------------------------------------------------------------------

/// The collections after the items of one changed.
pub open spec fn with_items(
    content: Map<Seq<char>, CollectionContent>,
    collection: Seq<char>,
    items: Map<Seq<char>, ItemContent>,
) -> Map<Seq<char>, CollectionContent> {
    content.insert(collection, CollectionContent { items, ..content[collection] })
}

/// There is such an item, deleted or not.
pub open spec fn has_item(
    content: Map<Seq<char>, CollectionContent>,
    collection: Seq<char>,
    item: Seq<char>,
) -> bool {
    content.dom().contains(collection) && content[collection].items.dom().contains(item)
}

/// The collections after one item changed.
pub open spec fn with_item(
    content: Map<Seq<char>, CollectionContent>,
    collection: Seq<char>,
    item: Seq<char>,
    new: ItemContent,
) -> Map<Seq<char>, CollectionContent> {
    with_items(content, collection, content[collection].items.insert(item, new))
}

impl SecretState {
    /// Only the collections differ.
    pub open spec fn same_but_content(self, other: SecretState) -> bool {
        self.unlocked == other.unlocked && self.sessions@ == other.sessions@
    }

    fn take_item(&mut self, collection: &str, item: &str) -> (taken: Option<ItemRt>)
        ensures
            final(self).same_but_content(*old(self)),
            match taken {
                Some(taken) => {
                    &&& has_item(old(self).content(), collection@, item@)
                    &&& taken@ == old(self).content()[collection@].items[item@]
                    &&& final(self).content() == with_items(
                        old(self).content(),
                        collection@,
                        old(self).content()[collection@].items.remove(item@),
                    )
                },
                None => !has_item(old(self).content(), collection@, item@) && final(self).content() == old(self).content(),
            },
    {
        let ghost before = self.content();
        let present: bool = match self.collections.get(collection) {
            Some(found) => found.items.contains(item),
            None => false,
        };
        if !present {
            return None;
        }
        match self.collections.remove(collection) {
            Some(found) => {
                let mut found = found;
                let ghost items = item_contents(found.items@);
                let taken = found.items.remove(item);
                assert(item_contents(found.items@) =~= items.remove(item@));
                self.collections.insert(collection, found);
                assert(self.content() =~= with_items(before, collection@, items.remove(item@)));
                taken
            },
            None => None,
        }
    }

    fn put_item(&mut self, collection: &str, item: &str, new: ItemRt)
        requires
            old(self).content().dom().contains(collection@),
        ensures
            final(self).same_but_content(*old(self)),
            final(self).content() == with_item(old(self).content(), collection@, item@, new@),
    {
        let ghost before = self.content();
        if let Some(found) = self.collections.remove(collection) {
            let mut found = found;
            let ghost items = item_contents(found.items@);
            found.items.insert(item, new);
            assert(item_contents(found.items@) =~= items.insert(item@, new@));
            self.collections.insert(collection, found);
            assert(self.content() =~= with_item(before, collection@, item@, new@));
        }
    }
}

/// The item without being there any more.
pub open spec fn tombstone(item: ItemContent) -> ItemContent {
    ItemContent { deleted: true, ..item }
}

/// The collections after an item was deleted.
pub open spec fn item_deleted(
    content: Map<Seq<char>, CollectionContent>,
    collection: Seq<char>,
    item: Seq<char>,
) -> Map<Seq<char>, CollectionContent> {
    if has_item(content, collection, item) {
        with_item(content, collection, item, tombstone(content[collection].items[item]))
    } else {
        content
    }
}

/// The collections after one was deleted.
pub open spec fn collection_deleted(
    content: Map<Seq<char>, CollectionContent>,
    collection: Seq<char>,
) -> Map<Seq<char>, CollectionContent> {
    if content.dom().contains(collection) {
        content.insert(collection, CollectionContent { deleted: true, ..content[collection] })
    } else {
        content
    }
}

impl SecretState {
    /// Deletes an item. Deleting an unknown one changes nothing.
    pub fn delete_item(&mut self, collection: &str, item: &str) -> (r: Result<(), StoreError>)
        ensures
            final(self).same_but_content(*old(self)),
            match r {
                Ok(_) => old(self).unlocked && final(self).content() == item_deleted(
                    old(self).content(),
                    collection@,
                    item@,
                ),
                Err(e) => !old(self).unlocked && e is IsLocked && final(self).content() == old(self).content(),
            },
    {
        if !self.unlocked {
            return Err(StoreError::IsLocked);
        }
        let ghost before = self.content();
        if let Some(taken) = self.take_item(collection, item) {
            let ghost old_item = taken@;
            let dead = ItemRt { deleted: true, ..taken };
            assert(dead@ == tombstone(old_item));
            self.put_item(collection, item, dead);
            assert(self.content() =~= item_deleted(before, collection@, item@)) by {
                assert(before[collection@].items.remove(item@).insert(item@, tombstone(old_item))
                    =~= before[collection@].items.insert(item@, tombstone(old_item)));
            }
        }
        Ok(())
    }

    /// Deletes a collection: the ids of the items that were in it, each once.
    /// Deleting an unknown one changes nothing.
    pub fn delete_collection(&mut self, collection: &str) -> (r: Result<Vec<String>, StoreError>)
        ensures
            final(self).same_but_content(*old(self)),
            match r {
                Ok(ids) => {
                    &&& old(self).unlocked
                    &&& final(self).content() == collection_deleted(
                        old(self).content(),
                        collection@,
                    )
                    &&& forall|a: int, b: int|
                        0 <= a < b < ids@.len() ==> (#[trigger] ids@[a])@ != (#[trigger] ids@[b])@
                    &&& forall|item: Seq<char>| #[trigger]
                        listed(ids@, item) <==> has_item(old(self).content(), collection@, item)
                },
                Err(e) => !old(self).unlocked && e is IsLocked && final(self).content() == old(self).content(),
            },
    {
        if !self.unlocked {
            return Err(StoreError::IsLocked);
        }
        let ghost before = self.content();
        match self.collections.remove(collection) {
            Some(found) => {
                let mut found = found;
                let ids = found.items.keys();
                assert forall|item: Seq<char>| #[trigger] listed(ids@, item) <==> has_item(
                    before,
                    collection@,
                    item,
                ) by {
                    if has_item(before, collection@, item) {
                        assert(found.items@.dom().contains(item));
                    }
                }
                found.deleted = true;
                self.collections.insert(collection, found);
                assert(self.content() =~= collection_deleted(before, collection@));
                Ok(ids)
            },
            None => {
                assert(self.content() =~= before);
                Ok(Vec::new())
            },
        }
    }

    /// Creates a collection under this id, unless there is one, deleted or
    /// not: whether it was created.
    pub fn create_collection(&mut self, id: &str, label: &str) -> (r: Result<bool, StoreError>)
        ensures
            final(self).same_but_content(*old(self)),
            match r {
                Ok(created) => old(self).unlocked && created == !old(self).content().dom().contains(id@) && final(self).content() == (if created {
                    old(self).content().insert(id@, fresh_collection(label@))
                } else {
                    old(self).content()
                }),
                Err(e) => !old(self).unlocked && e is IsLocked && final(self).content() == old(self).content(),
            },
    {
        if !self.unlocked {
            return Err(StoreError::IsLocked);
        }
        if self.collections.contains(id) {
            return Ok(false);
        }
        let ghost before = self.content();
        let fresh = CollectionRt { label: label.to_owned(), deleted: false, items: TextMap::new() };
        assert(fresh@ =~= fresh_collection(label@)) by {
            assert(item_contents(fresh.items@) =~= Map::<Seq<char>, ItemContent>::empty());
        }
        self.collections.insert(id, fresh);
        assert(self.content() =~= before.insert(id@, fresh_collection(label@)));
        Ok(true)
    }

    /// Creates the login collection when there is none: whether it did.
    pub fn ensure_login_collection(&mut self) -> (created: bool)
        ensures
            final(self).same_but_content(*old(self)),
            created == (old(self).unlocked && !old(self).content().dom().contains("login"@)),
            final(self).content() == (if created {
                old(self).content().insert("login"@, fresh_collection("Login"@))
            } else {
                old(self).content()
            }),
    {
        match self.create_collection("login", "Login") {
            Ok(created) => created,
            Err(_) => false,
        }
    }
}

/// The id of a new collection: its alias, or a fresh one when it has none.
pub open spec fn new_id(alias: Seq<char>, fresh: Seq<char>) -> Seq<char> {
    if alias.len() == 0 {
        "c"@ + fresh
    } else {
        alias
    }
}

/// The id of a new collection: its alias, or a fresh id when it has none.
pub fn collection_id(alias: &str, fresh: &str) -> (id: String)
    ensures
        id@ == new_id(alias@, fresh@),
{
    if alias.as_bytes().len() == 0 {
        proof {
            empty_text_is_empty(alias@);
        }
        let mut id = "c".to_owned();
        id.append(fresh);
        id
    } else {
        proof {
            empty_text_is_empty(alias@);
        }
        alias.to_owned()
    }
}

proof fn empty_text_is_empty(text: Seq<char>)
    ensures
        vstd::utf8::encode_utf8(text).len() == 0 <==> text.len() == 0,
{
    if text.len() == 0 {
        assert(text =~= Seq::<char>::empty());
    } else {
        vstd::utf8::encode_utf8_decode_utf8(text);
        if vstd::utf8::encode_utf8(text).len() == 0 {
            assert(vstd::utf8::encode_utf8(text) =~= vstd::utf8::encode_utf8(Seq::<char>::empty()));
            vstd::utf8::encode_utf8_decode_utf8(Seq::<char>::empty());
        }
    }
}

/// A collection that was just created.
pub open spec fn fresh_collection(label: Seq<char>) -> CollectionContent {
    CollectionContent { label, deleted: false, items: Map::empty() }
}

// ---------------------------------------------------------------------------
// Labels and attributes
// ---------------------------------------------------------------------------

impl SecretState {
    /// The label of a collection; an unknown one has none.
    pub fn collection_label(&self, collection: &str) -> (label: String)
        ensures
            label@ == (if self.content().dom().contains(collection@) {
                self.content()[collection@].label
            } else {
                Seq::empty()
            }),
    {
        match self.collections.get(collection) {
            Some(found) => found.label.clone(),
            None => String::new(),
        }
    }

    /// Sets the label of a collection: whether there is one, and the change
    /// is to be kept.
    pub fn set_collection_label(&mut self, collection: &str, label: String) -> (changed: bool)
        ensures
            final(self).same_but_content(*old(self)),
            changed == old(self).content().dom().contains(collection@),
            final(self).content() == (if changed {
                old(self).content().insert(
                    collection@,
                    CollectionContent { label: label@, ..old(self).content()[collection@] },
                )
            } else {
                old(self).content()
            }),
    {
        let ghost before = self.content();
        match self.collections.remove(collection) {
            Some(found) => {
                let relabelled = CollectionRt { label, ..found };
                self.collections.insert(collection, relabelled);
                assert(self.content() =~= before.insert(
                    collection@,
                    CollectionContent { label: label@, ..before[collection@] },
                ));
                true
            },
            None => {
                assert(self.content() =~= before);
                false
            },
        }
    }

    fn item(&self, collection: &str, item: &str) -> (found: Option<&ItemRt>)
        ensures
            match found {
                Some(found) => has_item(self.content(), collection@, item@) && found@
                    == self.content()[collection@].items[item@],
                None => !has_item(self.content(), collection@, item@),
            },
    {
        match self.collections.get(collection) {
            Some(found) => found.items.get(item),
            None => None,
        }
    }

    /// The label of an item; an unknown one has none.
    pub fn item_label(&self, collection: &str, item: &str) -> (label: String)
        ensures
            label@ == (if has_item(self.content(), collection@, item@) {
                self.content()[collection@].items[item@].label
            } else {
                Seq::empty()
            }),
    {
        match self.item(collection, item) {
            Some(found) => found.label.clone(),
            None => String::new(),
        }
    }

    /// The attributes of an item; an unknown one has none.
    pub fn item_attributes(&self, collection: &str, item: &str) -> (attributes: TextMap<String>)
        ensures
            texts(attributes@) == (if has_item(self.content(), collection@, item@) {
                self.content()[collection@].items[item@].attributes
            } else {
                Map::empty()
            }),
    {
        match self.item(collection, item) {
            Some(found) => copy_attributes(&found.attributes),
            None => {
                let none: TextMap<String> = TextMap::new();
                assert(texts(none@) =~= Map::<Seq<char>, Seq<char>>::empty());
                none
            },
        }
    }

    /// Sets the label of an item: whether there is one, and the change is to
    /// be kept.
    pub fn set_item_label(&mut self, collection: &str, item: &str, label: String) -> (changed: bool)
        ensures
            final(self).same_but_content(*old(self)),
            changed == has_item(old(self).content(), collection@, item@),
            final(self).content() == (if changed {
                with_item(
                    old(self).content(),
                    collection@,
                    item@,
                    ItemContent {
                        label: label@,
                        ..old(self).content()[collection@].items[item@]
                    },
                )
            } else {
                old(self).content()
            }),
    {
        let ghost before = self.content();
        match self.take_item(collection, item) {
            Some(taken) => {
                let ghost wanted = ItemContent { label: label@, ..taken@ };
                let relabelled = ItemRt { label, ..taken };
                self.put_item(collection, item, relabelled);
                assert(before[collection@].items.remove(item@).insert(item@, wanted)
                    =~= before[collection@].items.insert(item@, wanted));
                assert(self.content() =~= with_item(before, collection@, item@, wanted));
                true
            },
            None => false,
        }
    }

    /// Sets the attributes of an item: whether there is one, and the change
    /// is to be kept.
    pub fn set_item_attributes(
        &mut self,
        collection: &str,
        item: &str,
        attributes: TextMap<String>,
    ) -> (changed: bool)
        ensures
            final(self).same_but_content(*old(self)),
            changed == has_item(old(self).content(), collection@, item@),
            final(self).content() == (if changed {
                with_item(
                    old(self).content(),
                    collection@,
                    item@,
                    ItemContent {
                        attributes: texts(attributes@),
                        ..old(self).content()[collection@].items[item@]
                    },
                )
            } else {
                old(self).content()
            }),
    {
        let ghost before = self.content();
        match self.take_item(collection, item) {
            Some(taken) => {
                let ghost wanted = ItemContent { attributes: texts(attributes@), ..taken@ };
                let changed = ItemRt { attributes, ..taken };
                self.put_item(collection, item, changed);
                assert(before[collection@].items.remove(item@).insert(item@, wanted)
                    =~= before[collection@].items.insert(item@, wanted));
                assert(self.content() =~= with_item(before, collection@, item@, wanted));
                true
            },
            None => false,
        }
    }
}

// ---------------------------------------------------------------------------
// Sessions
// ---------------------------------------------------------------------------

/// The algorithm of an encrypted session.
pub const DH_ALGORITHM: &'static str = "dh-ietf1024-sha256-aes128-cbc-pkcs7";

/// A negotiated session: what the client is told, and how secrets travel.
pub struct Negotiated {
    /// The server's public key; nothing for a plain session.
    pub output: Vec<u8>,
    pub crypto: SessionCrypto,
}

/// Negotiates a session. A plain one needs no input; an encrypted one needs
/// the client's public key (`None` when the input holds no bytes).
pub fn negotiate(algorithm: &str, input: Option<&[u8]>) -> (r: Result<Negotiated, StoreError>)
    ensures
        if algorithm@ == "plain"@ {
            r matches Ok(session) && session.output@ == Seq::<u8>::empty()
                && session.crypto is Plain
        } else if algorithm@ == DH_ALGORITHM@ {
            match input {
                None => r is Err && argument_error(r->Err_0, "invalid DH input"@),
                Some(client) => if crate::transport::acceptable(
                    crate::transport::number(client@),
                ) {
                    r matches Ok(session) && session.crypto is Dh && crate::transport::exchanged(
                        client@,
                        session.output@,
                        session.crypto->Dh_0@,
                    )
                } else {
                    r is Err && argument_error(
                        r->Err_0,
                        "crypto error: "@ + "client DH public key out of valid range"@,
                    )
                },
            }
        } else {
            r is Err && argument_error(
                r->Err_0,
                "unsupported session algorithm '"@ + algorithm@ + "'"@,
            )
        },
        r matches Ok(session) ==> session.crypto.well_formed(),
{
    if same_text(algorithm, "plain") {
        return Ok(Negotiated { output: Vec::new(), crypto: SessionCrypto::Plain });
    }
    if same_text(algorithm, DH_ALGORITHM) {
        return match input {
            None => Err(StoreError::InvalidArgs("invalid DH input".to_owned())),
            Some(client) => match calculate_dh_shared_secret(client) {
                Ok(keys) => Ok(Negotiated { output: keys.0, crypto: SessionCrypto::Dh(keys.1) }),
                Err(error) => Err(StoreError::InvalidArgs(error.text())),
            },
        };
    }
    let mut m = "unsupported session algorithm '".to_owned();
    m.append(algorithm);
    m.append("'");
    Err(StoreError::InvalidArgs(m))
}

impl SecretState {
    /// Only the sessions differ.
    pub open spec fn same_but_sessions(self, other: SecretState) -> bool {
        self.unlocked == other.unlocked && self.content() == other.content()
    }

    /// Opens a session at this path.
    pub fn open_session(&mut self, path: &str, crypto: SessionCrypto)
        requires
            old(self).well_formed(),
            crypto.well_formed(),
        ensures
            final(self).well_formed(),
            final(self).same_but_sessions(*old(self)),
            final(self).sessions@ == old(self).sessions@.insert(path@, crypto),
    {
        self.sessions.insert(path, crypto);
    }

    /// Closes the session at this path.
    pub fn close_session(&mut self, path: &str)
        requires
            old(self).well_formed(),
        ensures
            final(self).well_formed(),
            final(self).same_but_sessions(*old(self)),
            final(self).sessions@ == old(self).sessions@.remove(path@),
    {
        let _ = self.sessions.remove(path);
    }
}

/// A secret as it travels in a session.
pub struct SentSecret {
    pub parameters: Vec<u8>,
    pub value: Vec<u8>,
}

/// The content type of every secret.
pub const CONTENT_TYPE: &'static str = "text/plain";

/// The secret, as it travels, is this one.
pub open spec fn carries(sent: SentSecret, crypto: SessionCrypto, secret: Seq<u8>) -> bool {
    crate::transport::decrypted(crypto, sent.parameters@, sent.value@) == Ok::<
        Seq<u8>,
        Seq<char>,
    >(secret)
}

/// What comes of sending a secret in a session: it is encrypted for
/// transport, as it was sent or failed with this message.
pub open spec fn sending(
    crypto: SessionCrypto,
    secret: Seq<u8>,
    sent: Result<SentSecret, Seq<char>>,
) -> bool {
    crate::transport::encrypted(
        crypto,
        secret,
        match sent {
            Ok(sent) => Ok::<(Seq<u8>, Seq<u8>), Seq<char>>((sent.parameters@, sent.value@)),
            Err(message) => Err::<(Seq<u8>, Seq<u8>), Seq<char>>(message),
        },
    )
}

/// The secret could not be sent: it is too long, or nothing was drawn for its
/// vector.
pub open spec fn send_failed(crypto: SessionCrypto, secret: Seq<u8>) -> bool {
    sending(
        crypto,
        secret,
        Err::<SentSecret, Seq<char>>(crate::transport::unsent(secret)),
    )
}

/// The secret travels like this, and the other side decrypts it.
pub open spec fn sent_as(crypto: SessionCrypto, secret: Seq<u8>, sent: SentSecret) -> bool {
    sending(crypto, secret, Ok::<SentSecret, Seq<char>>(sent)) && carries(sent, crypto, secret)
}

fn send(crypto: &SessionCrypto, secret: &Vec<u8>) -> (r: Result<SentSecret, SecretError>)
    requires
        crypto.well_formed(),
    ensures
        match r {
            Ok(sent) => sent_as(*crypto, secret@, sent),
            Err(e) => send_failed(*crypto, secret@) && crate::secret::crypto_error(
                e,
                crate::transport::unsent(secret@),
            ),
        },
{
    match crypto.encrypt(secret.as_slice()) {
        Ok(travels) => Ok(SentSecret { parameters: travels.0, value: travels.1 }),
        Err(error) => Err(error),
    }
}

impl SecretState {
    /// Hands out the secret of one item in a session.
    pub fn get_secret(&self, collection: &str, item: &str, session: &str) -> (r: Result<
        SentSecret,
        StoreError,
    >)
        requires
            self.well_formed(),
        ensures
            if !self.unlocked {
                r is Err && r->Err_0 is IsLocked
            } else if !self.sessions@.dom().contains(session@) {
                r is Err && argument_error(r->Err_0, "invalid session"@)
            } else if !has_item(self.content(), collection@, item@) {
                r is Err && failure(r->Err_0, "unknown item "@ + item@)
            } else {
                let crypto = self.sessions@[session@];
                let secret = self.content()[collection@].items[item@].secret;
                match r {
                    Ok(sent) => sent_as(crypto, secret, sent),
                    Err(e) => send_failed(crypto, secret) && failure(
                        e,
                        "crypto error: "@ + crate::transport::unsent(secret),
                    ),
                }
            },
    {
        if !self.unlocked {
            return Err(StoreError::IsLocked);
        }
        match self.sessions.get(session) {
            None => Err(StoreError::InvalidArgs("invalid session".to_owned())),
            Some(crypto) => match self.item(collection, item) {
                None => Err(named_failure("unknown item ", item)),
                Some(found) => match send(crypto, &found.secret) {
                    Ok(sent) => Ok(sent),
                    Err(error) => Err(StoreError::Failed(error.text())),
                },
            },
        }
    }

    /// Takes the secret of one item out of a session.
    pub fn set_secret(
        &mut self,
        collection: &str,
        item: &str,
        session: &str,
        sent: &SentSecret,
    ) -> (r: Result<(), StoreError>)
        requires
            old(self).well_formed(),
        ensures
            final(self).well_formed(),
            final(self).same_but_content(*old(self)),
            r is Err ==> final(self).content() == old(self).content(),
            if !old(self).unlocked {
                r is Err && r->Err_0 is IsLocked
            } else if !old(self).sessions@.dom().contains(session@) {
                r is Err && argument_error(r->Err_0, "invalid session"@)
            } else {
                match crate::transport::decrypted(
                    old(self).sessions@[session@],
                    sent.parameters@,
                    sent.value@,
                ) {
                    Err(message) => r is Err && failure(r->Err_0, "crypto error: "@ + message),
                    Ok(secret) => if has_item(old(self).content(), collection@, item@) {
                        r is Ok && final(self).content() == with_item(
                            old(self).content(),
                            collection@,
                            item@,
                            ItemContent {
                                secret,
                                ..old(self).content()[collection@].items[item@]
                            },
                        )
                    } else {
                        r is Err && failure(r->Err_0, "unknown item "@ + item@)
                    },
                }
            },
    {
        if !self.unlocked {
            return Err(StoreError::IsLocked);
        }
        let ghost before = self.content();
        let secret: Vec<u8> = match self.sessions.get(session) {
            None => {
                return Err(StoreError::InvalidArgs("invalid session".to_owned()));
            },
            Some(crypto) => match crypto.decrypt(
                sent.parameters.as_slice(),
                sent.value.as_slice(),
            ) {
                Ok(secret) => secret,
                Err(error) => {
                    return Err(StoreError::Failed(error.text()));
                },
            },
        };
        match self.take_item(collection, item) {
            Some(taken) => {
                let ghost wanted = ItemContent { secret: secret@, ..taken@ };
                let changed = ItemRt { secret, ..taken };
                self.put_item(collection, item, changed);
                assert(before[collection@].items.remove(item@).insert(item@, wanted)
                    =~= before[collection@].items.insert(item@, wanted));
                assert(self.content() =~= with_item(before, collection@, item@, wanted));
                Ok(())
            },
            None => Err(named_failure("unknown item ", item)),
        }
    }
}

// ---------------------------------------------------------------------------
// New items
// ---------------------------------------------------------------------------

/// The items that a new one replaces: those that are not deleted and have
/// the same attributes.
pub open spec fn replaced_by(
    items: Map<Seq<char>, ItemContent>,
    attributes: Map<Seq<char>, Seq<char>>,
) -> Set<Seq<char>> {
    items.dom().filter(
        |item: Seq<char>| !items[item].deleted && items[item].attributes == attributes,
    )
}

/// The items after some of them were deleted.
pub open spec fn tombstoned(items: Map<Seq<char>, ItemContent>, which: Set<Seq<char>>) -> Map<
    Seq<char>,
    ItemContent,
> {
    items.map_entries(
        |item: Seq<char>, content: ItemContent|
            if which.contains(item) {
                tombstone(content)
            } else {
                content
            },
    )
}

/// The items after a new one was added.
pub open spec fn with_new_item(
    items: Map<Seq<char>, ItemContent>,
    id: Seq<char>,
    new: ItemContent,
    replace: bool,
) -> Map<Seq<char>, ItemContent> {
    if replace {
        tombstoned(items, replaced_by(items, new.attributes)).insert(id, new)
    } else {
        items.insert(id, new)
    }
}

/// Deletes the items that a new one replaces: their ids, each once.
fn replace_items(items: &mut TextMap<ItemRt>, attributes: &TextMap<String>) -> (ids: Vec<String>)
    ensures
        item_contents(final(items)@) == tombstoned(
            item_contents(old(items)@),
            replaced_by(item_contents(old(items)@), texts(attributes@)),
        ),
        forall|a: int, b: int|
            0 <= a < b < ids@.len() ==> (#[trigger] ids@[a])@ != (#[trigger] ids@[b])@,
        forall|item: Seq<char>| #[trigger]
            listed(ids@, item) <==> replaced_by(
                item_contents(old(items)@),
                texts(attributes@),
            ).contains(item),
{
    let ghost before = item_contents(items@);
    let ghost which = replaced_by(before, texts(attributes@));
    let keys = items.keys();
    let mut ids: Vec<String> = Vec::new();
    let mut i: usize = 0;
    assert(item_contents(items@) =~= tombstoned(
        before,
        which.intersect(crate::textmap::first_keys(keys@, 0)),
    ));
    while i < keys.len()
        invariant
            i <= keys@.len(),
            which == replaced_by(before, texts(attributes@)),
            forall|k: int| 0 <= k < keys@.len() ==> before.dom().contains((#[trigger] keys@[k])@),
            forall|a: int, b: int|
                0 <= a < b < keys@.len() ==> (#[trigger] keys@[a])@ != (#[trigger] keys@[b])@,
            item_contents(items@) == tombstoned(
                before,
                which.intersect(crate::textmap::first_keys(keys@, i as int)),
            ),
            forall|a: int, b: int|
                0 <= a < b < ids@.len() ==> (#[trigger] ids@[a])@ != (#[trigger] ids@[b])@,
            forall|item: Seq<char>| #[trigger]
                listed(ids@, item) <==> which.contains(item) && crate::textmap::first_keys(
                    keys@,
                    i as int,
                ).contains(item),
        decreases keys@.len() - i,
    {
        let key: &str = keys[i].as_str();
        let ghost now = ids@;
        let ghost current = item_contents(items@);
        proof {
            crate::textmap::next_key_is_new(keys@, i as int);
            assert(!listed(now, key@));
            assert(current[key@] == before[key@]);
        }
        let replaced: bool = match items.get(key) {
            Some(item) => {
                assert(item@ == before[key@]);
                !item.deleted && same_attributes(&item.attributes, attributes)
            },
            None => false,
        };
        assert(replaced == which.contains(key@)) by {
            assert(items@.dom().contains(key@)) by {
                assert(current.dom().contains(key@));
            }
        }
        if replaced {
            if let Some(item) = items.remove(key) {
                let ghost old_item = item@;
                let dead = ItemRt { deleted: true, ..item };
                items.insert(key, dead);
                assert(item_contents(items@) =~= current.insert(key@, tombstone(old_item)));
                ids.push(key.to_owned());
                proof {
                    assert(ids@.drop_last() =~= now);
                    one_more_is_listed(now, ids@, key@);
                }
            }
        }
        i = i + 1;
        assert(item_contents(items@) =~= tombstoned(
            before,
            which.intersect(crate::textmap::first_keys(keys@, i as int)),
        ));
    }
    proof {
        crate::textmap::all_keys_are_the_domain(before, keys@);
        assert(which.intersect(crate::textmap::first_keys(keys@, i as int)) =~= which);
    }
    ids
}

/// A new item.
pub struct NewItem {
    pub label: String,
    pub attributes: TextMap<String>,
}

/// Why a new item is refused, if it is.
pub open spec fn item_refused(
    state: SecretState,
    collection: Seq<char>,
    session: Seq<char>,
    sent: SentSecret,
    error: StoreError,
) -> bool {
    if !state.unlocked {
        error is IsLocked
    } else if !state.sessions@.dom().contains(session) {
        argument_error(error, "invalid session"@)
    } else {
        match crate::transport::decrypted(
            state.sessions@[session],
            sent.parameters@,
            sent.value@,
        ) {
            Err(message) => failure(error, "crypto error: "@ + message),
            Ok(_) => !state.content().dom().contains(collection) && failure(
                error,
                "unknown collection "@ + collection,
            ),
        }
    }
}

impl SecretState {
    /// Adds an item to a collection under a fresh id. When it replaces
    /// others, those that have the same attributes are deleted: their ids,
    /// each once.
    pub fn create_item(
        &mut self,
        collection: &str,
        id: &str,
        new: NewItem,
        session: &str,
        sent: &SentSecret,
        replace: bool,
    ) -> (r: Result<Vec<String>, StoreError>)
        requires
            old(self).well_formed(),
        ensures
            final(self).well_formed(),
            final(self).same_but_content(*old(self)),
            match r {
                Ok(ids) => {
                    let items = old(self).content()[collection@].items;
                    let secret = crate::transport::decrypted(
                        old(self).sessions@[session@],
                        sent.parameters@,
                        sent.value@,
                    );
                    &&& old(self).unlocked
                    &&& old(self).sessions@.dom().contains(session@)
                    &&& secret is Ok
                    &&& old(self).content().dom().contains(collection@)
                    &&& final(self).content() == with_items(
                        old(self).content(),
                        collection@,
                        with_new_item(
                            items,
                            id@,
                            ItemContent {
                                label: new.label@,
                                attributes: texts(new.attributes@),
                                secret: secret->Ok_0,
                                deleted: false,
                            },
                            replace,
                        ),
                    )
                    &&& forall|a: int, b: int|
                        0 <= a < b < ids@.len() ==> (#[trigger] ids@[a])@ != (#[trigger] ids@[b])@
                    &&& forall|item: Seq<char>| #[trigger]
                        listed(ids@, item) <==> replace && replaced_by(
                            items,
                            texts(new.attributes@),
                        ).contains(item)
                },
                Err(e) => final(self).content() == old(self).content() && item_refused(
                    *old(self),
                    collection@,
                    session@,
                    *sent,
                    e,
                ),
            },
    {
        if !self.unlocked {
            return Err(StoreError::IsLocked);
        }
        let ghost before = self.content();
        let secret: Vec<u8> = match self.sessions.get(session) {
            None => {
                return Err(StoreError::InvalidArgs("invalid session".to_owned()));
            },
            Some(crypto) => match crypto.decrypt(
                sent.parameters.as_slice(),
                sent.value.as_slice(),
            ) {
                Ok(secret) => secret,
                Err(error) => {
                    return Err(StoreError::Failed(error.text()));
                },
            },
        };
        match self.collections.remove(collection) {
            None => {
                assert(self.content() =~= before);
                Err(named_failure("unknown collection ", collection))
            },
            Some(found) => {
                let mut found = found;
                let ghost items = item_contents(found.items@);
                let ids: Vec<String> = if replace {
                    replace_items(&mut found.items, &new.attributes)
                } else {
                    Vec::new()
                };
                let ghost current = item_contents(found.items@);
                let item = ItemRt {
                    label: new.label,
                    attributes: new.attributes,
                    secret,
                    deleted: false,
                };
                let ghost content = item@;
                found.items.insert(id, item);
                assert(item_contents(found.items@) =~= current.insert(id@, content));
                self.collections.insert(collection, found);
                assert(self.content() =~= with_items(
                    before,
                    collection@,
                    with_new_item(items, id@, content, replace),
                ));
                Ok(ids)
            },
        }
    }
}

// ---------------------------------------------------------------------------
// Batches and aliases
// ---------------------------------------------------------------------------

/// The secret that a path leads to: the path names an item that is not
/// deleted, in a collection that is not deleted.
pub open spec fn secret_at(content: Map<Seq<char>, CollectionContent>, path: Seq<char>) -> Option<
    Seq<u8>,
> {
    match crate::objects::named_item(path) {
        Some((collection, item)) => if has_item(content, collection, item)
            && !content[collection].deleted && !content[collection].items[item].deleted {
            Some(content[collection].items[item].secret)
        } else {
            None
        },
        None => None,
    }
}

/// The path is among the first ones, leads to a secret, and is an object
/// path.
pub open spec fn answered(
    content: Map<Seq<char>, CollectionContent>,
    paths: Seq<String>,
    n: int,
    path: Seq<char>,
) -> bool {
    &&& crate::textmap::first_keys(paths, n).contains(path)
    &&& secret_at(content, path) is Some
    &&& crate::objects::valid_object_path(path)
}

impl SecretState {
    fn find_secret(&self, path: &str) -> (found: Option<&Vec<u8>>)
        ensures
            match found {
                Some(secret) => secret_at(self.content(), path@) == Some(secret@),
                None => secret_at(self.content(), path@) is None,
            },
    {
        match item_of_path(path) {
            None => None,
            Some(named) => {
                let collection: &str = named.0.as_str();
                let item: &str = named.1.as_str();
                match self.collections.get(collection) {
                    None => None,
                    Some(found) => {
                        assert(found@ == self.content()[collection@]);
                        if found.deleted {
                            return None;
                        }
                        match found.items.get(item) {
                            None => None,
                            Some(one) => {
                                assert(one@ == self.content()[collection@].items[item@]);
                                assert(has_item(self.content(), collection@, item@));
                                if one.deleted {
                                    return None;
                                }
                                Some(&one.secret)
                            },
                        }
                    },
                }
            },
        }
    }

    /// Hands out the secrets of many items in a session, by path. Paths that
    /// lead to no secret, and secrets that cannot be encrypted, are skipped.
    pub fn get_secrets(&self, paths: &Vec<String>, session: &str) -> (r: Result<
        TextMap<SentSecret>,
        StoreError,
    >)
        requires
            self.well_formed(),
        ensures
            if !self.sessions@.dom().contains(session@) {
                r is Err && argument_error(r->Err_0, "invalid session"@)
            } else {
                &&& r is Ok
                &&& forall|path: Seq<char>| #[trigger]
                    (r->Ok_0)@.dom().contains(path) ==> answered(
                        self.content(),
                        paths@,
                        paths@.len() as int,
                        path,
                    ) && sent_as(
                        self.sessions@[session@],
                        secret_at(self.content(), path)->0,
                        (r->Ok_0)@[path],
                    )
                &&& forall|path: Seq<char>| #[trigger]
                    answered(self.content(), paths@, paths@.len() as int, path) ==> (
                    r->Ok_0)@.dom().contains(path) || send_failed(
                        self.sessions@[session@],
                        secret_at(self.content(), path)->0,
                    )
                &&& forall|path: Seq<char>|
                    listed(paths@, path) && crate::objects::valid_object_path(path) && secret_at(
                        self.content(),
                        path,
                    ) is Some ==> #[trigger] (r->Ok_0)@.dom().contains(path) || send_failed(
                        self.sessions@[session@],
                        secret_at(self.content(), path)->0,
                    )
            },
    {
        match self.sessions.get(session) {
            None => Err(StoreError::InvalidArgs("invalid session".to_owned())),
            Some(crypto) => {
                let mut sent: TextMap<SentSecret> = TextMap::new();
                let mut i: usize = 0;
                while i < paths.len()
                    invariant
                        i <= paths@.len(),
                        self.sessions@.dom().contains(session@),
                        *crypto == self.sessions@[session@],
                        crypto.well_formed(),
                        forall|path: Seq<char>| #[trigger]
                            sent@.dom().contains(path) ==> answered(
                                self.content(),
                                paths@,
                                i as int,
                                path,
                            ) && sent_as(
                                *crypto,
                                secret_at(self.content(), path)->0,
                                sent@[path],
                            ),
                        forall|path: Seq<char>| #[trigger]
                            answered(self.content(), paths@, i as int, path)
                                ==> sent@.dom().contains(path) || send_failed(
                                *crypto,
                                secret_at(self.content(), path)->0,
                            ),
                    decreases paths@.len() - i,
                {
                    let path: &str = paths[i].as_str();
                    if let Some(secret) = self.find_secret(path) {
                        if is_object_path(path) {
                            match send(crypto, secret) {
                                Ok(one) => {
                                    sent.insert(path, one);
                                },
                                Err(_) => {},
                            }
                        }
                    }
                    assert forall|other: Seq<char>| #[trigger]
                        answered(self.content(), paths@, i + 1, other) implies sent@.dom().contains(
                        other,
                    ) || send_failed(*crypto, secret_at(self.content(), other)->0) by {
                        if other != path@ {
                            assert(answered(self.content(), paths@, i as int, other));
                        }
                    }
                    i = i + 1;
                }
                proof {
                    assert forall|path: Seq<char>|
                        listed(paths@, path) && crate::objects::valid_object_path(path)
                            && secret_at(self.content(), path) is Some implies #[trigger] sent@.dom().contains(
                        path,
                    ) || send_failed(*crypto, secret_at(self.content(), path)->0) by {
                        crate::textmap::first_keys_are(paths@, i as int, path);
                        assert(answered(self.content(), paths@, i as int, path));
                    }
                }
                Ok(sent)
            },
        }
    }

    /// The path of the collection that an alias stands for: the one of that
    /// name, the login collection for the default one, or none.
    pub fn read_alias(&self, alias: &str) -> (r: Result<String, StoreError>)
        ensures
            ({
                let target = alias_target(self.content(), alias@);
                let path = crate::objects::collection_path_of(target);
                if !self.content().dom().contains(target) {
                    r matches Ok(none) && none@ == crate::objects::NO_OBJECT@
                } else if crate::objects::valid_object_path(path) {
                    r matches Ok(found) && found@ == path
                } else {
                    r is Err && argument_error(r->Err_0, "Invalid object path"@)
                }
            }),
    {
        let target: &str = if same_text(alias, "default") && !self.collections.contains("default") {
            "login"
        } else {
            alias
        };
        if !self.collections.contains(target) {
            return Ok(crate::objects::NO_OBJECT.to_owned());
        }
        let path = collection_path(target);
        if is_object_path(path.as_str()) {
            return Ok(path);
        }
        Err(StoreError::InvalidArgs("Invalid object path".to_owned()))
    }
}

/// The collection that an alias stands for.
pub open spec fn alias_target(
    content: Map<Seq<char>, CollectionContent>,
    alias: Seq<char>,
) -> Seq<char> {
    if alias == "default"@ && !content.dom().contains("default"@) {
        "login"@
    } else {
        alias
    }
}

/// The objects that an unlock reports: all that were asked for, or none when
/// the prompt was dismissed.
pub fn complete_unlock(objects: Vec<String>, unlocked: bool) -> (r: (bool, Vec<String>))
    ensures
        r.0 == !unlocked,
        r.1@ == (if unlocked {
            objects@
        } else {
            Seq::empty()
        }),
{
    if unlocked {
        (false, objects)
    } else {
        (true, Vec::new())
    }
}

// ---------------------------------------------------------------------------
// On disk
// ---------------------------------------------------------------------------

/// What a kept item holds.
pub open spec fn kept_item(item: ItemData) -> ItemContent {
    ItemContent {
        label: item.label@,
        attributes: texts(item.attributes@),
        secret: item.secret@,
        deleted: false,
    }
}

/// The items that a list keeps; later ones win.
pub open spec fn kept_items(items: Seq<ItemData>) -> Map<Seq<char>, ItemContent>
    decreases items.len(),
{
    if items.len() == 0 {
        Map::empty()
    } else {
        kept_items(items.drop_last()).insert(items.last().id@, kept_item(items.last()))
    }
}

/// What a kept collection holds.
pub open spec fn kept_collection(collection: CollectionData) -> CollectionContent {
    CollectionContent {
        label: collection.label@,
        deleted: false,
        items: kept_items(collection.items@),
    }
}

/// The collections that a list keeps; later ones win.
pub open spec fn kept_collections(collections: Seq<CollectionData>) -> Map<
    Seq<char>,
    CollectionContent,
>
    decreases collections.len(),
{
    if collections.len() == 0 {
        Map::empty()
    } else {
        kept_collections(collections.drop_last()).insert(
            collections.last().id@,
            kept_collection(collections.last()),
        )
    }
}

/// The items that are not deleted.
pub open spec fn live_items(items: Map<Seq<char>, ItemContent>) -> Map<Seq<char>, ItemContent> {
    items.restrict(items.dom().filter(|item: Seq<char>| !items[item].deleted))
}

/// The collections that are not deleted, with the items that are not
/// deleted.
pub open spec fn live(content: Map<Seq<char>, CollectionContent>) -> Map<
    Seq<char>,
    CollectionContent,
> {
    content.restrict(
        content.dom().filter(|collection: Seq<char>| !content[collection].deleted),
    ).map_values(
        |collection: CollectionContent|
            CollectionContent { items: live_items(collection.items), ..collection },
    )
}

fn keep_items(items: &TextMap<ItemRt>) -> (kept: Vec<ItemData>)
    ensures
        kept_items(kept@) == live_items(item_contents(items@)),
{
    let ghost content = item_contents(items@);
    let keys = items.keys();
    let mut kept: Vec<ItemData> = Vec::new();
    let mut i: usize = 0;
    assert(kept_items(kept@) =~= live_items(content).restrict(
        crate::textmap::first_keys(keys@, 0),
    ));
    while i < keys.len()
        invariant
            i <= keys@.len(),
            content == item_contents(items@),
            forall|k: int| 0 <= k < keys@.len() ==> items@.dom().contains((#[trigger] keys@[k])@),
            kept_items(kept@) == live_items(content).restrict(
                crate::textmap::first_keys(keys@, i as int),
            ),
        decreases keys@.len() - i,
    {
        let key: &str = keys[i].as_str();
        let ghost before = kept@;
        if let Some(item) = items.get(key) {
            assert(item@ == content[key@]);
            if !item.deleted {
                let one = ItemData {
                    id: key.to_owned(),
                    label: item.label.clone(),
                    attributes: copy_attributes(&item.attributes),
                    secret: vstd::slice::slice_to_vec(item.secret.as_slice()),
                };
                assert(kept_item(one) =~= content[key@]);
                kept.push(one);
                assert(kept@.drop_last() =~= before);
                assert(kept_items(kept@) =~= kept_items(before).insert(key@, content[key@]));
            }
        }
        i = i + 1;
        assert(kept_items(kept@) =~= live_items(content).restrict(
            crate::textmap::first_keys(keys@, i as int),
        ));
    }
    proof {
        crate::textmap::all_keys_are_the_domain(items@, keys@);
        assert(kept_items(kept@) =~= live_items(content));
    }
    kept
}

fn load_items(kept: &Vec<ItemData>) -> (items: TextMap<ItemRt>)
    ensures
        item_contents(items@) == kept_items(kept@),
{
    let mut items: TextMap<ItemRt> = TextMap::new();
    let mut i: usize = 0;
    assert(kept@.take(0) =~= Seq::<ItemData>::empty());
    assert(item_contents(items@) =~= kept_items(kept@.take(0)));
    while i < kept.len()
        invariant
            i <= kept@.len(),
            item_contents(items@) == kept_items(kept@.take(i as int)),
        decreases kept@.len() - i,
    {
        let ghost before = item_contents(items@);
        let one = &kept[i];
        let item = ItemRt {
            label: one.label.clone(),
            attributes: copy_attributes(&one.attributes),
            secret: vstd::slice::slice_to_vec(one.secret.as_slice()),
            deleted: false,
        };
        let ghost content = item@;
        assert(content =~= kept_item(*one));
        items.insert(one.id.as_str(), item);
        assert(item_contents(items@) =~= before.insert(one.id@, content));
        assert(kept@.take(i + 1).drop_last() =~= kept@.take(i as int));
        assert(kept@.take(i + 1).last() == *one);
        i = i + 1;
    }
    assert(kept@.take(i as int) =~= kept@);
    items
}

impl SecretState {
    /// What is kept on disk: the collections and items that are not deleted.
    pub fn sync_to_vault(&self) -> (data: VaultData)
        ensures
            kept_collections(data.collections@) == live(self.content()),
    {
        let ghost content = self.content();
        let keys = self.collections.keys();
        let mut kept: Vec<CollectionData> = Vec::new();
        let mut i: usize = 0;
        assert(kept_collections(kept@) =~= live(content).restrict(
            crate::textmap::first_keys(keys@, 0),
        ));
        while i < keys.len()
            invariant
                i <= keys@.len(),
                content == self.content(),
                forall|k: int|
                    0 <= k < keys@.len() ==> self.collections@.dom().contains(
                        (#[trigger] keys@[k])@,
                    ),
                kept_collections(kept@) == live(content).restrict(
                    crate::textmap::first_keys(keys@, i as int),
                ),
            decreases keys@.len() - i,
        {
            let key: &str = keys[i].as_str();
            let ghost before = kept@;
            if let Some(collection) = self.collections.get(key) {
                assert(collection@ == content[key@]);
                if !collection.deleted {
                    let one = CollectionData {
                        id: key.to_owned(),
                        label: collection.label.clone(),
                        items: keep_items(&collection.items),
                    };
                    assert(kept_collection(one) =~= live(content)[key@]);
                    kept.push(one);
                    assert(kept@.drop_last() =~= before);
                    assert(kept_collections(kept@) =~= kept_collections(before).insert(
                        key@,
                        live(content)[key@],
                    ));
                }
            }
            i = i + 1;
            assert(kept_collections(kept@) =~= live(content).restrict(
                crate::textmap::first_keys(keys@, i as int),
            ));
        }
        proof {
            crate::textmap::all_keys_are_the_domain(self.collections@, keys@);
            assert(kept_collections(kept@) =~= live(content));
        }
        VaultData { collections: kept }
    }

    /// Takes over what is kept on disk.
    pub fn populate(&mut self, data: &VaultData)
        ensures
            final(self).same_but_content(*old(self)),
            final(self).content() == kept_collections(data.collections@),
    {
        let mut collections: TextMap<CollectionRt> = TextMap::new();
        let mut i: usize = 0;
        let ghost kept = data.collections@;
        assert(kept.take(0) =~= Seq::<CollectionData>::empty());
        assert(collection_contents(collections@) =~= kept_collections(kept.take(0)));
        while i < data.collections.len()
            invariant
                i <= kept.len(),
                kept == data.collections@,
                collection_contents(collections@) == kept_collections(kept.take(i as int)),
            decreases kept.len() - i,
        {
            let ghost before = collection_contents(collections@);
            let one = &data.collections[i];
            let collection = CollectionRt {
                label: one.label.clone(),
                deleted: false,
                items: load_items(&one.items),
            };
            let ghost content = collection@;
            assert(content =~= kept_collection(*one));
            collections.insert(one.id.as_str(), collection);
            assert(collection_contents(collections@) =~= before.insert(one.id@, content));
            assert(kept.take(i + 1).drop_last() =~= kept.take(i as int));
            assert(kept.take(i + 1).last() == *one);
            i = i + 1;
        }
        assert(kept.take(i as int) =~= kept);
        self.collections = collections;
    }
}

// ---------------------------------------------------------------------------
// Laws
// ---------------------------------------------------------------------------

/// What is kept on disk and taken over again is what was not deleted: a
/// second round changes nothing.
pub proof fn keeping_is_stable(content: Map<Seq<char>, CollectionContent>)
    ensures
        live(live(content)) == live(content),
{
    let once = live(content);
    assert forall|c: Seq<char>| once.dom().contains(c) implies live(once)[c] == once[c] by {
        assert(live_items(once[c].items) =~= once[c].items);
    }
    assert(live(once) =~= once);
}

/// What a store keeps comes back: the file that holds the text of what was
/// kept is read under the same key, and whatever way of reading texts gives
/// back what this text was written from, a store populated from it holds
/// every collection and item that was not deleted, and nothing else.
pub proof fn saved_stores_come_back(
    content: Map<Seq<char>, CollectionContent>,
    kept: VaultData,
    read: spec_fn(Seq<u8>) -> Seq<CollectionData>,
    key: Seq<u8>,
    plaintext: Seq<u8>,
    file: Seq<u8>,
    r: Result<Option<Vec<u8>>, SecretError>,
)
    requires
        kept_collections(kept.collections@) == live(content),
        read(plaintext) == kept.collections@,
        crate::vault::opened(key, file) == Some(plaintext),
        crate::vault::load_result(key, Some(file), r),
    ensures
        r matches Ok(Some(loaded)) && loaded@ == plaintext && kept_collections(read(loaded@))
            == live(content),
        live(kept_collections(read(plaintext))) == live(content),
{
    keeping_is_stable(content);
}

/// A deleted item is not kept, not found by any search, and not handed out.
pub proof fn deleted_items_stay_away(
    content: Map<Seq<char>, CollectionContent>,
    collection: Seq<char>,
    item: Seq<char>,
    wanted: Map<Seq<char>, Seq<char>>,
    path: Seq<char>,
)
    ensures
        ({
            let after = item_deleted(content, collection, item);
            &&& !has_item(live(after), collection, item)
            &&& !found(after, collection, item, wanted)
            &&& crate::objects::named_item(path) == Some((collection, item)) ==> secret_at(
                after,
                path,
            ) is None
        }),
{
}

/// A deleted collection takes its items with it: it is not kept, and no item
/// of it is found by a search or handed out.
pub proof fn deleted_collections_stay_away(
    content: Map<Seq<char>, CollectionContent>,
    collection: Seq<char>,
    item: Seq<char>,
    wanted: Map<Seq<char>, Seq<char>>,
    path: Seq<char>,
)
    ensures
        ({
            let after = collection_deleted(content, collection);
            &&& !live(after).dom().contains(collection)
            &&& !found(after, collection, item, wanted)
            &&& crate::objects::named_item(path) == Some((collection, item)) ==> secret_at(
                after,
                path,
            ) is None
        }),
{
}

/// Deleting an item leaves every other item as it was.
pub proof fn deletions_are_independent(
    content: Map<Seq<char>, CollectionContent>,
    collection: Seq<char>,
    item: Seq<char>,
    other_collection: Seq<char>,
    other: Seq<char>,
)
    requires
        (collection, item) != (other_collection, other),
    ensures
        ({
            let after = item_deleted(content, collection, item);
            &&& has_item(after, other_collection, other) == has_item(
                content,
                other_collection,
                other,
            )
            &&& has_item(content, other_collection, other) ==> after[other_collection].items[other]
                == content[other_collection].items[other]
        }),
{
}

/// A new item is found by a search for its own attributes, provided that its
/// collection is not deleted and it has an object path; and when it replaces
/// others, it is the only one of its collection with exactly these
/// attributes.
pub proof fn new_items_are_found(
    content: Map<Seq<char>, CollectionContent>,
    collection: Seq<char>,
    id: Seq<char>,
    new: ItemContent,
    replace: bool,
    other: Seq<char>,
)
    requires
        content.dom().contains(collection),
        !content[collection].deleted,
        !new.deleted,
        crate::objects::valid_object_path(crate::objects::item_path_of(collection, id)),
    ensures
        ({
            let items = with_new_item(content[collection].items, id, new, replace);
            let after = with_items(content, collection, items);
            &&& found(after, collection, id, new.attributes)
            &&& replace && other != id && items.dom().contains(other) && !items[other].deleted
                ==> items[other].attributes != new.attributes
        }),
{
}

/// What is stored in an item is what is handed out of it again: the secret
/// of an item is the one that was last set.
pub proof fn stored_secrets_are_handed_out(
    content: Map<Seq<char>, CollectionContent>,
    collection: Seq<char>,
    item: Seq<char>,
    secret: Seq<u8>,
    path: Seq<char>,
)
    requires
        has_item(content, collection, item),
        !content[collection].deleted,
        !content[collection].items[item].deleted,
        crate::objects::named_item(path) == Some((collection, item)),
    ensures
        secret_at(
            with_item(
                content,
                collection,
                item,
                ItemContent { secret, ..content[collection].items[item] },
            ),
            path,
        ) == Some(secret),
{
}

} // verus!
