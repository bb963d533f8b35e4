//! What the secret service does with calls that need an open vault, and
//! which objects it serves.
//!
//! A call that arrives while the vault is locked is put behind the password
//! prompt and completed when the prompt has been answered.

use vstd::prelude::*;
use vstd::string::*;

use crate::objects::{collection_path, is_object_path, item_path};
use crate::options::{get_text, Options};
use crate::secret_store::{
    collection_id, complete_unlock, CollectionContent, ItemRt, SecretState, StoreError,
};
use crate::text::same_text;
use crate::textmap::TextMap;

verus! {

// ---------------------------------------------------------------------------
// Labels
// ---------------------------------------------------------------------------

/// The property that holds the label of a new collection.
pub const COLLECTION_LABEL: &'static str = "org.freedesktop.Secret.Collection.Label";

/// The property that holds the label of a new item.
pub const ITEM_LABEL: &'static str = "org.freedesktop.Secret.Item.Label";

/// The text of a property, or a default.
pub open spec fn text_or(properties: Options, key: Seq<char>, default: Seq<char>) -> Seq<char> {
    match crate::options::text_at(properties@, key) {
        Some(text) => text,
        None => default,
    }
}

fn label_or(properties: &Options, key: &str, default: &str) -> (label: String)
    ensures
        label@ == text_or(*properties, key@, default@),
{
    match get_text(properties, key) {
        Some(label) => label,
        None => default.to_owned(),
    }
}

/// The label of a new collection.
pub fn new_collection_label(properties: &Options) -> (label: String)
    ensures
        label@ == text_or(*properties, COLLECTION_LABEL@, "New Collection"@),
{
    label_or(properties, COLLECTION_LABEL, "New Collection")
}

/// The label of a new item.
pub fn new_item_label(properties: &Options) -> (label: String)
    ensures
        label@ == text_or(*properties, ITEM_LABEL@, "New Item"@),
{
    label_or(properties, ITEM_LABEL, "New Item")
}

// ---------------------------------------------------------------------------
// Calls that need an open vault
// ---------------------------------------------------------------------------

/// A call that waits for the password prompt.
pub enum UnlockKind {
    /// Unlock these objects.
    Unlock(Vec<String>),
    /// Create a collection.
    CreateCollection { alias: String, label: String },
}

/// What becomes of a call to unlock objects.
pub enum UnlockStep {
    /// The vault is open: these objects are unlocked.
    Unlocked(Vec<String>),
    /// Put the call behind the password prompt.
    Prompt(UnlockKind),
}

/// Unlocks objects. An open vault has nothing to unlock.
pub fn unlock(state: &SecretState, objects: Vec<String>) -> (step: UnlockStep)
    ensures
        step == (if state.unlocked {
            UnlockStep::Unlocked(objects)
        } else {
            UnlockStep::Prompt(UnlockKind::Unlock(objects))
        }),
{
    if state.is_unlocked() {
        UnlockStep::Unlocked(objects)
    } else {
        UnlockStep::Prompt(UnlockKind::Unlock(objects))
    }
}

/// The collections after one was created, unless there was one of that id.
pub open spec fn with_collection(
    content: Map<Seq<char>, CollectionContent>,
    id: Seq<char>,
    label: Seq<char>,
) -> Map<Seq<char>, CollectionContent> {
    if content.dom().contains(id) {
        content
    } else {
        content.insert(id, crate::secret_store::fresh_collection(label))
    }
}

/// What becomes of a call to create a collection.
pub enum CreateStep {
    /// Put the call behind the password prompt.
    Prompt(UnlockKind),
    /// The collection of this id is at this path; one that is new has to be
    /// served.
    Created { id: String, path: String, new: bool },
}

/// Creates a collection, or puts the call behind the password prompt.
pub fn request_collection(
    state: &mut SecretState,
    properties: &Options,
    alias: &str,
    fresh: &str,
) -> (r: Result<CreateStep, StoreError>)
    ensures
        final(state).same_but_content(*old(state)),
        ({
            let label = text_or(*properties, COLLECTION_LABEL@, "New Collection"@);
            let id = crate::secret_store::new_id(alias@, fresh@);
            let path = crate::objects::collection_path_of(id);
            if !old(state).unlocked {
                &&& final(state).content() == old(state).content()
                &&& r matches Ok(CreateStep::Prompt(UnlockKind::CreateCollection {
                    alias: waiting,
                    label: wanted,
                })) && waiting@ == alias@ && wanted@ == label
            } else {
                &&& final(state).content() == with_collection(old(state).content(), id, label)
                &&& if crate::objects::valid_object_path(path) {
                    r matches Ok(CreateStep::Created { id: created, path: at, new }) && created@
                        == id && at@ == path && new == !old(state).content().dom().contains(id)
                } else {
                    r is Err && crate::secret_store::argument_error(
                        r->Err_0,
                        "Invalid object path"@,
                    )
                }
            }
        }),
{
    let label = new_collection_label(properties);
    if !state.is_unlocked() {
        return Ok(
            CreateStep::Prompt(UnlockKind::CreateCollection { alias: alias.to_owned(), label }),
        );
    }
    let id = collection_id(alias, fresh);
    let new: bool = match state.create_collection(id.as_str(), label.as_str()) {
        Ok(created) => created,
        Err(error) => {
            return Err(error);
        },
    };
    let path = collection_path(id.as_str());
    if is_object_path(path.as_str()) {
        Ok(CreateStep::Created { id, path, new })
    } else {
        Err(StoreError::InvalidArgs("Invalid object path".to_owned()))
    }
}

/// What a completed prompt reports.
pub enum PromptReport {
    Objects(Vec<String>),
    Path(String),
}

/// How a call that waited is completed.
pub struct Completed {
    /// The prompt was dismissed, or the call failed.
    pub dismissed: bool,
    pub report: PromptReport,
    /// The collections have to be served anew.
    pub register: bool,
    /// What the store holds has to be kept on disk.
    pub keep: bool,
}

/// What a call that waited reports: whether it counts as dismissed, and the
/// objects or the path.
pub open spec fn completed(
    state: SecretState,
    kind: UnlockKind,
    unlocked: bool,
    fresh: Seq<char>,
    done: Completed,
) -> bool {
    match kind {
        UnlockKind::Unlock(objects) => {
            &&& done.dismissed == !unlocked
            &&& done.report matches PromptReport::Objects(reported) && reported@ == (if unlocked {
                objects@
            } else {
                Seq::empty()
            })
            &&& !done.register
            &&& !done.keep
        },
        UnlockKind::CreateCollection { alias, label: _ } => {
            let path = crate::objects::collection_path_of(crate::secret_store::new_id(alias@, fresh));
            let created = unlocked && state.unlocked && crate::objects::valid_object_path(path);
            &&& done.dismissed == !created
            &&& done.register == created
            &&& done.keep == (unlocked && state.unlocked)
            &&& done.report matches PromptReport::Path(at) && at@ == (if created {
                path
            } else {
                crate::objects::NO_OBJECT@
            })
        },
    }
}

/// Completes a call that waited for the password prompt.
pub fn complete_request(
    state: &mut SecretState,
    kind: UnlockKind,
    unlocked: bool,
    fresh: &str,
) -> (done: Completed)
    ensures
        final(state).same_but_content(*old(state)),
        completed(*old(state), kind, unlocked, fresh@, done),
        final(state).content() == (match kind {
            UnlockKind::CreateCollection { alias, label } => if unlocked && old(state).unlocked {
                with_collection(old(state).content(), crate::secret_store::new_id(alias@, fresh@), label@)
            } else {
                old(state).content()
            },
            UnlockKind::Unlock(_) => old(state).content(),
        }),
{
    match kind {
        UnlockKind::Unlock(objects) => {
            let (dismissed, objects) = complete_unlock(objects, unlocked);
            Completed {
                dismissed,
                report: PromptReport::Objects(objects),
                register: false,
                keep: false,
            }
        },
        UnlockKind::CreateCollection { alias, label } => {
            let mut nothing = Completed {
                dismissed: true,
                report: PromptReport::Path(crate::objects::NO_OBJECT.to_owned()),
                register: false,
                keep: false,
            };
            if !unlocked {
                return nothing;
            }
            let id = collection_id(alias.as_str(), fresh);
            match state.create_collection(id.as_str(), label.as_str()) {
                Err(_) => nothing,
                Ok(_) => {
                    let path = collection_path(id.as_str());
                    if is_object_path(path.as_str()) {
                        Completed {
                            dismissed: false,
                            report: PromptReport::Path(path),
                            register: true,
                            keep: true,
                        }
                    } else {
                        nothing.keep = true;
                        nothing
                    }
                },
            }
        },
    }
}

// ---------------------------------------------------------------------------
// Served objects
// ---------------------------------------------------------------------------

/// An object on the bus: a collection, or an item of one.
pub struct ServedObject {
    pub path: String,
    pub collection: String,
    pub item: Option<String>,
}

/// What is known of an object on the bus.
pub struct Place {
    pub path: Seq<char>,
    pub collection: Seq<char>,
    pub item: Option<Seq<char>>,
}

impl View for ServedObject {
    type V = Place;

    open spec fn view(&self) -> Place {
        Place {
            path: self.path@,
            collection: self.collection@,
            item: crate::options::opt_text(self.item),
        }
    }
}

/// The object is a collection, under its path or under the alias, or an item
/// of one; neither is deleted.
pub open spec fn belongs(content: Map<Seq<char>, CollectionContent>, place: Place) -> bool {
    &&& content.dom().contains(place.collection)
    &&& !content[place.collection].deleted
    &&& match place.item {
        None => place.path == crate::objects::collection_path_of(place.collection) || (
        place.collection == "login"@ && place.path == crate::objects::ALIAS_DEFAULT_PATH@),
        Some(item) => {
            let items = content[place.collection].items;
            &&& items.dom().contains(item)
            &&& !items[item].deleted
            &&& place.path == crate::objects::item_path_of(place.collection, item)
        },
    }
}

/// The list holds an object.
pub open spec fn serves(list: Seq<ServedObject>, place: Place) -> bool {
    exists|i: int| 0 <= i < list.len() && (#[trigger] list[i])@ == place
}

/// The list holds no object twice.
pub open spec fn each_served_once(list: Seq<ServedObject>) -> bool {
    forall|i: int, j: int|
        0 <= i < j < list.len() ==> (#[trigger] list[i])@ != (#[trigger] list[j])@
}

proof fn one_more_is_served(before: Seq<ServedObject>, now: Seq<ServedObject>)
    requires
        now.len() == before.len() + 1,
        now.drop_last() == before,
        each_served_once(before),
        !serves(before, now.last()@),
    ensures
        each_served_once(now),
        forall|place: Place| #[trigger]
            serves(now, place) <==> serves(before, place) || place == now.last()@,
{
    assert forall|i: int, j: int| 0 <= i < j < now.len() implies (#[trigger] now[i])@ != (
    #[trigger] now[j])@ by {
        assert(now[i] == before[i]);
        if j < before.len() {
            assert(now[j] == before[j]);
        }
    }
    assert forall|place: Place| #[trigger]
        serves(now, place) <==> serves(before, place) || place == now.last()@ by {
        if serves(before, place) {
            let k = choose|k: int| 0 <= k < before.len() && (#[trigger] before[k])@ == place;
            assert(now[k] == before[k]);
        }
        if place == now.last()@ {
            assert(now[now.len() - 1]@ == place);
        }
        if serves(now, place) {
            let k = choose|k: int| 0 <= k < now.len() && (#[trigger] now[k])@ == place;
            if k < before.len() {
                assert(before[k] == now[k]);
            }
        }
    }
}

/// The object is one of these items of a collection.
pub open spec fn item_among(
    collection: Seq<char>,
    items: Map<Seq<char>, crate::secret_store::ItemContent>,
    keys: Set<Seq<char>>,
    place: Place,
) -> bool {
    &&& place.collection == collection
    &&& place.item matches Some(item) && keys.contains(item) && items.dom().contains(item)
        && !items[item].deleted && place.path == crate::objects::item_path_of(collection, item)
}

/// Adds the items of a collection that are not deleted.
fn serve_items(list: &mut Vec<ServedObject>, collection: &str, items: &TextMap<ItemRt>)
    requires
        each_served_once(old(list)@),
        forall|place: Place| #[trigger]
            serves(old(list)@, place) ==> place.collection != collection@ || place.item is None,
    ensures
        each_served_once(final(list)@),
        forall|place: Place| #[trigger]
            serves(final(list)@, place) <==> serves(old(list)@, place) || item_among(
                collection@,
                crate::secret_store::item_contents(items@),
                items@.dom(),
                place,
            ),
{
    let ghost before = list@;
    let ghost content = crate::secret_store::item_contents(items@);
    let keys = items.keys();
    let mut i: usize = 0;
    while i < keys.len()
        invariant
            i <= keys@.len(),
            content == crate::secret_store::item_contents(items@),
            forall|k: int| 0 <= k < keys@.len() ==> items@.dom().contains((#[trigger] keys@[k])@),
            forall|a: int, b: int|
                0 <= a < b < keys@.len() ==> (#[trigger] keys@[a])@ != (#[trigger] keys@[b])@,
            each_served_once(list@),
            forall|place: Place| #[trigger]
                serves(before, place) ==> place.collection != collection@ || place.item is None,
            forall|place: Place| #[trigger]
                serves(list@, place) <==> serves(before, place) || item_among(
                    collection@,
                    content,
                    crate::textmap::first_keys(keys@, i as int),
                    place,
                ),
        decreases keys@.len() - i,
    {
        let key: &str = keys[i].as_str();
        let ghost now = list@;
        proof {
            crate::textmap::next_key_is_new(keys@, i as int);
        }
        if let Some(item) = items.get(key) {
            assert(item@ == content[key@]);
            if !item.deleted {
                list.push(
                    ServedObject {
                        path: item_path(collection, key),
                        collection: collection.to_owned(),
                        item: Some(key.to_owned()),
                    },
                );
                proof {
                    assert(list@.drop_last() =~= now);
                    one_more_is_served(now, list@);
                }
            }
        }
        i = i + 1;
    }
    proof {
        crate::textmap::all_keys_are_the_domain(items@, keys@);
    }
}

/// The object is one of these collections, or an item of one.
pub open spec fn belongs_among(
    content: Map<Seq<char>, CollectionContent>,
    keys: Set<Seq<char>>,
    place: Place,
) -> bool {
    keys.contains(place.collection) && belongs(content, place)
}

proof fn the_alias_is_another_path()
    ensures
        crate::objects::collection_path_of("login"@) != crate::objects::ALIAS_DEFAULT_PATH@,
{
    reveal_strlit("/org/freedesktop/secrets");
    reveal_strlit("/collection/");
    reveal_strlit("login");
    reveal_strlit("/org/freedesktop/secrets/aliases/default");
    assert(crate::objects::collection_path_of("login"@)[25] == 'c');
    assert(crate::objects::ALIAS_DEFAULT_PATH@[25] == 'a');
}

/// The objects to serve while the vault is open: the collections and items
/// that are not deleted, and the login collection under the alias, too.
pub fn register_collections(state: &SecretState) -> (list: Vec<ServedObject>)
    ensures
        each_served_once(list@),
        forall|place: Place| #[trigger]
            serves(list@, place) <==> state.unlocked && belongs(state.content(), place),
{
    let mut list: Vec<ServedObject> = Vec::new();
    if !state.is_unlocked() {
        return list;
    }
    let ghost content = state.content();
    let keys = state.collections.keys();
    let mut i: usize = 0;
    while i < keys.len()
        invariant
            i <= keys@.len(),
            content == state.content(),
            forall|k: int|
                0 <= k < keys@.len() ==> state.collections@.dom().contains((#[trigger] keys@[k])@),
            forall|a: int, b: int|
                0 <= a < b < keys@.len() ==> (#[trigger] keys@[a])@ != (#[trigger] keys@[b])@,
            each_served_once(list@),
            forall|place: Place| #[trigger]
                serves(list@, place) <==> belongs_among(
                    content,
                    crate::textmap::first_keys(keys@, i as int),
                    place,
                ),
        decreases keys@.len() - i,
    {
        let key: &str = keys[i].as_str();
        let ghost start = list@;
        proof {
            crate::textmap::next_key_is_new(keys@, i as int);
            assert forall|place: Place| #[trigger] serves(start, place) implies place.collection
                != key@ by {}
        }
        if let Some(collection) = state.collections.get(key) {
            assert(collection@ == content[key@]);
            if !collection.deleted {
                list.push(
                    ServedObject {
                        path: collection_path(key),
                        collection: key.to_owned(),
                        item: None,
                    },
                );
                proof {
                    assert(list@.drop_last() =~= start);
                    one_more_is_served(start, list@);
                }
                serve_items(&mut list, key, &collection.items);
                let ghost now = list@;
                if same_text(key, "login") {
                    list.push(
                        ServedObject {
                            path: crate::objects::ALIAS_DEFAULT_PATH.to_owned(),
                            collection: key.to_owned(),
                            item: None,
                        },
                    );
                    proof {
                        assert(list@.drop_last() =~= now);
                        the_alias_is_another_path();
                        one_more_is_served(now, list@);
                    }
                }
            }
        }
        i = i + 1;
    }
    proof {
        crate::textmap::all_keys_are_the_domain(state.collections@, keys@);
    }
    list
}

/// The views of ids.
pub open spec fn id_views(ids: Seq<String>) -> Seq<Seq<char>> {
    ids.map_values(|id: String| id@)
}

/// The paths of items.
pub open spec fn item_paths_of(collection: Seq<char>, ids: Seq<Seq<char>>) -> Seq<Seq<char>> {
    ids.map_values(|id: Seq<char>| crate::objects::item_path_of(collection, id))
}

/// The paths of these items of a collection, in order.
pub fn item_paths(collection: &str, ids: &Vec<String>) -> (paths: Vec<String>)
    ensures
        id_views(paths@) == item_paths_of(collection@, id_views(ids@)),
{
    let mut paths: Vec<String> = Vec::new();
    let mut i: usize = 0;
    assert(id_views(paths@) =~= item_paths_of(collection@, id_views(ids@)).take(0));
    while i < ids.len()
        invariant
            i <= ids@.len(),
            id_views(paths@) == item_paths_of(collection@, id_views(ids@)).take(i as int),
        decreases ids@.len() - i,
    {
        let ghost before = id_views(paths@);
        paths.push(item_path(collection, ids[i].as_str()));
        assert(id_views(paths@) =~= before.push(
            crate::objects::item_path_of(collection@, id_views(ids@)[i as int]),
        ));
        i = i + 1;
        assert(id_views(paths@) =~= item_paths_of(collection@, id_views(ids@)).take(i as int));
    }
    assert(id_views(paths@) =~= item_paths_of(collection@, id_views(ids@)));
    paths
}

/// The paths that leave the bus with a collection of these items.
pub open spec fn paths_of(collection: Seq<char>, ids: Seq<Seq<char>>) -> Seq<Seq<char>> {
    let paths = item_paths_of(collection, ids).push(
        crate::objects::collection_path_of(collection),
    );
    if collection == "login"@ {
        paths.push(crate::objects::ALIAS_DEFAULT_PATH@)
    } else {
        paths
    }
}

/// The paths to unregister after a collection was deleted: its items, then
/// the collection, then the alias if it was the login collection.
pub fn deleted_paths(collection: &str, ids: &Vec<String>) -> (paths: Vec<String>)
    ensures
        id_views(paths@) == paths_of(collection@, id_views(ids@)),
{
    let mut paths = item_paths(collection, ids);
    paths.push(collection_path(collection));
    if same_text(collection, "login") {
        paths.push(crate::objects::ALIAS_DEFAULT_PATH.to_owned());
    }
    assert(id_views(paths@) =~= paths_of(collection@, id_views(ids@)));
    paths
}

// ---------------------------------------------------------------------------
// Laws
// ---------------------------------------------------------------------------

/// A deleted collection leaves the bus with everything under it: whatever
/// was served of it is among the paths to unregister.
pub proof fn deleted_collections_leave_the_bus(
    content: Map<Seq<char>, CollectionContent>,
    collection: Seq<char>,
    ids: Seq<String>,
    place: Place,
)
    requires
        forall|item: Seq<char>| #[trigger]
            crate::secret_store::listed(ids, item) <==> crate::secret_store::has_item(
                content,
                collection,
                item,
            ),
        place.collection == collection,
        belongs(content, place),
    ensures
        paths_of(collection, id_views(ids)).contains(place.path),
{
    let paths = paths_of(collection, id_views(ids));
    let n = ids.len() as int;
    match place.item {
        None => {
            if place.path == crate::objects::collection_path_of(collection) {
                assert(paths[n] == place.path);
            } else {
                assert(paths[n + 1] == place.path);
            }
        },
        Some(item) => {
            assert(crate::secret_store::listed(ids, item));
            let k = choose|k: int| 0 <= k < ids.len() && (#[trigger] ids[k])@ == item;
            assert(id_views(ids)[k] == item);
            assert(paths[k] == place.path);
        },
    }
}

/// Nothing of a deleted collection is served again.
pub proof fn deleted_collections_are_not_served(
    content: Map<Seq<char>, CollectionContent>,
    collection: Seq<char>,
    place: Place,
)
    requires
        place.collection == collection,
    ensures
        !belongs(crate::secret_store::collection_deleted(content, collection), place),
{
}

/// A deleted item is not served again, and nothing else is affected.
pub proof fn deleted_items_are_not_served(
    content: Map<Seq<char>, CollectionContent>,
    collection: Seq<char>,
    item: Seq<char>,
    place: Place,
)
    ensures
        belongs(crate::secret_store::item_deleted(content, collection, item), place) <==> belongs(
            content,
            place,
        ) && !(place.collection == collection && place.item == Some(item)),
{
}

/// A collection that is created after the prompt is served from then on.
pub proof fn created_collections_are_served(
    content: Map<Seq<char>, CollectionContent>,
    id: Seq<char>,
    label: Seq<char>,
)
    requires
        !content.dom().contains(id),
    ensures
        belongs(
            with_collection(content, id, label),
            (Place {
                path: crate::objects::collection_path_of(id),
                collection: id,
                item: None,
            }),
        ),
{
}

} // verus!
