//! The object paths of the secret service.

use vstd::prelude::*;
use vstd::string::*;

use crate::random::draw;
use crate::text::{chars_of, hex_bytes_text, same_text, string_of};

verus! {

/// The object path of the service.
pub const SERVICE_PATH: &'static str = "/org/freedesktop/secrets";

/// The object path under which the login collection is found, too.
pub const ALIAS_DEFAULT_PATH: &'static str = "/org/freedesktop/secrets/aliases/default";

/// The object path that stands for no object.
pub const NO_OBJECT: &'static str = "/";

/// A character of a path element.
pub open spec fn element_char(c: char) -> bool {
    ('A' <= c <= 'Z') || ('a' <= c <= 'z') || ('0' <= c <= '9') || c == '_'
}

/// An object path: slashes, each followed by letters, digits and underscores;
/// a slash alone is the root.
pub open spec fn valid_object_path(path: Seq<char>) -> bool {
    &&& path.len() > 0
    &&& path[0] == '/'
    &&& path.len() > 1 ==> path.last() != '/'
    &&& forall|i: int| 0 <= i < path.len() ==> #[trigger] path[i] == '/' || element_char(path[i])
    &&& forall|i: int|
        0 <= i < path.len() - 1 ==> !(#[trigger] path[i] == '/' && path[i + 1] == '/')
}

/// `zbus::zvariant::ObjectPath::try_from`: it takes a path that is not empty,
/// begins with a slash, does not end with one unless it is the root, holds no
/// two slashes in a row, and otherwise only ASCII letters, digits and
/// underscores.
#[verifier::external_body]
pub(crate) fn is_object_path(path: &str) -> (yes: bool)
    ensures
        yes == valid_object_path(path@),
{
    zbus::zvariant::ObjectPath::try_from(path).is_ok()
}

/// The path of a collection.
pub open spec fn collection_path_of(collection: Seq<char>) -> Seq<char> {
    SERVICE_PATH@ + "/collection/"@ + collection
}

/// The path of an item.
pub open spec fn item_path_of(collection: Seq<char>, item: Seq<char>) -> Seq<char> {
    collection_path_of(collection) + "/"@ + item
}

/// The path of a collection.
pub fn collection_path(collection: &str) -> (path: String)
    ensures
        path@ == collection_path_of(collection@),
{
    let mut path = SERVICE_PATH.to_owned();
    path.append("/collection/");
    path.append(collection);
    path
}

/// The path of an item.
pub fn item_path(collection: &str, item: &str) -> (path: String)
    ensures
        path@ == item_path_of(collection@, item@),
{
    let mut path = collection_path(collection);
    path.append("/");
    path.append(item);
    path
}

/// The path of a session.
pub fn session_path(id: &str) -> (path: String)
    ensures
        path@ == SERVICE_PATH@ + "/session/s"@ + id@,
{
    let mut path = SERVICE_PATH.to_owned();
    path.append("/session/s");
    path.append(id);
    path
}

/// The path of a prompt.
pub fn prompt_path(id: &str) -> (path: String)
    ensures
        path@ == SERVICE_PATH@ + "/prompt/p"@ + id@,
{
    let mut path = SERVICE_PATH.to_owned();
    path.append("/prompt/p");
    path.append(id);
    path
}

/// A fresh part of an object path: eight random bytes in lower-case
/// hexadecimal, or nothing when there are no random bytes to be had.
pub fn generate_id() -> (id: Option<String>)
    ensures
        exists|random: Option<Vec<u8>>| #[trigger]
            crate::random::drawn(8, random) && match random {
                Some(bytes) => bytes@.len() == 8 && id is Some && id->0@
                    == crate::text::hex_bytes(bytes@),
                None => id is None,
            },
{
    match draw(8) {
        Some(bytes) => Some(hex_bytes_text(bytes.as_slice())),
        None => None,
    }
}

/// The finished elements of a path, and the current one.
pub open spec fn elements_before(path: Seq<char>) -> (Seq<Seq<char>>, Seq<char>)
    decreases path.len(),
{
    if path.len() == 0 {
        (Seq::empty(), Seq::empty())
    } else {
        let (done, current) = elements_before(path.drop_last());
        if path.last() == '/' {
            (done.push(current), Seq::empty())
        } else {
            (done, current.push(path.last()))
        }
    }
}

/// The elements of a path, in front of, between and behind its slashes.
pub open spec fn elements(path: Seq<char>) -> Seq<Seq<char>> {
    elements_before(path).0.push(elements_before(path).1)
}

/// The views of texts.
pub open spec fn char_views(texts: Seq<Vec<char>>) -> Seq<Seq<char>> {
    texts.map_values(|t: Vec<char>| t@)
}

fn split_path(path: &str) -> (list: Vec<Vec<char>>)
    ensures
        char_views(list@) == elements(path@),
{
    let chars = chars_of(path);
    let mut done: Vec<Vec<char>> = Vec::new();
    let mut current: Vec<char> = Vec::new();
    let mut i: usize = 0;
    assert(chars@.take(0) =~= Seq::<char>::empty());
    assert(char_views(done@) =~= elements_before(chars@.take(0)).0);
    assert(current@ =~= elements_before(chars@.take(0)).1);
    while i < chars.len()
        invariant
            i <= chars@.len(),
            char_views(done@) == elements_before(chars@.take(i as int)).0,
            current@ == elements_before(chars@.take(i as int)).1,
        decreases chars@.len() - i,
    {
        let c: char = chars[i];
        assert(chars@.take(i + 1).drop_last() =~= chars@.take(i as int));
        assert(chars@.take(i + 1).last() == c);
        if c == '/' {
            let ghost before = done@;
            let mut element: Vec<char> = Vec::new();
            std::mem::swap(&mut element, &mut current);
            done.push(element);
            assert(char_views(done@) =~= char_views(before).push(element@));
        } else {
            current.push(c);
        }
        i = i + 1;
    }
    assert(chars@.take(i as int) =~= chars@);
    let ghost before = done@;
    let ghost last = current@;
    done.push(current);
    assert(char_views(done@) =~= char_views(before).push(last));
    done
}

/// The collection and the item that a path names, if it is long enough and
/// leads through the collections.
pub open spec fn named_item(path: Seq<char>) -> Option<(Seq<char>, Seq<char>)> {
    let list = elements(path);
    if list.len() < 7 || list[4] != "collection"@ {
        None
    } else {
        Some((list[5], list[6]))
    }
}

/// The collection and the item that a path names.
pub fn item_of_path(path: &str) -> (named: Option<(String, String)>)
    ensures
        match named {
            Some(named) => named_item(path@) == Some((named.0@, named.1@)),
            None => named_item(path@) is None,
        },
{
    let list = split_path(path);
    if list.len() < 7 {
        return None;
    }
    let kind = string_of(list[4].as_slice());
    assert(char_views(list@)[4] == list@[4]@);
    assert(char_views(list@)[5] == list@[5]@);
    assert(char_views(list@)[6] == list@[6]@);
    if !same_text(kind.as_str(), "collection") {
        return None;
    }
    Some((string_of(list[5].as_slice()), string_of(list[6].as_slice())))
}

proof fn elements_extend(path: Seq<char>, tail: Seq<char>)
    requires
        forall|i: int| 0 <= i < tail.len() ==> tail[i] != '/',
    ensures
        elements_before(path + tail).0 == elements_before(path).0,
        elements_before(path + tail).1 == elements_before(path).1 + tail,
    decreases tail.len(),
{
    if tail.len() == 0 {
        assert(path + tail =~= path);
        assert(elements_before(path).1 + tail =~= elements_before(path).1);
    } else {
        let front = tail.drop_last();
        elements_extend(path, front);
        assert((path + tail).drop_last() =~= path + front);
        assert((elements_before(path).1 + front).push(tail.last()) =~= elements_before(path).1
            + tail);
    }
}

proof fn elements_slash(path: Seq<char>)
    ensures
        elements_before(path.push('/')) == (
            elements_before(path).0.push(elements_before(path).1),
            Seq::<char>::empty(),
        ),
{
    assert(path.push('/').drop_last() =~= path);
}

/// The path of an item names that item, whenever neither of its parts holds
/// a slash.
pub proof fn item_paths_round_trip(collection: Seq<char>, item: Seq<char>)
    requires
        !collection.contains('/'),
        !item.contains('/'),
    ensures
        named_item(item_path_of(collection, item)) == Some((collection, item)),
{
    reveal_strlit("/org/freedesktop/secrets");
    reveal_strlit("/collection/");
    reveal_strlit("/");
    reveal_strlit("collection");
    let org = seq!['o', 'r', 'g'];
    let freedesktop = seq!['f', 'r', 'e', 'e', 'd', 'e', 's', 'k', 't', 'o', 'p'];
    let secrets = seq!['s', 'e', 'c', 'r', 'e', 't', 's'];
    let word = seq!['c', 'o', 'l', 'l', 'e', 'c', 't', 'i', 'o', 'n'];
    assert(word =~= "collection"@);
    let none = Seq::<char>::empty();
    elements_slash(none);
    let p1 = none.push('/');
    elements_extend(p1, org);
    let p2 = (p1 + org).push('/');
    elements_slash(p1 + org);
    elements_extend(p2, freedesktop);
    let p3 = (p2 + freedesktop).push('/');
    elements_slash(p2 + freedesktop);
    elements_extend(p3, secrets);
    assert(p3 + secrets =~= SERVICE_PATH@);
    let p4 = (p3 + secrets).push('/');
    elements_slash(p3 + secrets);
    elements_extend(p4, word);
    let p5 = (p4 + word).push('/');
    elements_slash(p4 + word);
    elements_extend(p5, collection);
    assert(p5 + collection =~= collection_path_of(collection));
    let p6 = (p5 + collection).push('/');
    elements_slash(p5 + collection);
    elements_extend(p6, item);
    assert(p6 + item =~= item_path_of(collection, item));
    let list = elements(item_path_of(collection, item));
    assert(list.len() == 7);
    assert(none + word =~= word);
    assert(none + collection =~= collection);
    assert(none + item =~= item);
    assert(list[4] == word);
    assert(list[5] == collection);
    assert(list[6] == item);
}

/// The elements of a path of six are what stands behind each of its slashes.
pub proof fn elements_stand_behind_the_slashes(e: Seq<Seq<char>>)
    requires
        e.len() == 6,
        forall|k: int| 0 <= k < 6 ==> !(#[trigger] e[k]).contains('/'),
    ensures
        ({
            let s = seq!['/'];
            let path = s + e[0] + s + e[1] + s + e[2] + s + e[3] + s + e[4] + s + e[5];
            elements(path) == seq![Seq::<char>::empty()] + e
        }),
{
    let s = seq!['/'];
    let none = Seq::<char>::empty();
    let p1 = none.push('/') + e[0];
    let p2 = p1.push('/') + e[1];
    let p3 = p2.push('/') + e[2];
    let p4 = p3.push('/') + e[3];
    let p5 = p4.push('/') + e[4];
    let p6 = p5.push('/') + e[5];
    let path = s + e[0] + s + e[1] + s + e[2] + s + e[3] + s + e[4] + s + e[5];
    assert(p6 =~= path);
    assert forall|k: int, i: int| 0 <= k < 6 && 0 <= i < e[k].len() implies #[trigger] e[k][i]
        != '/' by {
        assert(!e[k].contains('/'));
        assert(e[k].contains(e[k][i]));
    }
    elements_slash(none);
    elements_extend(none.push('/'), e[0]);
    elements_slash(p1);
    elements_extend(p1.push('/'), e[1]);
    elements_slash(p2);
    elements_extend(p2.push('/'), e[2]);
    elements_slash(p3);
    elements_extend(p3.push('/'), e[3]);
    elements_slash(p4);
    elements_extend(p4.push('/'), e[4]);
    elements_slash(p5);
    elements_extend(p5.push('/'), e[5]);
    assert(none + e[0] =~= e[0]);
    assert(none + e[1] =~= e[1]);
    assert(none + e[2] =~= e[2]);
    assert(none + e[3] =~= e[3]);
    assert(none + e[4] =~= e[4]);
    assert(none + e[5] =~= e[5]);
    assert(elements(path) =~= seq![none] + e);
}

} // verus!
