//! Laws of maps keyed by text.

#![allow(unused_imports)]

use vstd::prelude::*;

use crate::textmap::TextMap;

verus! {

/// A map gives back what was put under a key, and putting it there changes
/// no other key.
pub proof fn maps_give_back_what_was_put_in<V>(
    before: TextMap<V>,
    after: TextMap<V>,
    key: &str,
    value: V,
    other: &str,
    seen: Option<&V>,
    earlier: Option<&V>,
    held: bool,
)
    requires
        exists|m: &mut TextMap<V>|
            #[trigger] call_ensures(TextMap::<V>::insert, (m, key, value), ()) && *m == before
                && *final(m) == after,
        call_ensures(TextMap::<V>::get, (&after, other), seen),
        call_ensures(TextMap::<V>::get, (&before, other), earlier),
        call_ensures(TextMap::<V>::contains, (&after, other), held),
    ensures
        other@ == key@ ==> seen is Some && *(seen->0) == value,
        other@ != key@ ==> (seen is Some <==> earlier is Some),
        other@ != key@ && earlier is Some ==> *(seen->0) == *(earlier->0),
        held <==> seen is Some,
{
}

/// A map hands out what it held under a key that is taken away, holds it no
/// longer, and keeps every other key.
pub proof fn maps_lose_what_was_taken_away<V>(
    before: TextMap<V>,
    after: TextMap<V>,
    key: &str,
    taken: Option<V>,
    other: &str,
    seen: Option<&V>,
    earlier: Option<&V>,
)
    requires
        exists|m: &mut TextMap<V>|
            #[trigger] call_ensures(TextMap::<V>::remove, (m, key), taken) && *m == before
                && *final(m) == after,
        call_ensures(TextMap::<V>::get, (&after, other), seen),
        call_ensures(TextMap::<V>::get, (&before, other), earlier),
    ensures
        other@ == key@ ==> seen is None && (taken is Some <==> earlier is Some),
        other@ == key@ && earlier is Some ==> taken->0 == *(earlier->0),
        other@ != key@ ==> (seen is Some <==> earlier is Some),
        other@ != key@ && earlier is Some ==> *(seen->0) == *(earlier->0),
{
}

/// The keys of a map are listed once each, and a map has as many as it is
/// long.
pub proof fn maps_list_their_keys<V>(
    map: TextMap<V>,
    keys: Vec<String>,
    n: usize,
    key: &str,
    held: bool,
    i: int,
    j: int,
)
    requires
        call_ensures(TextMap::<V>::keys, (&map,), keys),
        call_ensures(TextMap::<V>::len, (&map,), n),
        call_ensures(TextMap::<V>::contains, (&map, key), held),
    ensures
        keys@.len() == n,
        0 <= i < j < n ==> keys@[i]@ != keys@[j]@,
        held <==> exists|k: int| 0 <= k < n && (#[trigger] keys@[k])@ == key@,
{
    if exists|k: int| 0 <= k < n && (#[trigger] keys@[k])@ == key@ {
        let k = choose|k: int| 0 <= k < n && (#[trigger] keys@[k])@ == key@;
        assert(map@.dom().contains(keys@[k]@));
    }
}

/// A new map holds nothing.
pub proof fn new_maps_are_empty<V>(map: TextMap<V>, key: &str, held: bool, n: usize)
    requires
        call_ensures(TextMap::<V>::new, (), map),
        call_ensures(TextMap::<V>::contains, (&map, key), held),
        call_ensures(TextMap::<V>::len, (&map,), n),
    ensures
        !held,
        n == 0,
{
    assert(map@.dom() =~= Set::empty());
}

} // verus!
