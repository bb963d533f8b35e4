//! A map with text keys.

use vstd::prelude::*;
use vstd::string::*;

use crate::text::same_text;

verus! {

/// The map that a list of entries holds; later entries win.
pub open spec fn map_of<V>(s: Seq<(String, V)>) -> Map<Seq<char>, V>
    decreases s.len(),
{
    if s.len() == 0 {
        Map::empty()
    } else {
        map_of(s.drop_last()).insert(s.last().0@, s.last().1)
    }
}

/// No key occurs twice.
pub open spec fn distinct_keys<V>(s: Seq<(String, V)>) -> bool {
    forall|i: int, j: int| 0 <= i < j < s.len() ==> (#[trigger] s[i]).0@ != (#[trigger] s[j]).0@
}

proof fn map_of_has<V>(s: Seq<(String, V)>, key: Seq<char>)
    ensures
        map_of(s).dom().contains(key) <==> exists|i: int|
            0 <= i < s.len() && (#[trigger] s[i]).0@ == key,
        map_of(s).dom().finite(),
    decreases s.len(),
{
    if s.len() > 0 {
        let front = s.drop_last();
        map_of_has(front, key);
        if map_of(front).dom().contains(key) {
            let i = choose|i: int| 0 <= i < front.len() && (#[trigger] front[i]).0@ == key;
            assert(s[i].0@ == key);
        }
        if s.last().0@ == key {
            assert(s[s.len() - 1].0@ == key);
        }
        if exists|i: int| 0 <= i < s.len() && (#[trigger] s[i]).0@ == key {
            let i = choose|i: int| 0 <= i < s.len() && (#[trigger] s[i]).0@ == key;
            if i < front.len() {
                assert(front[i].0@ == key);
            }
        }
    }
}

proof fn map_of_at<V>(s: Seq<(String, V)>, i: int)
    requires
        distinct_keys(s),
        0 <= i < s.len(),
    ensures
        map_of(s).dom().contains(s[i].0@),
        map_of(s)[s[i].0@] == s[i].1,
    decreases s.len(),
{
    let front = s.drop_last();
    if i < front.len() {
        assert(distinct_keys(front)) by {
            assert forall|a: int, b: int| 0 <= a < b < front.len() implies (#[trigger] front[a]).0@
                != (#[trigger] front[b]).0@ by {
                assert(s[a].0@ != s[b].0@);
            }
        }
        map_of_at(front, i);
        assert(s[i].0@ != s[s.len() - 1].0@);
        assert(front[i] == s[i]);
    }
}

proof fn map_of_len<V>(s: Seq<(String, V)>)
    requires
        distinct_keys(s),
    ensures
        map_of(s).dom().finite(),
        map_of(s).dom().len() == s.len(),
    decreases s.len(),
{
    if s.len() > 0 {
        let front = s.drop_last();
        assert(distinct_keys(front)) by {
            assert forall|a: int, b: int| 0 <= a < b < front.len() implies (#[trigger] front[a]).0@
                != (#[trigger] front[b]).0@ by {
                assert(s[a].0@ != s[b].0@);
            }
        }
        map_of_len(front);
        let key = s.last().0@;
        map_of_has(front, key);
        if map_of(front).dom().contains(key) {
            let i = choose|i: int| 0 <= i < front.len() && (#[trigger] front[i]).0@ == key;
            assert(s[i].0@ != s[s.len() - 1].0@);
        }
        assert(map_of(s).dom() =~= map_of(front).dom().insert(key));
    }
}

/// A map with text keys.
pub struct TextMap<V> {
    entries: Vec<(String, V)>,
}

impl<V> View for TextMap<V> {
    type V = Map<Seq<char>, V>;

    closed spec fn view(&self) -> Map<Seq<char>, V> {
        map_of(self.entries@)
    }
}

impl<V> TextMap<V> {
    /// No key occurs twice.
    #[verifier::type_invariant]
    spec fn unique(self) -> bool {
        distinct_keys(self.entries@)
    }

    /// The empty map.
    pub fn new() -> (map: Self)
        ensures
            map@ == Map::<Seq<char>, V>::empty(),
    {
        TextMap { entries: Vec::new() }
    }

    fn position(&self, key: &str) -> (at: Option<usize>)
        ensures
            match at {
                Some(i) => i < self.entries@.len() && self.entries@[i as int].0@ == key@,
                None => forall|i: int|
                    0 <= i < self.entries@.len() ==> (#[trigger] self.entries@[i]).0@ != key@,
            },
    {
        let mut i: usize = 0;
        while i < self.entries.len()
            invariant
                i <= self.entries@.len(),
                forall|k: int| 0 <= k < i ==> (#[trigger] self.entries@[k]).0@ != key@,
            decreases self.entries@.len() - i,
        {
            if same_text(self.entries[i].0.as_str(), key) {
                return Some(i);
            }
            i = i + 1;
        }
        None
    }

    /// The number of entries.
    pub fn len(&self) -> (n: usize)
        ensures
            self@.dom().finite(),
            n == self@.dom().len(),
    {
        proof {
            use_type_invariant(self);
            map_of_len(self.entries@);
        }
        self.entries.len()
    }

    /// A key has an entry.
    pub fn contains(&self, key: &str) -> (yes: bool)
        ensures
            yes == self@.dom().contains(key@),
    {
        proof {
            map_of_has(self.entries@, key@);
        }
        match self.position(key) {
            Some(i) => {
                assert(self.entries@[i as int].0@ == key@);
                true
            },
            None => false,
        }
    }

    /// The value of a key.
    pub fn get(&self, key: &str) -> (value: Option<&V>)
        ensures
            match value {
                Some(v) => self@.dom().contains(key@) && *v == self@[key@],
                None => !self@.dom().contains(key@),
            },
    {
        proof {
            use_type_invariant(self);
            map_of_has(self.entries@, key@);
        }
        match self.position(key) {
            Some(i) => {
                proof {
                    map_of_at(self.entries@, i as int);
                }
                Some(&self.entries[i].1)
            },
            None => None,
        }
    }

    /// Sets the value of a key.
    pub fn insert(&mut self, key: &str, value: V)
        ensures
            final(self)@ == old(self)@.insert(key@, value),
    {
        proof {
            use_type_invariant(&*self);
        }
        let at: Option<usize> = self.position(key);
        let ghost before = self.entries@;
        let mut entries: Vec<(String, V)> = Vec::new();
        std::mem::swap(&mut self.entries, &mut entries);
        match at {
            Some(i) => {
                entries.set(i, (key.to_owned(), value));
                proof {
                    let now = entries@;
                    assert forall|a: int, b: int| 0 <= a < b < now.len() implies (
                    #[trigger] now[a]).0@ != (#[trigger] now[b]).0@ by {
                        assert(before[a].0@ != before[b].0@);
                    }
                    updated_map(before, now, i as int);
                }
            },
            None => {
                entries.push((key.to_owned(), value));
                assert(entries@.drop_last() =~= before);
            },
        }
        self.entries = entries;
    }

    /// Takes the entry of a key out.
    pub fn remove(&mut self, key: &str) -> (value: Option<V>)
        ensures
            final(self)@ == old(self)@.remove(key@),
            match value {
                Some(v) => old(self)@.dom().contains(key@) && v == old(self)@[key@],
                None => !old(self)@.dom().contains(key@),
            },
    {
        proof {
            use_type_invariant(&*self);
            map_of_has(self.entries@, key@);
        }
        let at: Option<usize> = self.position(key);
        let ghost before = self.entries@;
        match at {
            Some(i) => {
                let mut entries: Vec<(String, V)> = Vec::new();
                std::mem::swap(&mut self.entries, &mut entries);
                let taken = entries.remove(i);
                proof {
                    map_of_at(before, i as int);
                    let now = entries@;
                    assert(now =~= before.remove(i as int));
                    assert forall|a: int, b: int| 0 <= a < b < now.len() implies (
                    #[trigger] now[a]).0@ != (#[trigger] now[b]).0@ by {
                        let a2 = if a < i { a } else { a + 1 };
                        let b2 = if b < i { b } else { b + 1 };
                        assert(now[a] == before[a2] && now[b] == before[b2]);
                    }
                    removed_map(before, now, i as int);
                }
                self.entries = entries;
                Some(taken.1)
            },
            None => {
                assert(map_of(before) =~= map_of(before).remove(key@));
                None
            },
        }
    }

    /// All keys, each once, in no particular order.
    pub fn keys(&self) -> (keys: Vec<String>)
        ensures
            keys@.len() == self@.dom().len(),
            forall|i: int, j: int|
                0 <= i < j < keys@.len() ==> (#[trigger] keys@[i])@ != (#[trigger] keys@[j])@,
            forall|i: int| 0 <= i < keys@.len() ==> self@.dom().contains((#[trigger] keys@[i])@),
            forall|k: Seq<char>| #[trigger]
                self@.dom().contains(k) ==> exists|i: int|
                    0 <= i < keys@.len() && (#[trigger] keys@[i])@ == k,
    {
        proof {
            use_type_invariant(self);
            map_of_len(self.entries@);
        }
        let mut keys: Vec<String> = Vec::new();
        let mut i: usize = 0;
        while i < self.entries.len()
            invariant
                i <= self.entries@.len(),
                keys@.len() == i,
                forall|k: int| 0 <= k < i ==> (#[trigger] keys@[k])@ == self.entries@[k].0@,
            decreases self.entries@.len() - i,
        {
            keys.push(self.entries[i].0.clone());
            i = i + 1;
        }
        proof {
            assert forall|a: int, b: int| 0 <= a < b < keys@.len() implies (#[trigger] keys@[a])@
                != (#[trigger] keys@[b])@ by {
                assert(self.entries@[a].0@ != self.entries@[b].0@);
            }
            assert forall|a: int| 0 <= a < keys@.len() implies self@.dom().contains(
                (#[trigger] keys@[a])@,
            ) by {
                map_of_at(self.entries@, a);
            }
            assert forall|k: Seq<char>| #[trigger] self@.dom().contains(k) implies exists|a: int|
                0 <= a < keys@.len() && (#[trigger] keys@[a])@ == k by {
                map_of_has(self.entries@, k);
                let a = choose|a: int|
                    0 <= a < self.entries@.len() && (#[trigger] self.entries@[a]).0@ == k;
                assert(keys@[a]@ == k);
            }
        }
        keys
    }
}

/// The first keys of a list.
pub open spec fn first_keys(keys: Seq<String>, n: int) -> Set<Seq<char>>
    decreases n,
{
    if n <= 0 {
        Set::empty()
    } else {
        first_keys(keys, n - 1).insert(keys[n - 1]@)
    }
}

/// The first keys of a list are those at its first places.
pub proof fn first_keys_are(keys: Seq<String>, n: int, key: Seq<char>)
    requires
        0 <= n <= keys.len(),
    ensures
        first_keys(keys, n).contains(key) <==> exists|i: int|
            0 <= i < n && (#[trigger] keys[i])@ == key,
    decreases n,
{
    if n > 0 {
        first_keys_are(keys, n - 1, key);
        if keys[n - 1]@ == key {
            assert(keys[n - 1]@ == key);
        }
        if first_keys(keys, n - 1).contains(key) {
            let i = choose|i: int| 0 <= i < n - 1 && (#[trigger] keys[i])@ == key;
            assert(0 <= i < n && keys[i]@ == key);
        }
    }
}

/// A list that names every key of a map and nothing else: its keys are the
/// map's domain, and a key is not among those before it.
pub proof fn all_keys_are_the_domain<V>(map: Map<Seq<char>, V>, keys: Seq<String>)
    requires
        forall|i: int| 0 <= i < keys.len() ==> map.dom().contains((#[trigger] keys[i])@),
        forall|k: Seq<char>| #[trigger]
            map.dom().contains(k) ==> exists|i: int| 0 <= i < keys.len() && (#[trigger] keys[i])@
                == k,
    ensures
        first_keys(keys, keys.len() as int) == map.dom(),
{
    assert forall|k: Seq<char>|
        first_keys(keys, keys.len() as int).contains(k) == map.dom().contains(k) by {
        first_keys_are(keys, keys.len() as int, k);
    }
    assert(first_keys(keys, keys.len() as int) =~= map.dom());
}

/// In a list without repetitions, a key is not among those before it.
pub proof fn next_key_is_new(keys: Seq<String>, n: int)
    requires
        0 <= n < keys.len(),
        forall|i: int, j: int|
            0 <= i < j < keys.len() ==> (#[trigger] keys[i])@ != (#[trigger] keys[j])@,
    ensures
        !first_keys(keys, n).contains(keys[n]@),
{
    first_keys_are(keys, n, keys[n]@);
}

proof fn updated_map<V>(before: Seq<(String, V)>, now: Seq<(String, V)>, i: int)
    requires
        distinct_keys(now),
        distinct_keys(before),
        now.len() == before.len(),
        0 <= i < now.len(),
        now[i].0@ == before[i].0@,
        forall|j: int| 0 <= j < now.len() && j != i ==> #[trigger] now[j] == before[j],
    ensures
        map_of(now) == map_of(before).insert(now[i].0@, now[i].1),
{
    let wanted = map_of(before).insert(now[i].0@, now[i].1);
    assert forall|k: Seq<char>| map_of(now).dom().contains(k) == wanted.dom().contains(k) by {
        map_of_has(now, k);
        map_of_has(before, k);
        if map_of(now).dom().contains(k) {
            let j = choose|j: int| 0 <= j < now.len() && (#[trigger] now[j]).0@ == k;
            assert(before[j].0@ == k);
        }
        if map_of(before).dom().contains(k) {
            let j = choose|j: int| 0 <= j < before.len() && (#[trigger] before[j]).0@ == k;
            assert(now[j].0@ == k);
        }
        if k == now[i].0@ {
            assert(now[i].0@ == k);
        }
    }
    assert forall|k: Seq<char>| map_of(now).dom().contains(k) implies map_of(now)[k]
        == wanted[k] by {
        map_of_has(now, k);
        let j = choose|j: int| 0 <= j < now.len() && (#[trigger] now[j]).0@ == k;
        map_of_at(now, j);
        if j != i {
            assert(before[j] == now[j]);
            map_of_at(before, j);
            if j < i {
                assert(now[j].0@ != now[i].0@);
            } else {
                assert(now[i].0@ != now[j].0@);
            }
        }
    }
    assert(map_of(now) =~= wanted);
}

proof fn removed_map<V>(before: Seq<(String, V)>, now: Seq<(String, V)>, at: int)
    requires
        distinct_keys(before),
        distinct_keys(now),
        0 <= at < before.len(),
        now == before.remove(at),
    ensures
        map_of(now) == map_of(before).remove(before[at].0@),
{
    let key = before[at].0@;
    let wanted = map_of(before).remove(key);
    assert forall|k: Seq<char>| map_of(now).dom().contains(k) == wanted.dom().contains(k) by {
        map_of_has(now, k);
        map_of_has(before, k);
        if map_of(now).dom().contains(k) {
            let j = choose|j: int| 0 <= j < now.len() && (#[trigger] now[j]).0@ == k;
            let j2 = if j < at { j } else { j + 1 };
            assert(before[j2] == now[j]);
            if j2 < at {
                assert(before[j2].0@ != before[at].0@);
            } else {
                assert(before[at].0@ != before[j2].0@);
            }
        }
        if map_of(before).dom().contains(k) && k != key {
            let j = choose|j: int| 0 <= j < before.len() && (#[trigger] before[j]).0@ == k;
            let j2 = if j < at { j } else { j - 1 };
            assert(now[j2] == before[j]);
        }
    }
    assert forall|k: Seq<char>| map_of(now).dom().contains(k) implies map_of(now)[k]
        == wanted[k] by {
        map_of_has(now, k);
        let j = choose|j: int| 0 <= j < now.len() && (#[trigger] now[j]).0@ == k;
        let j2 = if j < at { j } else { j + 1 };
        assert(before[j2] == now[j]);
        map_of_at(now, j);
        map_of_at(before, j2);
    }
    assert(map_of(now) =~= wanted);
}

} // verus!
