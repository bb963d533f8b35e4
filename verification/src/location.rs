//! Paths typed into a location field: home expansion, lexical normal form,
//! and the pieces that completion works on.

use vstd::prelude::*;
use vstd::string::*;

use crate::paths::{is_rooted, join, read_marks, Component, DOT, SLASH};
use crate::prompter::BytePath;
use crate::text::{chars_of, string_of};

verus! {

/// The position behind the last `/`, or 0.
pub open spec fn tail_start(typed: Seq<char>) -> int
    decreases typed.len(),
{
    if typed.len() == 0 {
        0
    } else if typed.last() == '/' {
        typed.len() as int
    } else {
        tail_start(typed.drop_last())
    }
}

/// Splits typed text behind its last `/`: the folder part, with the
/// separator, and the tail.
pub fn split_dir_tail(typed: &str) -> (pieces: (String, String))
    ensures
        pieces.0@ == typed@.take(tail_start(typed@)),
        pieces.1@ == typed@.skip(tail_start(typed@)),
{
    let v = chars_of(typed);
    let mut n: usize = v.len();
    assert(typed@.take(n as int) =~= typed@);
    while n > 0 && v[n - 1] != '/'
        invariant
            n <= v@.len(),
            v@ == typed@,
            tail_start(typed@) == tail_start(typed@.take(n as int)),
        decreases n,
    {
        assert(typed@.take(n as int).last() == v@[n - 1]);
        assert(typed@.take(n as int).drop_last() =~= typed@.take(n - 1));
        n = n - 1;
    }
    assert(n > 0 ==> typed@.take(n as int).last() == v@[n - 1]);
    let front = string_of(vstd::slice::slice_subrange(v.as_slice(), 0, n));
    let back = string_of(vstd::slice::slice_subrange(v.as_slice(), n, v.len()));
    assert(front@ =~= typed@.take(n as int));
    assert(back@ =~= typed@.skip(n as int));
    (front, back)
}

/// Typed text as a path, with a leading `~` standing for the home folder.
pub open spec fn expanded(typed: Seq<char>, home: Option<Seq<u8>>) -> Seq<u8> {
    if home is Some && typed == seq!['~'] {
        home->0
    } else if home is Some && typed.len() >= 2 && typed[0] == '~' && typed[1] == '/' {
        crate::paths::joined(home->0, vstd::utf8::encode_utf8(typed.skip(2)))
    } else {
        vstd::utf8::encode_utf8(typed)
    }
}

/// The view of an optional path.
pub open spec fn opt_path(path: Option<&BytePath>) -> Option<Seq<u8>> {
    match path {
        Some(path) => Some(path@),
        None => None,
    }
}

/// Typed text as a path; a leading `~` stands for the home folder, if known.
pub fn expand_tilde(typed: &str, home: Option<&BytePath>) -> (path: Vec<u8>)
    ensures
        path@ == expanded(typed@, opt_path(home)),
{
    let v = chars_of(typed);
    if let Some(home) = home {
        if v.len() == 1 && v[0] == '~' {
            assert(typed@ =~= seq!['~']);
            return vstd::slice::slice_to_vec(home.0.as_slice());
        }
        if v.len() >= 2 && v[0] == '~' && v[1] == '/' {
            let rest = string_of(vstd::slice::slice_subrange(v.as_slice(), 2, v.len()));
            assert(rest@ =~= typed@.skip(2));
            assert(typed@ != seq!['~']) by {
                assert(typed@.len() != seq!['~'].len());
            }
            return join(home.0.as_slice(), rest.as_str().as_bytes());
        }
        assert(typed@ != seq!['~']) by {
            assert(seq!['~'].len() == 1 && seq!['~'][0] == '~');
        }
    }
    vstd::slice::slice_to_vec(typed.as_bytes())
}

/// One component applied to a path in normal form.
pub open spec fn resolved(
    done: Seq<crate::paths::Part>,
    part: crate::paths::Part,
) -> Seq<crate::paths::Part> {
    match part {
        crate::paths::Part::Current => done,
        crate::paths::Part::Parent => if done.len() > 0 && done.last() is Name {
            done.drop_last()
        } else if done.len() > 0 && done.last() is Root {
            done
        } else {
            done.push(part)
        },
        _ => done.push(part),
    }
}

/// The components in normal form: no `.`, and `..` only in front.
pub open spec fn normal_parts(parts: Seq<crate::paths::Part>) -> Seq<crate::paths::Part>
    decreases parts.len(),
{
    if parts.len() == 0 {
        Seq::empty()
    } else {
        resolved(normal_parts(parts.drop_last()), parts.last())
    }
}

/// The bytes of a component.
pub open spec fn part_bytes(part: crate::paths::Part) -> Seq<u8> {
    match part {
        crate::paths::Part::Root => seq![SLASH],
        crate::paths::Part::Current => seq![DOT],
        crate::paths::Part::Parent => seq![DOT, DOT],
        crate::paths::Part::Name(name) => name,
    }
}

/// The path that a list of components spells.
pub open spec fn spelled(parts: Seq<crate::paths::Part>) -> Seq<u8>
    decreases parts.len(),
{
    if parts.len() == 0 {
        Seq::empty()
    } else {
        crate::paths::joined(spelled(parts.drop_last()), part_bytes(parts.last()))
    }
}

/// A path without `.` and with every `..` applied as far as possible,
/// without looking at the disk.
pub open spec fn normalized(path: Seq<u8>) -> Seq<u8> {
    spelled(normal_parts(crate::paths::parts(path)))
}

/// A list of components is in normal form: no `.`, a root only at the start,
/// and every `..` in front of what it could not be applied to.
pub open spec fn in_normal_form(parts: Seq<crate::paths::Part>) -> bool {
    &&& forall|k: int| 0 <= k < parts.len() ==> !((#[trigger] parts[k]) is Current)
    &&& forall|k: int| 0 < k < parts.len() ==> !((#[trigger] parts[k]) is Root)
    &&& forall|j: int, k: int|
        0 <= j < k < parts.len() && (#[trigger] parts[k]) is Parent ==> (
        #[trigger] parts[j]) is Parent
}

/// The names of a list of components are names of a path.
pub open spec fn names_are_telling(parts: Seq<crate::paths::Part>) -> bool {
    forall|k: int|
        0 <= k < parts.len() ==> ((#[trigger] parts[k]) matches crate::paths::Part::Name(name)
            ==> crate::paths::telling_segment(name) && name != seq![DOT, DOT])
}

proof fn resolving_is_normal(parts: Seq<crate::paths::Part>)
    requires
        names_are_telling(parts),
        forall|k: int| 0 < k < parts.len() ==> !((#[trigger] parts[k]) is Root),
    ensures
        in_normal_form(normal_parts(parts)),
        names_are_telling(normal_parts(parts)),
        parts.len() == 0 ==> normal_parts(parts).len() == 0,
    decreases parts.len(),
{
    if parts.len() > 0 {
        let front = parts.drop_last();
        assert(forall|k: int| 0 <= k < front.len() ==> #[trigger] front[k] == parts[k]);
        resolving_is_normal(front);
        let done = normal_parts(front);
        let after = resolved(done, parts.last());
        assert(parts.last() == parts[parts.len() - 1]);
        assert(forall|k: int|
            0 <= k < after.len() && k < done.len() ==> #[trigger] after[k] == done[k]);
        if parts.last() is Parent && done.len() > 0 && done.last() is Parent {
            assert(done.last() == done[done.len() - 1]);
        }
    }
}

proof fn normal_parts_stay(parts: Seq<crate::paths::Part>)
    requires
        in_normal_form(parts),
    ensures
        normal_parts(parts) == parts,
    decreases parts.len(),
{
    if parts.len() > 0 {
        let front = parts.drop_last();
        assert(forall|k: int| 0 <= k < front.len() ==> #[trigger] front[k] == parts[k]);
        normal_parts_stay(front);
        if front.len() > 0 {
            assert(front.last() == parts[parts.len() - 2]);
        }
        assert(parts.last() == parts[parts.len() - 1]);
        assert(front.push(parts.last()) =~= parts);
    } else {
        assert(parts =~= Seq::<crate::paths::Part>::empty());
    }
}

proof fn spelling_keeps_parts(parts: Seq<crate::paths::Part>)
    requires
        in_normal_form(parts),
        names_are_telling(parts),
    ensures
        crate::paths::parts(spelled(parts)) == parts,
    decreases parts.len(),
{
    if parts.len() == 0 {
        assert(crate::paths::parts(spelled(parts)) =~= parts);
    } else {
        let front = parts.drop_last();
        let last = parts.last();
        assert(last == parts[parts.len() - 1]);
        assert(forall|k: int| 0 <= k < front.len() ==> #[trigger] front[k] == parts[k]);
        spelling_keeps_parts(front);
        match last {
            crate::paths::Part::Root => {
                let path = spelled(parts);
                assert(path =~= seq![SLASH]);
                assert(crate::paths::marks_from(path, 1) =~= Seq::<crate::paths::Mark>::empty());
                assert(crate::paths::parts(path) =~= parts);
            },
            crate::paths::Part::Parent => {
                let name = seq![DOT, DOT];
                assert(name.len() == 2 && name[0] == DOT && name[1] == DOT);
                assert(name != seq![DOT]) by {
                    assert(seq![DOT].len() == 1);
                }
                crate::paths::joining_adds_a_component(spelled(front), name);
                assert(front.push(last) =~= parts);
            },
            crate::paths::Part::Name(name) => {
                crate::paths::joining_adds_a_component(spelled(front), name);
                assert(front.push(last) =~= parts);
            },
            crate::paths::Part::Current => {},
        }
    }
}

/// The normal form of a path has no `.`, and `..` only in front; it is its
/// own normal form, and its components are what resolving leaves of those of
/// the path.
pub proof fn normal_form_is_stable(path: Seq<u8>)
    ensures
        in_normal_form(crate::paths::parts(normalized(path))),
        normalized(normalized(path)) == normalized(path),
        crate::paths::parts(normalized(path)) == normal_parts(crate::paths::parts(path)),
{
    let parts = crate::paths::parts(path);
    crate::paths::names_tell(path);
    resolving_is_normal(parts);
    spelling_keeps_parts(normal_parts(parts));
    normal_parts_stay(normal_parts(parts));
}

/// The views of a list of components.
pub open spec fn component_views(v: Seq<Component>) -> Seq<crate::paths::Part> {
    v.map_values(|c: Component| c@)
}

fn push_component(done: &mut Vec<Component>, component: &Component)
    ensures
        component_views(final(done)@) == resolved(component_views(old(done)@), component@),
{
    let ghost before = component_views(done@);
    match component {
        Component::Current => {},
        Component::Parent => {
            let n: usize = done.len();
            if n > 0 {
                assert(before.last() == done@[n - 1]@);
                let (named, at_root): (bool, bool) = match &done[n - 1] {
                    Component::Name(_) => (true, false),
                    Component::Root => (false, true),
                    _ => (false, false),
                };
                if named {
                    let _ = done.pop();
                    assert(component_views(done@) =~= before.drop_last());
                    return;
                }
                if at_root {
                    return;
                }
            }
            done.push(Component::Parent);
            assert(component_views(done@) =~= before.push(component@));
        },
        Component::Root => {
            done.push(Component::Root);
            assert(component_views(done@) =~= before.push(component@));
        },
        Component::Name(name) => {
            done.push(Component::Name(vstd::slice::slice_to_vec(name.as_slice())));
            assert(component_views(done@) =~= before.push(component@));
        },
    }
}

fn component_bytes(component: &Component) -> (b: Vec<u8>)
    ensures
        b@ == part_bytes(component@),
{
    let mut b: Vec<u8> = Vec::new();
    match component {
        Component::Root => {
            b.push(SLASH);
            assert(b@ =~= seq![SLASH]);
        },
        Component::Current => {
            b.push(DOT);
            assert(b@ =~= seq![DOT]);
        },
        Component::Parent => {
            b.push(DOT);
            b.push(DOT);
            assert(b@ =~= seq![DOT, DOT]);
        },
        Component::Name(name) => {
            b = vstd::slice::slice_to_vec(name.as_slice());
        },
    }
    b
}

/// A path in lexical normal form.
pub fn normalize_lexical(path: &[u8]) -> (normal: Vec<u8>)
    ensures
        normal@ == normalized(path@),
{
    let marks = read_marks(path);
    let ghost parts = crate::paths::parts(path@);
    assert(parts.len() == marks.len());
    let mut done: Vec<Component> = Vec::new();
    let mut i: usize = 0;
    assert(component_views(done@) =~= normal_parts(parts.take(0)));
    while i < marks.len()
        invariant
            i <= marks@.len(),
            parts == crate::paths::parts(path@),
            crate::paths::mark_views(marks@) == crate::paths::marks(path@),
            parts.len() == marks.len(),
            component_views(done@) == normal_parts(parts.take(i as int)),
        decreases marks@.len() - i,
    {
        proof {
            let now = parts.take(i + 1);
            assert(now.drop_last() =~= parts.take(i as int));
            assert(crate::paths::mark_views(marks@)[i as int].part == marks@[i as int].0@);
            assert(now.last() == marks@[i as int].0@);
        }
        push_component(&mut done, &marks[i].0);
        i = i + 1;
    }
    assert(parts.take(i as int) =~= parts);
    let ghost all = component_views(done@);
    let mut normal: Vec<u8> = Vec::new();
    let mut k: usize = 0;
    assert(normal@ =~= spelled(all.take(0)));
    while k < done.len()
        invariant
            k <= done@.len(),
            all == component_views(done@),
            normal@ == spelled(all.take(k as int)),
        decreases done@.len() - k,
    {
        proof {
            let now = all.take(k + 1);
            assert(now.drop_last() =~= all.take(k as int));
            assert(now.last() == done@[k as int]@);
        }
        let piece = component_bytes(&done[k]);
        normal = join(normal.as_slice(), piece.as_slice());
        k = k + 1;
    }
    assert(all.take(k as int) =~= all);
    normal
}

/// The path that typed text stands for in a folder.
pub open spec fn located(typed: Seq<char>, dir: Seq<u8>, home: Option<Seq<u8>>) -> Seq<u8> {
    let path = expanded(typed, home);
    normalized(
        if crate::paths::rooted(path) {
            path
        } else {
            crate::paths::joined(dir, path)
        },
    )
}

/// The path that typed text stands for: absolute, below the home folder, or
/// relative to the browsed folder.
pub fn locate(typed: &str, dir: &[u8], home: Option<&BytePath>) -> (path: Vec<u8>)
    ensures
        path@ == located(typed@, dir@, opt_path(home)),
{
    let path = expand_tilde(typed, home);
    if is_rooted(path.as_slice()) {
        normalize_lexical(path.as_slice())
    } else {
        normalize_lexical(join(dir, path.as_slice()).as_slice())
    }
}

/// The longest text with which two texts begin.
pub open spec fn shared_prefix(a: Seq<char>, b: Seq<char>) -> Seq<char>
    decreases a.len(),
{
    if a.len() == 0 || b.len() == 0 || a[0] != b[0] {
        Seq::empty()
    } else {
        seq![a[0]] + shared_prefix(a.drop_first(), b.drop_first())
    }
}

/// A shared prefix begins both texts, and no longer text does.
pub proof fn shared_prefix_is_longest(a: Seq<char>, b: Seq<char>, p: Seq<char>)
    ensures
        shared_prefix(a, b).is_prefix_of(a),
        shared_prefix(a, b).is_prefix_of(b),
        p.is_prefix_of(a) && p.is_prefix_of(b) ==> p.is_prefix_of(shared_prefix(a, b)),
    decreases a.len(),
{
    let s = shared_prefix(a, b);
    if a.len() == 0 || b.len() == 0 || a[0] != b[0] {
        assert(s =~= a.subrange(0, 0));
        assert(s =~= b.subrange(0, 0));
        if p.is_prefix_of(a) && p.is_prefix_of(b) {
            if p.len() > 0 {
                assert(p[0] == a.subrange(0, p.len() as int)[0]);
                assert(p[0] == b.subrange(0, p.len() as int)[0]);
            }
            assert(p =~= s.subrange(0, 0));
        }
    } else {
        let rest = p.drop_first();
        shared_prefix_is_longest(a.drop_first(), b.drop_first(), rest);
        let t = shared_prefix(a.drop_first(), b.drop_first());
        assert(t =~= a.drop_first().subrange(0, t.len() as int));
        assert(t =~= b.drop_first().subrange(0, t.len() as int));
        assert forall|i: int| 0 <= i < s.len() implies s[i] == a[i] && s[i] == b[i] by {
            if i > 0 {
                assert(s[i] == t[i - 1]);
                assert(t[i - 1] == a.drop_first().subrange(0, t.len() as int)[i - 1]);
                assert(t[i - 1] == b.drop_first().subrange(0, t.len() as int)[i - 1]);
            }
        }
        assert(s =~= a.subrange(0, s.len() as int));
        assert(s =~= b.subrange(0, s.len() as int));
        if p.is_prefix_of(a) && p.is_prefix_of(b) {
            if p.len() == 0 {
                assert(p =~= s.subrange(0, 0));
            } else {
                assert(rest =~= a.drop_first().subrange(0, rest.len() as int)) by {
                    assert forall|i: int| 0 <= i < rest.len() implies rest[i]
                        == a.drop_first()[i] by {
                        assert(p[i + 1] == a.subrange(0, p.len() as int)[i + 1]);
                    }
                }
                assert(rest =~= b.drop_first().subrange(0, rest.len() as int)) by {
                    assert forall|i: int| 0 <= i < rest.len() implies rest[i]
                        == b.drop_first()[i] by {
                        assert(p[i + 1] == b.subrange(0, p.len() as int)[i + 1]);
                    }
                }
                assert(rest.is_prefix_of(t));
                assert(rest =~= t.subrange(0, rest.len() as int));
                assert(p[0] == a.subrange(0, p.len() as int)[0]);
                assert forall|i: int| 0 <= i < p.len() implies p[i] == s[i] by {
                    if i > 0 {
                        assert(p[i] == rest[i - 1]);
                        assert(rest[i - 1] == t.subrange(0, rest.len() as int)[i - 1]);
                    }
                }
                assert(p =~= s.subrange(0, p.len() as int));
            }
        }
    }
}

/// The longest text with which all texts begin.
pub open spec fn prefix_of_all(names: Seq<Seq<char>>) -> Seq<char>
    decreases names.len(),
{
    if names.len() == 0 {
        Seq::empty()
    } else if names.len() == 1 {
        names[0]
    } else {
        shared_prefix(prefix_of_all(names.drop_last()), names.last())
    }
}

/// The text of each string.
pub open spec fn texts(names: Seq<String>) -> Seq<Seq<char>> {
    names.map_values(|s: String| s@)
}

fn shared(a: &str, b: &str) -> (p: String)
    ensures
        p@ == shared_prefix(a@, b@),
{
    let v = chars_of(a);
    let w = chars_of(b);
    let mut n: usize = 0;
    assert(v@.take(0) + shared_prefix(v@.skip(0), w@.skip(0)) =~= shared_prefix(a@, b@)) by {
        assert(v@.skip(0) =~= a@);
        assert(w@.skip(0) =~= b@);
    }
    while n < v.len() && n < w.len() && v[n] == w[n]
        invariant
            n <= v@.len(),
            n <= w@.len(),
            v@ == a@,
            w@ == b@,
            v@.take(n as int) + shared_prefix(v@.skip(n as int), w@.skip(n as int))
                == shared_prefix(a@, b@),
        decreases v@.len() - n,
    {
        assert(v@.skip(n as int).drop_first() =~= v@.skip(n + 1));
        assert(w@.skip(n as int).drop_first() =~= w@.skip(n + 1));
        assert(v@.take(n as int) + (seq![v@[n as int]] + shared_prefix(
            v@.skip(n + 1),
            w@.skip(n + 1),
        )) =~= v@.take(n + 1) + shared_prefix(v@.skip(n + 1), w@.skip(n + 1)));
        n = n + 1;
    }
    assert(shared_prefix(v@.skip(n as int), w@.skip(n as int)) =~= Seq::<char>::empty());
    let p = string_of(vstd::slice::slice_subrange(v.as_slice(), 0, n));
    assert(p@ =~= v@.take(n as int));
    assert(p@ =~= shared_prefix(a@, b@));
    p
}

/// The longest text with which all names begin.
pub fn common_prefix(names: &Vec<String>) -> (p: String)
    ensures
        p@ == prefix_of_all(texts(names@)),
{
    let ghost all = texts(names@);
    if names.len() == 0 {
        return String::new();
    }
    let mut p: String = names[0].clone();
    let mut i: usize = 1;
    assert(all.take(1).len() == 1 && all.take(1)[0] == names@[0]@);
    while i < names.len()
        invariant
            1 <= i <= names@.len(),
            all == texts(names@),
            p@ == prefix_of_all(all.take(i as int)),
        decreases names@.len() - i,
    {
        proof {
            let now = all.take(i + 1);
            assert(now.drop_last() =~= all.take(i as int));
            assert(now.last() == names@[i as int]@);
        }
        p = shared(p.as_str(), names[i].as_str());
        i = i + 1;
    }
    assert(all.take(i as int) =~= all);
    p
}

} // verus!
