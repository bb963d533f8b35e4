//! Laws of paths and of sets of paths.

#![allow(unused_imports)]

use vstd::prelude::*;

use crate::chooser::breadcrumbs;
use crate::paths::{file_name_of, is_rooted, join, parent_of, Part};
use crate::pathset::{order_bytes, order_paths, Order, PathSet};

verus! {

/// A segment of a path: an ordinary one is a name, two dots lead to the
/// parent, one dot counts only in front, and an empty one not at all.
pub proof fn segments_are_names_or_dots(segment: Seq<u8>, opens: bool)
    ensures
        segment.len() > 0 && segment != seq![0x2eu8] && segment != seq![0x2eu8, 0x2e]
            ==> crate::paths::part_of(segment, opens) == Some(Part::Name(segment)),
        crate::paths::part_of(seq![0x2eu8, 0x2e], opens) == Some(Part::Parent),
        crate::paths::part_of(seq![0x2eu8], true) == Some(Part::Current),
        crate::paths::part_of(seq![0x2eu8], false) is None,
        crate::paths::part_of(Seq::empty(), opens) is None,
{
    assert(seq![0x2eu8, 0x2e].len() == 2);
    assert(seq![0x2eu8].len() == 1);
}

/// The root has one component, and a name below a folder adds one to those
/// of the folder, at the end.
pub proof fn components_are_added_at_the_end(dir: &[u8], name: &[u8], path: Vec<u8>)
    requires
        call_ensures(join, (dir, name), path),
        name@.len() > 0,
        !name@.contains(0x2f),
        name@ != seq![0x2eu8],
        name@ != seq![0x2eu8, 0x2e],
    ensures
        crate::paths::parts(seq![0x2fu8]) == seq![Part::Root],
        crate::paths::parts(Seq::empty()) == Seq::<Part>::empty(),
        crate::paths::parts(path@) == crate::paths::parts(dir@).push(Part::Name(name@)),
        dir@.len() > 0 && dir@.last() != 0x2f ==> path@ == dir@ + seq![0x2fu8] + name@,
        dir@.len() == 0 || dir@.last() == 0x2f ==> path@ == dir@ + name@,
{
    assert(name@.contains(name@[0]));
    crate::paths::joining_adds_a_component(dir@, name@);
    super::choosing::names_stand_behind_one_slash(dir@, name@);
    let root = seq![0x2fu8];
    assert(crate::paths::marks_from(root, 1) =~= Seq::empty());
    assert(crate::paths::marks(root) =~= seq![
        crate::paths::Mark { part: Part::Root, end: 1 },
    ]);
    assert(crate::paths::parts(root) =~= seq![Part::Root]);
    assert(crate::paths::parts(Seq::empty()) =~= Seq::<Part>::empty());
}

/// An absolute name stands for itself, whatever folder it is put below.
pub proof fn absolute_names_stand_for_themselves(dir: &[u8], name: &[u8], path: Vec<u8>, yes: bool)
    requires
        call_ensures(join, (dir, name), path),
        call_ensures(is_rooted, (name,), yes),
    ensures
        yes <==> name@.len() > 0 && name@[0] == 0x2f,
        yes ==> path@ == name@,
{
}

/// What is put below a folder has the folder for its parent and its own name
/// for its file name.
pub proof fn parents_and_names_undo_joining(
    dir: &[u8],
    name: &[u8],
    path: Vec<u8>,
    whole: &[u8],
    up: Option<Vec<u8>>,
    last: Option<Vec<u8>>,
)
    requires
        call_ensures(join, (dir, name), path),
        whole@ == path@,
        call_ensures(parent_of, (whole,), up),
        call_ensures(file_name_of, (whole,), last),
        name@.len() > 0,
        !name@.contains(0x2f),
        name@ != seq![0x2eu8],
        name@ != seq![0x2eu8, 0x2e],
    ensures
        up is Some,
        crate::paths::parts(up->0@) == crate::paths::parts(dir@),
        last is Some,
        last->0@ == name@,
{
    components_are_added_at_the_end(dir, name, path);
    super::listings::files_are_named_by_what_was_joined(dir@, name@);
    let parts = crate::paths::parts(whole@);
    let marks = crate::paths::marks(whole@);
    assert(parts.len() == marks.len());
    assert(parts.last() == marks.last().part);
    assert(parts.last() == Part::Name(name@));
    crate::paths::parent_drops_the_last_component(whole@);
    assert(crate::paths::parts(dir@).push(Part::Name(name@)).drop_last() =~= crate::paths::parts(
        dir@,
    ));
}

/// Bytes are ordered as in a dictionary: at the first place where they
/// differ the smaller byte is first, and a beginning is before what it
/// begins.
pub proof fn bytes_are_ordered_as_in_a_dictionary(a: &[u8], b: &[u8], o: Order, d: int)
    requires
        call_ensures(order_bytes, (a, b), o),
        0 <= d <= a@.len(),
        d <= b@.len(),
        a@.take(d) == b@.take(d),
    ensures
        d < a@.len() && d < b@.len() && a@[d] < b@[d] ==> o == Order::Before,
        d < a@.len() && d < b@.len() && a@[d] > b@[d] ==> o == Order::After,
        d == a@.len() && d < b@.len() ==> o == Order::Before,
        d < a@.len() && d == b@.len() ==> o == Order::After,
        o == Order::Same <==> a@ == b@,
{
    dictionary(a@, b@, 0, d);
    dictionary(b@, a@, 0, d);
    assert(a@.take(0) =~= b@.take(0));
    crate::pathset::bytes_before_total(a@, b@, 0);
}

proof fn dictionary(a: Seq<u8>, b: Seq<u8>, i: int, d: int)
    requires
        0 <= i <= d <= a.len(),
        d <= b.len(),
        a.take(d) == b.take(d),
    ensures
        d < b.len() && (d == a.len() || a[d] < b[d]) ==> crate::pathset::bytes_before_from(a, b, i),
    decreases d - i,
{
    if i < d {
        assert(a[i] == a.take(d)[i]);
        assert(b[i] == b.take(d)[i]);
        dictionary(a, b, i + 1, d);
    }
}

/// Paths in one folder are ordered by their names, and a folder is before
/// what is in it.
pub proof fn paths_are_ordered_by_component(
    dir: Seq<u8>,
    x: Seq<u8>,
    y: Seq<u8>,
    a: &[u8],
    b: &[u8],
    o: Order,
)
    requires
        call_ensures(order_paths, (a, b), o),
        crate::paths::telling_segment(x) && x != seq![0x2eu8, 0x2e],
        crate::paths::telling_segment(y) && y != seq![0x2eu8, 0x2e],
        a@ == crate::paths::joined(dir, x),
    ensures
        b@ == crate::paths::joined(dir, y) ==> {
            &&& o == Order::Before <==> crate::pathset::bytes_before_from(x, y, 0)
            &&& o == Order::Same <==> x == y
        },
        b@ == dir ==> o == Order::After,
{
    crate::paths::joining_adds_a_component(dir, x);
    crate::paths::joining_adds_a_component(dir, y);
    let s = crate::paths::parts(dir);
    let p = Part::Name(x);
    let q = Part::Name(y);
    common_front(s, p, q, 0);
    beginnings_are_before(s, p, 0);
    if s.push(p) == s.push(q) {
        assert(s.push(p).last() == p);
        assert(s.push(q).last() == q);
    }
}

proof fn common_front(s: Seq<Part>, p: Part, q: Part, i: int)
    requires
        0 <= i <= s.len(),
    ensures
        crate::pathset::parts_before_from(s.push(p), s.push(q), i) <==> crate::pathset::part_before(
            p,
            q,
        ),
    decreases s.len() - i,
{
    let a = s.push(p);
    let b = s.push(q);
    if i < s.len() {
        assert(a[i] == b[i]);
        crate::pathset::never_before_itself(a[i]);
        common_front(s, p, q, i + 1);
    } else {
        assert(a[i] == p && b[i] == q);
        crate::pathset::never_before_itself(p);
        assert(!crate::pathset::parts_before_from(a, b, i + 1));
    }
}

proof fn beginnings_are_before(s: Seq<Part>, p: Part, i: int)
    requires
        0 <= i <= s.len(),
    ensures
        crate::pathset::parts_before_from(s, s.push(p), i),
    decreases s.len() - i,
{
    if i < s.len() {
        assert(s[i] == s.push(p)[i]);
        crate::pathset::never_before_itself(s[i]);
        beginnings_are_before(s, p, i + 1);
    }
}

/// A set of paths holds what was put into it and not taken out, each path
/// once and in order.
pub proof fn sets_hold_what_was_put_in(
    before: PathSet,
    added: PathSet,
    removed: PathSet,
    path: Vec<u8>,
    same: &[u8],
    was_new: bool,
    was_there: bool,
    q: Seq<u8>,
)
    requires
        exists|s: &mut PathSet|
            #[trigger] call_ensures(PathSet::insert, (s, path), was_new) && *s == before
                && *final(s) == added,
        exists|s: &mut PathSet|
            #[trigger] call_ensures(PathSet::remove, (s, same), was_there) && *s == added
                && *final(s) == removed,
        same@ == path@,
    ensures
        was_new == !crate::pathset::member(before@, path@),
        was_there,
        crate::pathset::member(added@, q) <==> crate::pathset::member(before@, q)
            || crate::pathset::same_path(path@, q),
        crate::pathset::member(removed@, q) <==> crate::pathset::member(before@, q)
            && !crate::pathset::same_path(path@, q),
        forall|i: int, j: int|
            0 <= i < j < added@.len() ==> crate::pathset::path_before(
                #[trigger] added@[i],
                #[trigger] added@[j],
            ),
{
    crate::pathset::insert_members(before@, path@, q);
    crate::pathset::remove_members(added@, path@, q);
}

/// The breadcrumb chain of a folder ends at the folder.
pub proof fn breadcrumbs_end_at_the_folder(dir: &[u8], chain: Vec<Vec<u8>>)
    requires
        call_ensures(breadcrumbs, (dir,), chain),
    ensures
        chain@.len() > 0,
        chain@.last()@ == dir@,
        crate::paths::parent(dir@) is None ==> chain@.len() == 1,
        crate::paths::parent(dir@) matches Some(up) ==> chain@.len() >= 2 && chain@[chain@.len()
            - 2]@ == up,
{
    let views = crate::paths::path_views(chain@);
    assert(views.len() == chain@.len());
    let all = crate::paths::ancestors(dir@);
    assert(views.last() == chain@.last()@);
    if let Some(up) = crate::paths::parent(dir@) {
        crate::paths::parent_is_shorter(dir@);
        let rest = crate::paths::ancestors(up);
        assert(rest.len() > 0 && rest.last() == up) by {
            crate::paths::parent_is_shorter(up);
        }
        assert(all == rest.push(dir@));
        assert(all[all.len() - 2] == up);
        assert(views[chain@.len() - 2] == chain@[chain@.len() - 2]@);
    }
}

/// Within one folder the parent stands before every name.
pub proof fn parents_stand_before_names(
    dir: Seq<u8>,
    name: Seq<u8>,
    a: &[u8],
    b: &[u8],
    o: Order,
)
    requires
        call_ensures(order_paths, (a, b), o),
        crate::paths::telling_segment(name) && name != seq![0x2eu8, 0x2e],
        a@ == crate::paths::joined(dir, seq![0x2eu8, 0x2e]),
        b@ == crate::paths::joined(dir, name),
    ensures
        o == Order::Before,
{
    let up = seq![0x2eu8, 0x2e];
    assert(crate::paths::telling_segment(up)) by {
        assert(up.len() == 2);
        assert(!up.contains(0x2f));
    }
    crate::paths::joining_adds_a_component(dir, up);
    crate::paths::joining_adds_a_component(dir, name);
    common_front(crate::paths::parts(dir), Part::Parent, Part::Name(name), 0);
}

/// An absolute path stands before a relative one.
pub proof fn absolute_paths_stand_before_relative_ones(a: &[u8], b: &[u8], o: Order)
    requires
        call_ensures(order_paths, (a, b), o),
        crate::paths::parts(a@).len() > 0 && crate::paths::parts(a@)[0] is Root,
        crate::paths::parts(b@).len() > 0 && !(crate::paths::parts(b@)[0] is Root),
    ensures
        o == Order::Before,
{
}

/// A set of paths lists what it holds, in order, and is empty once cleared.
pub proof fn sets_list_what_they_hold(
    set: PathSet,
    cleared: PathSet,
    listed: Vec<Vec<u8>>,
    n: usize,
    empty: bool,
    path: &[u8],
    held: bool,
    i: int,
    j: int,
)
    requires
        call_ensures(PathSet::paths, (&set,), listed),
        call_ensures(PathSet::len, (&set,), n),
        call_ensures(PathSet::is_empty, (&set,), empty),
        call_ensures(PathSet::contains, (&set, path), held),
        exists|s: &mut PathSet|
            #[trigger] call_ensures(PathSet::clear, (s,), ()) && *s == set && *final(s) == cleared,
    ensures
        listed@.len() == n,
        empty <==> n == 0,
        cleared@.len() == 0,
        0 <= i < n && crate::paths::parts(listed@[i]@) == crate::paths::parts(path@) ==> held,
        held ==> exists|k: int|
            0 <= k < n && crate::paths::parts((#[trigger] listed@[k])@) == crate::paths::parts(path@),
        0 <= i < j < n ==> crate::pathset::path_before(listed@[i]@, listed@[j]@),
{
    let views = crate::paths::path_views(listed@);
    assert(views.len() == listed@.len());
    assert forall|k: int| 0 <= k < listed@.len() implies #[trigger] views[k] == listed@[k]@ by {}
    if held {
        let k = choose|k: int|
            0 <= k < set@.len() && crate::pathset::same_path(#[trigger] set@[k], path@);
        assert(views[k] == listed@[k]@);
    }
    if 0 <= i < n {
        assert(views[i] == listed@[i]@);
    }
    if 0 <= j < n {
        assert(views[j] == listed@[j]@);
    }
}

} // verus!
