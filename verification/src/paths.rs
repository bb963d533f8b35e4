//! Unix paths as byte sequences: components, parent, file name, extension,
//! joining, and the component-wise order.
//!
//! A path is read component by component. Repeated separators and `.`
//! segments are skipped, except for a `.` that opens a relative path.

use vstd::prelude::*;

verus! {

/// The separator, `/`.
pub const SLASH: u8 = 0x2f;

/// The byte `.`.
pub const DOT: u8 = 0x2e;

/// One component of a path.
pub enum Part {
    Root,
    Current,
    Parent,
    Name(Seq<u8>),
}

/// A component together with the offset just behind its last byte.
pub struct Mark {
    pub part: Part,
    pub end: int,
}

/// The path starts at the root.
pub open spec fn rooted(b: Seq<u8>) -> bool {
    b.len() > 0 && b[0] == SLASH
}

/// The offset of the first separator at or behind `i`, or the path's length.
pub open spec fn segment_end(b: Seq<u8>, i: int) -> int
    decreases b.len() - i,
{
    if i < 0 || i >= b.len() || b[i] == SLASH {
        i
    } else {
        segment_end(b, i + 1)
    }
}

/// The component that one segment between separators stands for, if any.
pub open spec fn part_of(segment: Seq<u8>, opens_path: bool) -> Option<Part> {
    if segment.len() == 0 {
        None
    } else if segment == seq![DOT] {
        if opens_path {
            Some(Part::Current)
        } else {
            None
        }
    } else if segment == seq![DOT, DOT] {
        Some(Part::Parent)
    } else {
        Some(Part::Name(segment))
    }
}

/// The components found from offset `i` on, where a segment begins at `i`.
pub open spec fn marks_from(b: Seq<u8>, i: int) -> Seq<Mark>
    decreases b.len() + 1 - i,
{
    if i < 0 || i >= b.len() {
        Seq::empty()
    } else {
        proof {
            segment_end_bounds(b, i);
        }
        let e = segment_end(b, i);
        let rest = marks_from(b, e + 1);
        match part_of(b.subrange(i, e), i == 0) {
            Some(part) => seq![Mark { part, end: e }] + rest,
            None => rest,
        }
    }
}

/// All components of a path, with their offsets.
pub open spec fn marks(b: Seq<u8>) -> Seq<Mark> {
    if rooted(b) {
        seq![Mark { part: Part::Root, end: 1 }] + marks_from(b, 1)
    } else {
        marks_from(b, 0)
    }
}

/// All components of a path.
pub open spec fn parts(b: Seq<u8>) -> Seq<Part> {
    marks(b).map_values(|m: Mark| m.part)
}

/// The path without its last component, unless it ends at the root or is empty.
pub open spec fn parent(b: Seq<u8>) -> Option<Seq<u8>> {
    let m = marks(b);
    if m.len() == 0 || m.last().part is Root {
        None
    } else if m.len() == 1 {
        Some(Seq::empty())
    } else {
        Some(b.take(m[m.len() - 2].end))
    }
}

/// The last component, when it is a name.
pub open spec fn file_name(b: Seq<u8>) -> Option<Seq<u8>> {
    let m = marks(b);
    if m.len() > 0 {
        match m.last().part {
            Part::Name(name) => Some(name),
            _ => None,
        }
    } else {
        None
    }
}

/// The path from the root (or the empty path) down to `b`.
pub open spec fn ancestors(b: Seq<u8>) -> Seq<Seq<u8>>
    decreases b.len(),
{
    proof {
        parent_is_shorter(b);
    }
    match parent(b) {
        None => seq![b],
        Some(p) => ancestors(p).push(b),
    }
}

/// A path behind a folder: an absolute one replaces it.
pub open spec fn joined(dir: Seq<u8>, name: Seq<u8>) -> Seq<u8> {
    if rooted(name) {
        name
    } else if dir.len() == 0 || dir.last() == SLASH {
        dir + name
    } else {
        dir.push(SLASH) + name
    }
}

/// A segment ends at the first separator behind its start, or at the path's end.
pub proof fn segment_end_bounds(b: Seq<u8>, i: int)
    requires
        0 <= i <= b.len(),
    ensures
        i <= segment_end(b, i) <= b.len(),
        segment_end(b, i) < b.len() ==> b[segment_end(b, i)] == SLASH,
        forall|k: int| i <= k < segment_end(b, i) ==> b[k] != SLASH,
    decreases b.len() - i,
{
    if i < b.len() && b[i] != SLASH {
        segment_end_bounds(b, i + 1);
    }
}

proof fn segment_end_is(b: Seq<u8>, i: int, e: int)
    requires
        0 <= i <= e <= b.len(),
        e < b.len() ==> b[e] == SLASH,
        forall|k: int| i <= k < e ==> b[k] != SLASH,
    ensures
        segment_end(b, i) == e,
    decreases e - i,
{
    if i < e {
        segment_end_is(b, i + 1, e);
    }
}

proof fn marks_from_ends(b: Seq<u8>, i: int)
    requires
        0 <= i,
    ensures
        forall|k: int|
            0 <= k < marks_from(b, i).len() ==> i < (#[trigger] marks_from(b, i)[k]).end <= b.len(),
        forall|j: int, k: int|
            0 <= j < k < marks_from(b, i).len() ==> (#[trigger] marks_from(b, i)[j]).end < (
            #[trigger] marks_from(b, i)[k]).end,
        forall|k: int|
            0 <= k < marks_from(b, i).len() ==> !((#[trigger] marks_from(b, i)[k]).part is Root),
    decreases b.len() + 1 - i,
{
    if i < b.len() {
        segment_end_bounds(b, i);
        let e = segment_end(b, i);
        marks_from_ends(b, e + 1);
        let rest = marks_from(b, e + 1);
        let all = marks_from(b, i);
        match part_of(b.subrange(i, e), i == 0) {
            Some(part) => {
                assert(all =~= seq![Mark { part, end: e }] + rest);
                assert(forall|k: int| 0 < k < all.len() ==> all[k] == rest[k - 1]);
            },
            None => {},
        }
    }
}

proof fn marks_ends(b: Seq<u8>)
    ensures
        forall|k: int| 0 <= k < marks(b).len() ==> 0 < (#[trigger] marks(b)[k]).end <= b.len(),
        forall|j: int, k: int|
            0 <= j < k < marks(b).len() ==> (#[trigger] marks(b)[j]).end < (#[trigger] marks(
                b,
            )[k]).end,
        forall|k: int| 0 < k < marks(b).len() ==> !((#[trigger] marks(b)[k]).part is Root),
{
    if rooted(b) {
        marks_from_ends(b, 1);
        let m = marks(b);
        assert(forall|k: int| 0 < k < m.len() ==> m[k] == marks_from(b, 1)[k - 1]);
    } else {
        marks_from_ends(b, 0);
    }
}

/// A parent is strictly shorter than its path.
pub proof fn parent_is_shorter(b: Seq<u8>)
    ensures
        parent(b) matches Some(p) ==> p.len() < b.len(),
{
    marks_ends(b);
    let m = marks(b);
    if parent(b) is Some {
        assert(0 < m[m.len() - 1].end <= b.len());
        if m.len() > 1 {
            assert(m[m.len() - 2].end < m[m.len() - 1].end);
        }
    }
}

proof fn marks_from_prefix(b: Seq<u8>, i: int, k: int)
    requires
        0 <= i,
        0 <= k < marks_from(b, i).len(),
    ensures
        marks_from(b.take(marks_from(b, i)[k].end), i) == marks_from(b, i).take(k + 1),
    decreases b.len() - i,
{
    segment_end_bounds(b, i);
    marks_from_ends(b, i);
    let e = segment_end(b, i);
    let all = marks_from(b, i);
    let rest = marks_from(b, e + 1);
    let cut = all[k].end;
    let short = b.take(cut);
    marks_from_ends(b, e + 1);
    match part_of(b.subrange(i, e), i == 0) {
        Some(part) => {
            if k == 0 {
                segment_end_is(short, i, e);
                assert(short.subrange(i, e) =~= b.subrange(i, e));
                assert(marks_from(short, e + 1) =~= Seq::<Mark>::empty());
                assert(marks_from(short, i) =~= all.take(1));
            } else {
                assert(all[k] == rest[k - 1]);
                segment_end_is(short, i, e);
                assert(short.subrange(i, e) =~= b.subrange(i, e));
                marks_from_prefix(b, e + 1, k - 1);
                assert(marks_from(short, i) =~= all.take(k + 1));
            }
        },
        None => {
            assert(all =~= rest);
            segment_end_is(short, i, e);
            assert(short.subrange(i, e) =~= b.subrange(i, e));
            marks_from_prefix(b, e + 1, k);
        },
    }
}

/// The parent of a path has the path's components without the last one.
pub proof fn parent_drops_the_last_component(b: Seq<u8>)
    requires
        parent(b) is Some,
    ensures
        parts(parent(b)->0) == parts(b).drop_last(),
{
    let m = marks(b);
    let p = parent(b)->0;
    marks_ends(b);
    if m.len() == 1 {
        assert(marks(p) =~= Seq::<Mark>::empty());
    } else {
        let k = m.len() - 2;
        if rooted(b) {
            let tail = marks_from(b, 1);
            assert(m[0].end == 1);
            if k == 0 {
                assert(p =~= b.take(1));
                assert(marks_from(p, 1) =~= Seq::<Mark>::empty());
                assert(marks(p) =~= m.take(1));
            } else {
                assert(m[k] == tail[k - 1]);
                marks_from_prefix(b, 1, k - 1);
                assert(rooted(p));
                assert(marks(p) =~= m.take(k + 1));
            }
        } else {
            marks_from_prefix(b, 0, k);
            assert(!rooted(p));
            assert(marks(p) =~= m.take(k + 1));
        }
    }
    assert(parts(p) =~= parts(b).drop_last());
}

/// A segment that names something: it is not empty, holds no separator and is
/// not `.`.
pub open spec fn telling_segment(segment: Seq<u8>) -> bool {
    segment.len() > 0 && !segment.contains(SLASH) && segment != seq![DOT]
}

proof fn marks_from_joined(b: Seq<u8>, i: int, name: Seq<u8>)
    requires
        telling_segment(name),
        b.len() > 0,
        0 < i || !rooted(b),
        0 <= i < b.len() || i == joined(b, name).len() - name.len(),
    ensures
        marks_from(joined(b, name), i) == marks_from(b, i).push(
            Mark { part: part_of(name, false)->0, end: joined(b, name).len() as int },
        ),
    decreases b.len() + 1 - i,
{
    let c = joined(b, name);
    let start = c.len() - name.len();
    assert(!rooted(name)) by {
        if rooted(name) {
            assert(name.contains(name[0]));
        }
    }
    assert(c.subrange(start, c.len() as int) =~= name);
    let last = Mark { part: part_of(name, false)->0, end: c.len() as int };
    if i >= b.len() {
        assert forall|k: int| start <= k < c.len() implies c[k] != SLASH by {
            assert(c[k] == name[k - start]);
            assert(name.contains(name[k - start]));
        }
        segment_end_is(c, start, c.len() as int);
        assert(marks_from(c, c.len() as int + 1) =~= Seq::<Mark>::empty());
        assert(marks_from(c, i) =~= seq![last]);
    } else {
        segment_end_bounds(b, i);
        let e = segment_end(b, i);
        assert(c.take(b.len() as int) =~= b);
        assert(forall|k: int| 0 <= k < b.len() ==> c[k] == b[k]);
        segment_end_is(c, i, e);
        assert(c.subrange(i, e) =~= b.subrange(i, e));
        marks_from_joined(b, e + 1, name);
        assert(marks_from(c, i) =~= marks_from(b, i).push(last));
    }
}

/// A name put behind a folder is one more component: the last one, behind
/// those of the folder.
pub proof fn joining_adds_a_component(dir: Seq<u8>, name: Seq<u8>)
    requires
        telling_segment(name),
    ensures
        parts(joined(dir, name)) == parts(dir).push(part_of(name, false)->0),
{
    let c = joined(dir, name);
    assert(!rooted(name)) by {
        if rooted(name) {
            assert(name.contains(name[0]));
        }
    }
    if dir.len() == 0 {
        assert(c =~= name);
        assert forall|k: int| 0 <= k < c.len() implies c[k] != SLASH by {
            assert(name.contains(name[k]));
        }
        segment_end_is(c, 0, c.len() as int);
        assert(c.subrange(0, c.len() as int) =~= name);
        assert(marks_from(c, c.len() as int + 1) =~= Seq::<Mark>::empty());
        assert(marks(dir) =~= Seq::<Mark>::empty());
    } else {
        assert(c[0] == dir[0]);
        marks_from_joined(
            dir,
            if rooted(dir) {
                1
            } else {
                0
            },
            name,
        );
    }
    assert(parts(c) =~= parts(dir).push(part_of(name, false)->0));
}

proof fn marks_from_tell(b: Seq<u8>, i: int)
    requires
        0 <= i,
    ensures
        forall|k: int|
            0 <= k < marks_from(b, i).len() ==> ((#[trigger] marks_from(b, i)[k]).part matches Part::Name(
                name,
            ) ==> telling_segment(name) && name != seq![DOT, DOT]),
    decreases b.len() + 1 - i,
{
    if i < b.len() {
        segment_end_bounds(b, i);
        let e = segment_end(b, i);
        marks_from_tell(b, e + 1);
        let segment = b.subrange(i, e);
        assert(!segment.contains(SLASH));
        let rest = marks_from(b, e + 1);
        let all = marks_from(b, i);
        match part_of(segment, i == 0) {
            Some(part) => {
                assert(all =~= seq![Mark { part, end: e }] + rest);
                assert(forall|k: int| 0 < k < all.len() ==> all[k] == rest[k - 1]);
            },
            None => {},
        }
    }
}

/// The names among a path's components are neither `.` nor `..` and hold no
/// separator, and only the first component can be the root.
pub proof fn names_tell(b: Seq<u8>)
    ensures
        forall|k: int|
            0 <= k < parts(b).len() ==> ((#[trigger] parts(b)[k]) matches Part::Name(name)
                ==> telling_segment(name) && name != seq![DOT, DOT]),
        forall|k: int| 0 < k < parts(b).len() ==> !((#[trigger] parts(b)[k]) is Root),
{
    marks_ends(b);
    if rooted(b) {
        marks_from_tell(b, 1);
        let m = marks(b);
        assert(forall|k: int| 0 < k < m.len() ==> m[k] == marks_from(b, 1)[k - 1]);
    } else {
        marks_from_tell(b, 0);
    }
    assert(forall|k: int| 0 <= k < parts(b).len() ==> #[trigger] parts(b)[k] == marks(b)[k].part);
}

/// One component, as the program holds it.
pub enum Component {
    Root,
    Current,
    Parent,
    Name(Vec<u8>),
}

impl View for Component {
    type V = Part;

    open spec fn view(&self) -> Part {
        match self {
            Component::Root => Part::Root,
            Component::Current => Part::Current,
            Component::Parent => Part::Parent,
            Component::Name(name) => Part::Name(name@),
        }
    }
}

/// The path starts at the root.
pub fn is_rooted(b: &[u8]) -> (yes: bool)
    ensures
        yes == rooted(b@),
{
    b.len() > 0 && b[0] == SLASH
}

fn find_segment_end(b: &[u8], i: usize) -> (e: usize)
    requires
        i <= b@.len(),
    ensures
        e == segment_end(b@, i as int),
        i <= e <= b@.len(),
{
    let mut e: usize = i;
    while e < b.len() && b[e] != SLASH
        invariant
            i <= e <= b@.len(),
            forall|k: int| i <= k < e ==> b@[k] != SLASH,
        decreases b@.len() - e,
    {
        e = e + 1;
    }
    proof {
        segment_end_is(b@, i as int, e as int);
    }
    e
}

fn read_segment(segment: &[u8], opens_path: bool) -> (part: Option<Component>)
    ensures
        match part {
            Some(c) => part_of(segment@, opens_path) == Some(c@),
            None => part_of(segment@, opens_path) is None,
        },
{
    if segment.len() == 0 {
        return None;
    }
    if segment.len() == 1 && segment[0] == DOT {
        assert(segment@ =~= seq![DOT]);
        return if opens_path {
            Some(Component::Current)
        } else {
            None
        };
    }
    if segment.len() == 2 && segment[0] == DOT && segment[1] == DOT {
        assert(segment@ =~= seq![DOT, DOT]);
        return Some(Component::Parent);
    }
    assert(segment@ != seq![DOT]) by {
        assert(seq![DOT].len() == 1 && seq![DOT][0] == DOT);
    }
    assert(segment@ != seq![DOT, DOT]) by {
        let dots = seq![DOT, DOT];
        assert(dots.len() == 2 && dots[0] == DOT && dots[1] == DOT);
    }
    Some(Component::Name(vstd::slice::slice_to_vec(segment)))
}

/// The view of a list of components with their end offsets.
pub open spec fn mark_views(v: Seq<(Component, usize)>) -> Seq<Mark> {
    v.map_values(|m: (Component, usize)| Mark { part: m.0@, end: m.1 as int })
}

/// All components of a path, with their end offsets.
pub fn read_marks(b: &[u8]) -> (v: Vec<(Component, usize)>)
    ensures
        mark_views(v@) == marks(b@),
{
    let mut v: Vec<(Component, usize)> = Vec::new();
    let mut i: usize = 0;
    if is_rooted(b) {
        v.push((Component::Root, 1));
        i = 1;
    }
    assert(mark_views(v@) + marks_from(b@, i as int) =~= marks(b@));
    while i < b.len()
        invariant
            i <= b@.len(),
            mark_views(v@) + marks_from(b@, i as int) == marks(b@),
        decreases b@.len() - i,
    {
        let e: usize = find_segment_end(b, i);
        let ghost before = v@;
        match read_segment(vstd::slice::slice_subrange(b, i, e), i == 0) {
            Some(component) => {
                v.push((component, e));
                proof {
                    let mark = Mark { part: component@, end: e as int };
                    assert(mark_views(v@) =~= mark_views(before).push(mark));
                    assert(mark_views(v@) + marks_from(b@, e + 1) =~= mark_views(before) + (seq![
                        mark,
                    ] + marks_from(b@, e + 1)));
                }
            },
            None => {},
        }
        i = if e < b.len() {
            e + 1
        } else {
            e
        };
    }
    assert(mark_views(v@) =~= marks(b@));
    v
}

/// The path without its last component.
pub fn parent_of(b: &[u8]) -> (p: Option<Vec<u8>>)
    ensures
        match p {
            Some(p) => parent(b@) == Some(p@),
            None => parent(b@) is None,
        },
{
    let v = read_marks(b);
    proof {
        marks_ends(b@);
    }
    let n: usize = v.len();
    assert(marks(b@).len() == n);
    if n == 0 {
        return None;
    }
    assert(marks(b@).last() == (Mark { part: v@[n - 1].0@, end: v@[n - 1].1 as int }));
    if let Component::Root = v[n - 1].0 {
        return None;
    }
    if n == 1 {
        let empty: Vec<u8> = Vec::new();
        assert(empty@ =~= Seq::<u8>::empty());
        return Some(empty);
    }
    let end: usize = v[n - 2].1;
    assert(marks(b@)[n - 2] == (Mark { part: v@[n - 2].0@, end: end as int }));
    let p = vstd::slice::slice_to_vec(vstd::slice::slice_subrange(b, 0, end));
    assert(p@ =~= b@.take(end as int));
    Some(p)
}

/// The last component, when it is a name.
pub fn file_name_of(b: &[u8]) -> (name: Option<Vec<u8>>)
    ensures
        match name {
            Some(name) => file_name(b@) == Some(name@),
            None => file_name(b@) is None,
        },
{
    let mut v = read_marks(b);
    let ghost all = v@;
    assert(marks(b@).len() == v.len());
    match v.pop() {
        Some(last) => {
            assert(marks(b@).last() == (Mark { part: last.0@, end: last.1 as int }));
            match last.0 {
                Component::Name(name) => Some(name),
                _ => None,
            }
        },
        None => None,
    }
}

/// The views of a list of paths.
pub open spec fn path_views(v: Seq<Vec<u8>>) -> Seq<Seq<u8>> {
    v.map_values(|p: Vec<u8>| p@)
}

/// The chain from the root down to `b`.
pub fn ancestors_of(b: &[u8]) -> (chain: Vec<Vec<u8>>)
    ensures
        path_views(chain@) == ancestors(b@),
    decreases b@.len(),
{
    match parent_of(b) {
        None => {
            let mut chain: Vec<Vec<u8>> = Vec::new();
            chain.push(vstd::slice::slice_to_vec(b));
            assert(path_views(chain@) =~= seq![b@]);
            chain
        },
        Some(p) => {
            proof {
                parent_is_shorter(b@);
            }
            let mut chain = ancestors_of(p.as_slice());
            let ghost before = chain@;
            chain.push(vstd::slice::slice_to_vec(b));
            assert(path_views(chain@) =~= path_views(before).push(b@));
            chain
        },
    }
}

/// A path behind a folder.
pub fn join(dir: &[u8], name: &[u8]) -> (path: Vec<u8>)
    ensures
        path@ == joined(dir@, name@),
{
    if is_rooted(name) {
        return vstd::slice::slice_to_vec(name);
    }
    let mut path = vstd::slice::slice_to_vec(dir);
    if dir.len() > 0 && dir[dir.len() - 1] != SLASH {
        path.push(SLASH);
    }
    let ghost base = path@;
    path.extend_from_slice(name);
    assert(path@ =~= base + name@);
    path
}

} // verus!
