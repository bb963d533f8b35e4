//! A set of paths in component order.
//!
//! Two paths are the same member when they have the same components, however
//! they are spelled. Members are kept in ascending order, and the spelling
//! that came first stays.

use vstd::prelude::*;

use crate::paths::{read_marks, Component};

verus! {

/// Byte-wise dictionary order of `a` before `b`, from offset `i` on.
pub open spec fn bytes_before_from(a: Seq<u8>, b: Seq<u8>, i: int) -> bool
    decreases b.len() - i,
{
    if i < 0 || i >= b.len() {
        false
    } else if i >= a.len() {
        true
    } else if a[i] != b[i] {
        a[i] < b[i]
    } else {
        bytes_before_from(a, b, i + 1)
    }
}

/// The rank of a component's kind.
pub open spec fn rank(p: crate::paths::Part) -> int {
    match p {
        crate::paths::Part::Root => 0,
        crate::paths::Part::Current => 1,
        crate::paths::Part::Parent => 2,
        crate::paths::Part::Name(_) => 3,
    }
}

/// One component orders before another: by kind, names by their bytes.
pub open spec fn part_before(p: crate::paths::Part, q: crate::paths::Part) -> bool {
    if rank(p) != rank(q) {
        rank(p) < rank(q)
    } else {
        match (p, q) {
            (crate::paths::Part::Name(a), crate::paths::Part::Name(b)) => bytes_before_from(
                a,
                b,
                0,
            ),
            _ => false,
        }
    }
}

/// Dictionary order of component sequences, from position `i` on.
pub open spec fn parts_before_from(
    s: Seq<crate::paths::Part>,
    t: Seq<crate::paths::Part>,
    i: int,
) -> bool
    decreases t.len() - i,
{
    if i < 0 || i >= t.len() {
        false
    } else if i >= s.len() {
        true
    } else if s[i] != t[i] {
        part_before(s[i], t[i])
    } else {
        parts_before_from(s, t, i + 1)
    }
}

/// One path orders before another.
pub open spec fn path_before(a: Seq<u8>, b: Seq<u8>) -> bool {
    parts_before_from(crate::paths::parts(a), crate::paths::parts(b), 0)
}

/// Two paths have the same components.
pub open spec fn same_path(a: Seq<u8>, b: Seq<u8>) -> bool {
    crate::paths::parts(a) == crate::paths::parts(b)
}

/// The byte order is transitive.
pub proof fn bytes_before_transitive(a: Seq<u8>, b: Seq<u8>, c: Seq<u8>, i: int)
    requires
        bytes_before_from(a, b, i),
        bytes_before_from(b, c, i),
    ensures
        bytes_before_from(a, c, i),
    decreases c.len() - i,
{
    if i < a.len() && a[i] == b[i] && b[i] == c[i] {
        bytes_before_transitive(a, b, c, i + 1);
    }
}

/// Of two byte sequences that agree up to `i`, one orders before the other
/// or they are the same.
pub proof fn bytes_before_total(a: Seq<u8>, b: Seq<u8>, i: int)
    requires
        0 <= i <= a.len(),
        i <= b.len(),
        a.take(i) == b.take(i),
    ensures
        bytes_before_from(a, b, i) || bytes_before_from(b, a, i) || a == b,
        !(bytes_before_from(a, b, i) && bytes_before_from(b, a, i)),
        a == b ==> !bytes_before_from(a, b, i),
    decreases b.len() - i,
{
    if i < a.len() && i < b.len() {
        if a[i] == b[i] {
            assert(a.take(i + 1) =~= a.take(i).push(a[i]));
            assert(b.take(i + 1) =~= b.take(i).push(b[i]));
            bytes_before_total(a, b, i + 1);
        }
    } else if a.len() == b.len() {
        assert(a =~= a.take(i));
        assert(b =~= b.take(i));
    }
}

proof fn part_before_transitive(
    p: crate::paths::Part,
    q: crate::paths::Part,
    r: crate::paths::Part,
)
    requires
        part_before(p, q),
        part_before(q, r),
    ensures
        part_before(p, r),
{
    if rank(p) == rank(q) && rank(q) == rank(r) {
        bytes_before_transitive(p->Name_0, q->Name_0, r->Name_0, 0);
    }
}

proof fn part_before_total(p: crate::paths::Part, q: crate::paths::Part)
    ensures
        part_before(p, q) || part_before(q, p) || p == q,
        !(part_before(p, q) && part_before(q, p)),
        !part_before(p, p),
{
    if p is Name && q is Name {
        let (a, b) = (p->Name_0, q->Name_0);
        assert(a.take(0) =~= b.take(0));
        bytes_before_total(a, b, 0);
    }
    if p is Name {
        bytes_before_total(p->Name_0, p->Name_0, 0);
    }
}

proof fn parts_before_transitive(
    s: Seq<crate::paths::Part>,
    t: Seq<crate::paths::Part>,
    u: Seq<crate::paths::Part>,
    i: int,
)
    requires
        parts_before_from(s, t, i),
        parts_before_from(t, u, i),
    ensures
        parts_before_from(s, u, i),
    decreases u.len() - i,
{
    if i < s.len() {
        if s[i] == t[i] && t[i] == u[i] {
            parts_before_transitive(s, t, u, i + 1);
        } else if s[i] != t[i] && t[i] != u[i] {
            part_before_transitive(s[i], t[i], u[i]);
            part_before_total(s[i], u[i]);
            part_before_total(s[i], t[i]);
        }
    }
}

proof fn parts_before_total(s: Seq<crate::paths::Part>, t: Seq<crate::paths::Part>, i: int)
    requires
        0 <= i <= s.len(),
        i <= t.len(),
        s.take(i) == t.take(i),
    ensures
        parts_before_from(s, t, i) || parts_before_from(t, s, i) || s == t,
        !(parts_before_from(s, t, i) && parts_before_from(t, s, i)),
        s == t ==> !parts_before_from(s, t, i),
    decreases t.len() - i,
{
    if i < s.len() && i < t.len() {
        if s[i] == t[i] {
            assert(s.take(i + 1) =~= s.take(i).push(s[i]));
            assert(t.take(i + 1) =~= t.take(i).push(t[i]));
            parts_before_total(s, t, i + 1);
        } else {
            part_before_total(s[i], t[i]);
        }
    } else if s.len() == t.len() {
        assert(s =~= s.take(i));
        assert(t =~= t.take(i));
    }
}

/// The order of paths is a strict total order on their components.
pub proof fn path_order_is_total(a: Seq<u8>, b: Seq<u8>)
    ensures
        path_before(a, b) || path_before(b, a) || same_path(a, b),
        !(path_before(a, b) && path_before(b, a)),
        same_path(a, b) ==> !path_before(a, b),
{
    let (s, t) = (crate::paths::parts(a), crate::paths::parts(b));
    assert(s.take(0) =~= t.take(0));
    parts_before_total(s, t, 0);
}

/// The order of paths is transitive.
pub proof fn path_order_is_transitive(a: Seq<u8>, b: Seq<u8>, c: Seq<u8>)
    requires
        path_before(a, b),
        path_before(b, c),
    ensures
        path_before(a, c),
{
    parts_before_transitive(
        crate::paths::parts(a),
        crate::paths::parts(b),
        crate::paths::parts(c),
        0,
    );
}

/// The outcome of comparing two paths.
#[derive(Clone, Copy, PartialEq, Eq, Structural)]
pub enum Order {
    Before,
    Same,
    After,
}

/// Compares byte sequences in dictionary order.
pub fn order_bytes(a: &[u8], b: &[u8]) -> (o: Order)
    ensures
        o == Order::Before <==> bytes_before_from(a@, b@, 0),
        o == Order::Same <==> a@ == b@,
        o == Order::After <==> bytes_before_from(b@, a@, 0),
{
    let mut i: usize = 0;
    assert(a@.take(0) =~= b@.take(0));
    while i < a.len() && i < b.len() && a[i] == b[i]
        invariant
            i <= a@.len(),
            i <= b@.len(),
            a@.take(i as int) == b@.take(i as int),
            bytes_before_from(a@, b@, 0) == bytes_before_from(a@, b@, i as int),
            bytes_before_from(b@, a@, 0) == bytes_before_from(b@, a@, i as int),
        decreases a@.len() - i,
    {
        assert(a@.take(i + 1) =~= a@.take(i as int).push(a@[i as int]));
        assert(b@.take(i + 1) =~= b@.take(i as int).push(b@[i as int]));
        i = i + 1;
    }
    proof {
        bytes_before_total(a@, b@, i as int);
    }
    if i < a.len() && i < b.len() {
        if a[i] < b[i] {
            Order::Before
        } else {
            Order::After
        }
    } else if i < b.len() {
        Order::Before
    } else if i < a.len() {
        Order::After
    } else {
        assert(a@ =~= a@.take(i as int));
        assert(b@ =~= b@.take(i as int));
        Order::Same
    }
}

fn rank_of(c: &Component) -> (r: u8)
    ensures
        r == rank(c@),
{
    match c {
        Component::Root => 0,
        Component::Current => 1,
        Component::Parent => 2,
        Component::Name(_) => 3,
    }
}

fn order_parts(p: &Component, q: &Component) -> (o: Order)
    ensures
        o == Order::Before <==> part_before(p@, q@),
        o == Order::Same <==> p@ == q@,
        o == Order::After <==> part_before(q@, p@),
{
    proof {
        part_before_total(p@, q@);
    }
    let (a, b): (u8, u8) = (rank_of(p), rank_of(q));
    if a < b {
        return Order::Before;
    }
    if b < a {
        return Order::After;
    }
    match (p, q) {
        (Component::Name(x), Component::Name(y)) => order_bytes(x.as_slice(), y.as_slice()),
        _ => Order::Same,
    }
}

/// Compares two paths component by component.
pub fn order_paths(a: &[u8], b: &[u8]) -> (o: Order)
    ensures
        o == Order::Before <==> path_before(a@, b@),
        o == Order::Same <==> same_path(a@, b@),
        o == Order::After <==> path_before(b@, a@),
{
    let v = read_marks(a);
    let w = read_marks(b);
    let ghost s = crate::paths::parts(a@);
    let ghost t = crate::paths::parts(b@);
    proof {
        assert(s.len() == v.len());
        assert(t.len() == w.len());
        assert forall|k: int| 0 <= k < v.len() implies s[k] == v@[k].0@ by {
            assert(crate::paths::mark_views(v@)[k].part == v@[k].0@);
        }
        assert forall|k: int| 0 <= k < w.len() implies t[k] == w@[k].0@ by {
            assert(crate::paths::mark_views(w@)[k].part == w@[k].0@);
        }
    }
    let mut i: usize = 0;
    assert(s.take(0) =~= t.take(0));
    while i < v.len() && i < w.len()
        invariant
            i <= v@.len(),
            i <= w@.len(),
            s == crate::paths::parts(a@),
            t == crate::paths::parts(b@),
            s.len() == v.len(),
            t.len() == w.len(),
            forall|k: int| 0 <= k < v.len() ==> s[k] == v@[k].0@,
            forall|k: int| 0 <= k < w.len() ==> t[k] == w@[k].0@,
            s.take(i as int) == t.take(i as int),
            parts_before_from(s, t, 0) == parts_before_from(s, t, i as int),
            parts_before_from(t, s, 0) == parts_before_from(t, s, i as int),
        decreases v@.len() - i,
    {
        proof {
            parts_before_total(s, t, i as int);
        }
        let o = order_parts(&v[i].0, &w[i].0);
        match o {
            Order::Same => {},
            _ => {
                assert(s[i as int] != t[i as int]) by {
                    part_before_total(s[i as int], t[i as int]);
                }
                return o;
            },
        }
        assert(s.take(i + 1) =~= s.take(i as int).push(s[i as int]));
        assert(t.take(i + 1) =~= t.take(i as int).push(t[i as int]));
        i = i + 1;
    }
    proof {
        parts_before_total(s, t, i as int);
    }
    if i < w.len() {
        Order::Before
    } else if i < v.len() {
        Order::After
    } else {
        assert(s =~= s.take(i as int));
        assert(t =~= t.take(i as int));
        Order::Same
    }
}

/// Strictly ascending in path order.
pub open spec fn ascending(s: Seq<Seq<u8>>) -> bool {
    forall|i: int, j: int| 0 <= i < j < s.len() ==> path_before(#[trigger] s[i], #[trigger] s[j])
}

/// A path with these components is a member.
pub open spec fn member(s: Seq<Seq<u8>>, p: Seq<u8>) -> bool {
    exists|i: int| 0 <= i < s.len() && same_path(#[trigger] s[i], p)
}

/// How many members at the front order before a path.
pub open spec fn place_of(s: Seq<Seq<u8>>, p: Seq<u8>) -> int
    decreases s.len(),
{
    if s.len() > 0 && path_before(s[0], p) {
        1 + place_of(s.skip(1), p)
    } else {
        0
    }
}

/// The members with a path added in its place, unless it is there already.
pub open spec fn with_path(s: Seq<Seq<u8>>, p: Seq<u8>) -> Seq<Seq<u8>> {
    if member(s, p) {
        s
    } else {
        s.insert(place_of(s, p), p)
    }
}

/// The members without a path.
pub open spec fn without_path(s: Seq<Seq<u8>>, p: Seq<u8>) -> Seq<Seq<u8>> {
    if member(s, p) {
        s.remove(place_of(s, p))
    } else {
        s
    }
}

proof fn place_is(s: Seq<Seq<u8>>, p: Seq<u8>, at: int)
    requires
        0 <= at <= s.len(),
        forall|k: int| 0 <= k < at ==> path_before(#[trigger] s[k], p),
        at < s.len() ==> !path_before(s[at], p),
    ensures
        place_of(s, p) == at,
    decreases s.len(),
{
    if at > 0 {
        let rest = s.skip(1);
        assert forall|k: int| 0 <= k < at - 1 implies path_before(#[trigger] rest[k], p) by {
            assert(rest[k] == s[k + 1]);
        }
        place_is(rest, p, at - 1);
        assert(path_before(s[0], p));
    }
}

/// A set of paths, in ascending order.
pub struct PathSet {
    items: Vec<Vec<u8>>,
}

impl View for PathSet {
    type V = Seq<Seq<u8>>;

    closed spec fn view(&self) -> Seq<Seq<u8>> {
        crate::paths::path_views(self.items@)
    }
}

impl PathSet {
    /// The members are in strictly ascending order, so none occurs twice.
    #[verifier::type_invariant]
    spec fn ordered(self) -> bool {
        ascending(crate::paths::path_views(self.items@))
    }

    /// The empty set.
    pub fn new() -> (set: PathSet)
        ensures
            set@ == Seq::<Seq<u8>>::empty(),
    {
        let items: Vec<Vec<u8>> = Vec::new();
        assert(crate::paths::path_views(items@) =~= Seq::<Seq<u8>>::empty());
        PathSet { items }
    }

    /// The number of members.
    pub fn len(&self) -> (n: usize)
        ensures
            n == self@.len(),
            ascending(self@),
    {
        proof {
            use_type_invariant(self);
        }
        self.items.len()
    }

    /// The set has no members.
    pub fn is_empty(&self) -> (yes: bool)
        ensures
            yes == (self@.len() == 0),
    {
        self.items.len() == 0
    }

    /// All members, in ascending order.
    pub fn paths(&self) -> (v: Vec<Vec<u8>>)
        ensures
            crate::paths::path_views(v@) == self@,
            ascending(self@),
    {
        proof {
            use_type_invariant(self);
        }
        let mut v: Vec<Vec<u8>> = Vec::new();
        let mut i: usize = 0;
        while i < self.items.len()
            invariant
                i <= self.items@.len(),
                crate::paths::path_views(v@) == self@.take(i as int),
            decreases self.items@.len() - i,
        {
            let ghost before = v@;
            v.push(vstd::slice::slice_to_vec(self.items[i].as_slice()));
            assert(crate::paths::path_views(v@) =~= crate::paths::path_views(before).push(
                self@[i as int],
            ));
            i = i + 1;
            assert(self@.take(i as int) =~= self@.take(i - 1).push(self@[i - 1]));
        }
        assert(self@.take(i as int) =~= self@);
        v
    }

    /// Where a path stands or belongs: everything in front of the position
    /// orders before it, and nothing from it on does.
    fn position(&self, path: &[u8]) -> (at: (usize, bool))
        ensures
            at.0 <= self.items@.len(),
            forall|k: int| 0 <= k < at.0 ==> path_before(#[trigger] self@[k], path@),
            at.1 ==> at.0 < self.items@.len() && same_path(self@[at.0 as int], path@),
            !at.1 && at.0 < self.items@.len() ==> path_before(path@, self@[at.0 as int]),
    {
        let mut i: usize = 0;
        while i < self.items.len()
            invariant
                i <= self.items@.len(),
                forall|k: int| 0 <= k < i ==> path_before(#[trigger] self@[k], path@),
            decreases self.items@.len() - i,
        {
            assert(self@[i as int] == self.items@[i as int]@);
            match order_paths(self.items[i].as_slice(), path) {
                Order::Before => {},
                Order::Same => {
                    return (i, true);
                },
                Order::After => {
                    return (i, false);
                },
            }
            i = i + 1;
        }
        (i, false)
    }

    proof fn position_decides(self, path: Seq<u8>, at: int, found: bool)
        requires
            ascending(self@),
            0 <= at <= self@.len(),
            forall|k: int| 0 <= k < at ==> path_before(#[trigger] self@[k], path),
            found ==> at < self@.len() && same_path(self@[at], path),
            !found && at < self@.len() ==> path_before(path, self@[at]),
        ensures
            found == member(self@, path),
            !found ==> ascending(self@.insert(at, path)),
            at == place_of(self@, path),
    {
        let s = self@;
        if at < s.len() {
            path_order_is_total(s[at], path);
        }
        place_is(s, path, at);
        if !found {
            assert forall|k: int| at <= k < s.len() implies path_before(path, #[trigger] s[k]) by {
                if k > at {
                    path_order_is_transitive(path, s[at], s[k]);
                }
            }
            assert forall|k: int| 0 <= k < s.len() implies !same_path(#[trigger] s[k], path) by {
                path_order_is_total(s[k], path);
            }
            let t = s.insert(at, path);
            assert forall|i: int, j: int| 0 <= i < j < t.len() implies path_before(
                #[trigger] t[i],
                #[trigger] t[j],
            ) by {
                if j < at {
                    assert(t[i] == s[i] && t[j] == s[j]);
                } else if j == at {
                    assert(t[i] == s[i] && t[j] == path);
                } else if i < at {
                    assert(t[i] == s[i] && t[j] == s[j - 1]);
                } else if i == at {
                    assert(t[i] == path && t[j] == s[j - 1]);
                } else {
                    assert(t[i] == s[i - 1] && t[j] == s[j - 1]);
                }
            }
        }
    }

    /// A path with these components is a member.
    pub fn contains(&self, path: &[u8]) -> (yes: bool)
        ensures
            yes == member(self@, path@),
    {
        proof {
            use_type_invariant(self);
        }
        let at: (usize, bool) = self.position(path);
        proof {
            self.position_decides(path@, at.0 as int, at.1);
        }
        at.1
    }

    /// Adds a path in its place, unless one with the same components is there.
    pub fn insert(&mut self, path: Vec<u8>) -> (added: bool)
        ensures
            added == !member(old(self)@, path@),
            final(self)@ == with_path(old(self)@, path@),
            ascending(final(self)@),
            member(final(self)@, path@),
    {
        proof {
            use_type_invariant(&*self);
        }
        let at: (usize, bool) = self.position(path.as_slice());
        proof {
            self.position_decides(path@, at.0 as int, at.1);
        }
        if at.1 {
            return false;
        }
        let ghost before = self.items@;
        let mut items: Vec<Vec<u8>> = Vec::new();
        std::mem::swap(&mut self.items, &mut items);
        items.insert(at.0, path);
        assert(crate::paths::path_views(items@) =~= crate::paths::path_views(before).insert(
            at.0 as int,
            path@,
        ));
        self.items = items;
        assert(self@[at.0 as int] == path@);
        true
    }

    /// Takes out the member with these components, if there is one.
    pub fn remove(&mut self, path: &[u8]) -> (removed: bool)
        ensures
            removed == member(old(self)@, path@),
            final(self)@ == without_path(old(self)@, path@),
            ascending(final(self)@),
    {
        proof {
            use_type_invariant(&*self);
        }
        let at: (usize, bool) = self.position(path);
        proof {
            self.position_decides(path@, at.0 as int, at.1);
        }
        if !at.1 {
            return false;
        }
        let ghost before = self.items@;
        let mut items: Vec<Vec<u8>> = Vec::new();
        std::mem::swap(&mut self.items, &mut items);
        let _ = items.remove(at.0);
        proof {
            let s = crate::paths::path_views(before);
            let t = crate::paths::path_views(items@);
            assert(t =~= s.remove(at.0 as int));
            assert forall|i: int, j: int| 0 <= i < j < t.len() implies path_before(
                #[trigger] t[i],
                #[trigger] t[j],
            ) by {
                let i2 = if i < at.0 { i } else { i + 1 };
                let j2 = if j < at.0 { j } else { j + 1 };
                assert(t[i] == s[i2] && t[j] == s[j2]);
            }
        }
        self.items = items;
        true
    }

    /// Takes out all members.
    pub fn clear(&mut self)
        ensures
            final(self)@ == Seq::<Seq<u8>>::empty(),
    {
        let empty: Vec<Vec<u8>> = Vec::new();
        assert(crate::paths::path_views(empty@) =~= Seq::<Seq<u8>>::empty());
        self.items = empty;
    }
}

/// Adding a path that was not a member and taking it out again changes nothing.
pub proof fn insert_then_remove(s: Seq<Seq<u8>>, p: Seq<u8>)
    requires
        !member(s, p),
    ensures
        without_path(with_path(s, p), p) == s,
{
    place_in_range(s, p);
    let at = place_of(s, p);
    let t = s.insert(at, p);
    assert(t[at] == p);
    assert(member(t, p));
    path_order_is_total(p, p);
    assert forall|k: int| 0 <= k < at implies path_before(#[trigger] t[k], p) by {
        assert(t[k] == s[k]);
    }
    place_is(t, p, at);
    assert(t.remove(at) =~= s);
}

proof fn place_in_range(s: Seq<Seq<u8>>, p: Seq<u8>)
    ensures
        0 <= place_of(s, p) <= s.len(),
        forall|k: int| 0 <= k < place_of(s, p) ==> path_before(#[trigger] s[k], p),
    decreases s.len(),
{
    if s.len() > 0 && path_before(s[0], p) {
        place_in_range(s.skip(1), p);
        assert forall|k: int| 0 <= k < place_of(s, p) implies path_before(#[trigger] s[k], p) by {
            if k > 0 {
                assert(s.skip(1)[k - 1] == s[k]);
            }
        }
    }
}

/// What is in the set after adding a path: the path and what was there.
pub proof fn insert_members(s: Seq<Seq<u8>>, p: Seq<u8>, q: Seq<u8>)
    ensures
        member(with_path(s, p), q) == (member(s, q) || same_path(p, q)),
        with_path(s, p).len() == s.len() + (if member(s, p) {
            0int
        } else {
            1int
        }),
{
    place_in_range(s, p);
    let at = place_of(s, p);
    if member(s, p) {
        if same_path(p, q) {
            let i = choose|i: int| 0 <= i < s.len() && same_path(#[trigger] s[i], p);
            assert(same_path(s[i], q));
        }
    } else {
        let t = s.insert(at, p);
        if member(s, q) {
            let i = choose|i: int| 0 <= i < s.len() && same_path(#[trigger] s[i], q);
            assert(t[if i < at { i } else { i + 1 }] == s[i]);
        }
        if same_path(p, q) {
            assert(same_path(t[at], q));
        }
        if member(t, q) {
            let i = choose|i: int| 0 <= i < t.len() && same_path(#[trigger] t[i], q);
            if i < at {
                assert(t[i] == s[i]);
            } else if i > at {
                assert(t[i] == s[i - 1]);
            }
        }
    }
}

/// Removing a path takes away that path and no other.
pub proof fn remove_members(s: Seq<Seq<u8>>, p: Seq<u8>, q: Seq<u8>)
    requires
        ascending(s),
    ensures
        member(without_path(s, p), q) == (member(s, q) && !same_path(p, q)),
        without_path(s, p).len() == s.len() - (if member(s, p) {
            1int
        } else {
            0int
        }),
{
    if member(s, p) {
        let at = choose|i: int| 0 <= i < s.len() && same_path(#[trigger] s[i], p);
        assert forall|k: int| 0 <= k < at implies path_before(#[trigger] s[k], p) by {
            assert(path_before(s[k], s[at]));
        }
        path_order_is_total(s[at], p);
        place_is(s, p, at);
        let t = without_path(s, p);
        if member(t, q) {
            let k = choose|k: int| 0 <= k < t.len() && same_path(#[trigger] t[k], q);
            let j = if k < at {
                k
            } else {
                k + 1
            };
            assert(t[k] == s[j]);
            assert(same_path(s[j], q));
            if same_path(p, q) {
                path_order_is_total(s[j], s[at]);
                if j < at {
                    assert(path_before(s[j], s[at]));
                } else {
                    assert(path_before(s[at], s[j]));
                    path_order_is_total(s[at], s[j]);
                }
            }
        }
        if member(s, q) && !same_path(p, q) {
            let j = choose|j: int| 0 <= j < s.len() && same_path(#[trigger] s[j], q);
            let k = if j < at {
                j
            } else {
                j - 1
            };
            assert(t[k] == s[j]);
        }
    } else if same_path(p, q) && member(s, q) {
        let j = choose|j: int| 0 <= j < s.len() && same_path(#[trigger] s[j], q);
        assert(same_path(s[j], p));
    }
}

/// No component orders before itself.
pub proof fn never_before_itself(p: crate::paths::Part)
    ensures
        !part_before(p, p),
{
    part_before_total(p, p);
}

} // verus!
