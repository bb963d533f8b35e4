//! Laws of directory listings, filters and typed locations.

#![allow(unused_imports)]

use vstd::prelude::*;

use crate::chooser::{
    filter_allows, glob_match, list_dir, type_matches, DirItem, Entry, EntryContent,
};
use crate::location::{common_prefix, normalize_lexical, split_dir_tail};
use crate::paths::{file_name_of, join, Part};
use crate::prompter::{FileFilter, FilterRuleKind};

verus! {

/// A listing shows folders first, and each group by the whole lower-case
/// name: of two rows of one kind, where their lower-case names first differ,
/// the earlier row has the smaller byte or has ended.
pub proof fn listings_are_sorted_by_the_whole_name(
    dir: &[u8],
    items: Vec<DirItem>,
    show_hidden: bool,
    filter: Option<&FileFilter>,
    listing: Vec<Entry>,
    i: int,
    j: int,
    d: int,
)
    requires
        call_ensures(list_dir, (dir, &items, show_hidden, filter), listing),
        0 <= i < j < listing@.len(),
    ensures
        listing@[j].is_dir ==> listing@[i].is_dir,
        listing@[i].is_dir == listing@[j].is_dir ==> {
            let x = vstd::utf8::encode_utf8(crate::text::lower(listing@[i].name@));
            let y = vstd::utf8::encode_utf8(crate::text::lower(listing@[j].name@));
            0 <= d <= x.len() && d <= y.len() && x.take(d) == y.take(d) ==> d == x.len() || (d
                < y.len() && x[d] <= y[d])
        },
{
    let rows = crate::chooser::shown_rows(
        dir@,
        items@,
        show_hidden,
        match filter {
            Some(f) => Some(f@),
            None => None,
        },
    );
    let list = crate::chooser::rows_view(listing@);
    crate::chooser::listing_is_sorted(rows, list);
    assert(list[i] == listing@[i]@);
    assert(list[j] == listing@[j]@);
    assert(!crate::chooser::row_before(list[j], list[i]));
    let x = vstd::utf8::encode_utf8(crate::text::lower(listing@[i].name@));
    let y = vstd::utf8::encode_utf8(crate::text::lower(listing@[j].name@));
    if listing@[i].is_dir == listing@[j].is_dir && 0 <= d <= x.len() && d <= y.len() && x.take(d)
        == y.take(d) {
        not_before_from(y, x, 0, d);
    }
}

proof fn not_before_from(y: Seq<u8>, x: Seq<u8>, i: int, d: int)
    requires
        !crate::pathset::bytes_before_from(y, x, i),
        0 <= i <= d <= x.len(),
        d <= y.len(),
        x.take(d) == y.take(d),
    ensures
        d == x.len() || (d < y.len() && x[d] <= y[d]),
    decreases d - i,
{
    if i < d {
        assert(x[i] == x.take(d)[i]);
        assert(y[i] == y.take(d)[i]);
        not_before_from(y, x, i + 1, d);
    }
}

/// Every row of a listing is one of the items that were read, under its own
/// name in the folder that was read; it is hidden only if its name begins
/// with a dot, and a file also only if the filter takes it.
pub proof fn listings_show_what_was_read(
    dir: &[u8],
    items: Vec<DirItem>,
    show_hidden: bool,
    filter: Option<&FileFilter>,
    listing: Vec<Entry>,
    n: int,
)
    requires
        call_ensures(list_dir, (dir, &items, show_hidden, filter), listing),
        0 <= n < listing@.len(),
    ensures
        exists|m: int|
            #![trigger items@[m]]
            0 <= m < items@.len() && {
                let row = listing@[n];
                &&& row.is_dir == items@[m].is_dir
                &&& row.name@ == crate::text::lossy(items@[m].name@)
                &&& row.path@ == crate::paths::joined(dir@, items@[m].name@)
                &&& show_hidden || row.name@.len() == 0 || row.name@[0] != '.'
                &&& !row.is_dir && filter is Some ==> crate::chooser::allowed(
                    filter->0@,
                    row.path@,
                )
            },
{
    let wanted = match filter {
        Some(f) => Some(f@),
        None => None,
    };
    let rows = crate::chooser::shown_rows(dir@, items@, show_hidden, wanted);
    let list = crate::chooser::rows_view(listing@);
    let order = order_of(rows, list);
    assert(list[n] == listing@[n]@);
    assert(list[n] == rows[order[n]]);
    rows_were_read(dir@, items@, show_hidden, wanted, order[n]);
}

/// No item is left out of a listing but dotfiles and files that the filter
/// does not take, and no item is shown twice.
pub proof fn listings_leave_nothing_else_out(
    dir: &[u8],
    items: Vec<DirItem>,
    show_hidden: bool,
    filter: Option<&FileFilter>,
    listing: Vec<Entry>,
    m: int,
)
    requires
        call_ensures(list_dir, (dir, &items, show_hidden, filter), listing),
        0 <= m < items@.len(),
        ({
            let name = crate::text::lossy(items@[m].name@);
            show_hidden || name.len() == 0 || name[0] != '.'
        }),
        items@[m].is_dir || filter is None || crate::chooser::allowed(
            filter->0@,
            crate::paths::joined(dir@, items@[m].name@),
        ),
    ensures
        listing@.len() <= items@.len(),
        exists|n: int|
            #![trigger listing@[n]]
            0 <= n < listing@.len() && listing@[n].is_dir == items@[m].is_dir && listing@[n].name@
                == crate::text::lossy(items@[m].name@) && listing@[n].path@
                == crate::paths::joined(dir@, items@[m].name@),
{
    let wanted = match filter {
        Some(f) => Some(f@),
        None => None,
    };
    let rows = crate::chooser::shown_rows(dir@, items@, show_hidden, wanted);
    let list = crate::chooser::rows_view(listing@);
    let order = order_of(rows, list);
    read_items_are_rows(dir@, items@, show_hidden, wanted, m);
    let j = choose|j: int|
        0 <= j < rows.len() && #[trigger] rows[j] == crate::chooser::row_of(dir@, items@[m]);
    orders_reach_every_position(rows, order, j);
    let n = choose|n: int| 0 <= n < order.len() && #[trigger] order[n] == j;
    assert(list[n] == rows[order[n]]);
    assert(list[n] == listing@[n]@);
}

pub(crate) proof fn order_of(rows: Seq<EntryContent>, list: Seq<EntryContent>) -> (order: Seq<int>)
    requires
        crate::chooser::listed(rows, list),
    ensures
        crate::chooser::stable_order(rows, order),
        list.len() == rows.len(),
        forall|n: int| 0 <= n < list.len() ==> #[trigger] list[n] == rows[order[n]],
{
    choose|order: Seq<int>| #[trigger]
        crate::chooser::stable_order(rows, order) && list == crate::chooser::picked(rows, order)
}

pub(crate) proof fn rows_were_read(
    dir: Seq<u8>,
    items: Seq<DirItem>,
    show_hidden: bool,
    filter: Option<crate::prompter::FilterContent>,
    j: int,
)
    requires
        0 <= j < crate::chooser::shown_rows(dir, items, show_hidden, filter).len(),
    ensures
        exists|m: int|
            #![trigger items[m]]
            0 <= m < items.len() && crate::chooser::shown_rows(dir, items, show_hidden, filter)[j]
                == crate::chooser::row_of(dir, items[m]) && crate::chooser::shown(
                crate::chooser::row_of(dir, items[m]),
                show_hidden,
                filter,
            ),
    decreases items.len(),
{
    let rows = crate::chooser::shown_rows(dir, items, show_hidden, filter);
    let earlier = crate::chooser::shown_rows(dir, items.drop_last(), show_hidden, filter);
    if j < earlier.len() {
        rows_were_read(dir, items.drop_last(), show_hidden, filter, j);
        let m = choose|m: int|
            #![trigger items.drop_last()[m]]
            0 <= m < items.drop_last().len() && earlier[j] == crate::chooser::row_of(
                dir,
                items.drop_last()[m],
            ) && crate::chooser::shown(
                crate::chooser::row_of(dir, items.drop_last()[m]),
                show_hidden,
                filter,
            );
        assert(items[m] == items.drop_last()[m]);
    } else {
        assert(rows[j] == crate::chooser::row_of(dir, items[items.len() - 1]));
    }
}

pub(crate) proof fn read_items_are_rows(
    dir: Seq<u8>,
    items: Seq<DirItem>,
    show_hidden: bool,
    filter: Option<crate::prompter::FilterContent>,
    m: int,
)
    requires
        0 <= m < items.len(),
        crate::chooser::shown(crate::chooser::row_of(dir, items[m]), show_hidden, filter),
    ensures
        ({
            let rows = crate::chooser::shown_rows(dir, items, show_hidden, filter);
            &&& rows.len() <= items.len()
            &&& exists|j: int|
                0 <= j < rows.len() && #[trigger] rows[j] == crate::chooser::row_of(dir, items[m])
        }),
    decreases items.len(),
{
    let rows = crate::chooser::shown_rows(dir, items, show_hidden, filter);
    let earlier = crate::chooser::shown_rows(dir, items.drop_last(), show_hidden, filter);
    rows_are_not_more(dir, items.drop_last(), show_hidden, filter);
    if m == items.len() - 1 {
        assert(rows[earlier.len() as int] == crate::chooser::row_of(dir, items[m]));
    } else {
        assert(items.drop_last()[m] == items[m]);
        read_items_are_rows(dir, items.drop_last(), show_hidden, filter, m);
        let j = choose|j: int|
            0 <= j < earlier.len() && #[trigger] earlier[j] == crate::chooser::row_of(
                dir,
                items[m],
            );
        assert(rows[j] == earlier[j]);
    }
}

proof fn rows_are_not_more(
    dir: Seq<u8>,
    items: Seq<DirItem>,
    show_hidden: bool,
    filter: Option<crate::prompter::FilterContent>,
)
    ensures
        crate::chooser::shown_rows(dir, items, show_hidden, filter).len() <= items.len(),
    decreases items.len(),
{
    if items.len() > 0 {
        rows_are_not_more(dir, items.drop_last(), show_hidden, filter);
    }
}

pub(crate) proof fn orders_reach_every_position(rows: Seq<EntryContent>, order: Seq<int>, j: int)
    requires
        crate::chooser::stable_order(rows, order),
        0 <= j < rows.len(),
    ensures
        exists|n: int| 0 <= n < order.len() && #[trigger] order[n] == j,
{
    assert forall|a: int, b: int| 0 <= a < b < order.len() implies order[a] != order[b] by {
        assert(crate::chooser::ranked(rows, order[a], order[b]));
        if order[a] == order[b] {
            never_before_itself(rows[order[a]]);
        }
    }
    assert(order.no_duplicates());
    order.unique_seq_to_set();
    let all = vstd::set_lib::set_int_range(0, rows.len() as int);
    vstd::set_lib::lemma_int_range(0, rows.len() as int);
    assert(order.to_set().subset_of(all));
    vstd::set_lib::lemma_subset_equality(order.to_set(), all);
    assert(order.to_set().contains(j));
}

proof fn never_before_itself(row: EntryContent)
    ensures
        !crate::chooser::row_before(row, row),
{
    let key = crate::chooser::sort_key(row);
    assert(key.take(0) =~= key.take(0));
    crate::pathset::bytes_before_total(key, key, 0);
}

/// A text with nothing in it that a pattern reads in a special way.
pub open spec fn plain(p: Seq<char>) -> bool {
    !p.contains('*') && !p.contains('?') && !p.contains('[')
}

/// A pattern without anything special matches itself alone.
pub proof fn plain_patterns_match_themselves(pattern: &str, name: &str, yes: bool)
    requires
        call_ensures(glob_match, (pattern, name), yes),
        plain(pattern@),
    ensures
        yes == (pattern@ == name@),
{
    crate::chooser::literal_matches_itself(pattern@, name@);
}

/// A star between two plain texts matches whatever begins with the first,
/// ends with the second, and is long enough for both.
pub proof fn stars_match_anything_between(
    pattern: &str,
    name: &str,
    yes: bool,
    front: Seq<char>,
    back: Seq<char>,
)
    requires
        call_ensures(glob_match, (pattern, name), yes),
        pattern@ == front + seq!['*'] + back,
        plain(front),
        plain(back),
    ensures
        yes == (name@.len() >= front.len() + back.len() && front.is_prefix_of(name@)
            && back.is_suffix_of(name@)),
{
    star_between(front, back, name@);
}

proof fn star_between(front: Seq<char>, back: Seq<char>, n: Seq<char>)
    requires
        plain(front),
        plain(back),
    ensures
        crate::chooser::matches_glob(front + seq!['*'] + back, n) == (n.len() >= front.len()
            + back.len() && front.is_prefix_of(n) && back.is_suffix_of(n)),
    decreases front.len(),
{
    let p = front + seq!['*'] + back;
    if front.len() == 0 {
        assert(p =~= seq!['*'] + back);
        crate::chooser::star_then_literal_matches_suffix(back, n);
        assert(front.is_prefix_of(n));
    } else {
        let rest = front.skip(1);
        assert(p.skip(1) =~= rest + seq!['*'] + back);
        assert(p[0] == front[0]);
        assert(front.contains(front[0]));
        assert(plain(rest)) by {
            assert forall|c: char| rest.contains(c) implies front.contains(c) by {
                let k = choose|k: int| 0 <= k < rest.len() && rest[k] == c;
                assert(front[k + 1] == c);
            }
        }
        if n.len() > 0 {
            star_between(rest, back, n.skip(1));
            if n[0] == front[0] {
                if rest.is_prefix_of(n.skip(1)) {
                    assert(front =~= n.take(front.len() as int)) by {
                        assert forall|k: int| 0 <= k < front.len() implies front[k] == n[k] by {
                            if k > 0 {
                                assert(rest[k - 1] == n.skip(1)[k - 1]);
                            }
                        }
                    }
                }
                if front.is_prefix_of(n) {
                    assert(rest =~= n.skip(1).take(rest.len() as int));
                }
                if n.len() >= front.len() + back.len() {
                    if back.is_suffix_of(n) {
                        assert(back =~= n.skip(1).skip(n.skip(1).len() - back.len()));
                    }
                    if back.is_suffix_of(n.skip(1)) {
                        assert(back =~= n.skip(n.len() - back.len()));
                    }
                }
            } else if front.is_prefix_of(n) {
                assert(front[0] == n[0]);
            }
        }
    }
}

/// Question marks match one character each.
pub proof fn question_marks_match_one_character_each(pattern: &str, name: &str, yes: bool)
    requires
        call_ensures(glob_match, (pattern, name), yes),
        forall|i: int| 0 <= i < pattern@.len() ==> #[trigger] pattern@[i] == '?',
    ensures
        yes == (pattern@.len() == name@.len()),
{
    question_marks(pattern@, name@);
}

proof fn question_marks(p: Seq<char>, n: Seq<char>)
    requires
        forall|i: int| 0 <= i < p.len() ==> #[trigger] p[i] == '?',
    ensures
        crate::chooser::matches_glob(p, n) == (p.len() == n.len()),
    decreases p.len(),
{
    if p.len() > 0 && n.len() > 0 {
        assert(p[0] == '?');
        question_marks(p.skip(1), n.skip(1));
    } else if p.len() > 0 {
        assert(p[0] == '?');
    }
}

/// A class of one range matches the characters of that range, and a negated
/// one all others.
#[verifier::spinoff_prover]
pub proof fn classes_match_their_range(
    pattern: &str,
    name: &str,
    yes: bool,
    low: char,
    high: char,
    negated: bool,
)
    requires
        call_ensures(glob_match, (pattern, name), yes),
        pattern@ == (if negated {
            seq!['[', '!', low, '-', high, ']']
        } else {
            seq!['[', low, '-', high, ']']
        }),
        low != ']' && low != '!' && high != ']',
    ensures
        yes == (name@.len() == 1 && ((low <= name@[0] <= high) != negated)),
{
    let p = pattern@;
    let n = name@;
    let from: int = if negated {
        2
    } else {
        1
    };
    reveal_with_fuel(crate::chooser::class_ranges, 3);
    assert(crate::chooser::class_ranges(p, from + 3) == (Seq::<(char, char)>::empty(), from + 3));
    let ranges = crate::chooser::class_ranges(p, from).0;
    assert(ranges =~= seq![(low, high)]);
    let class = crate::chooser::ClassContent { negated, ranges };
    assert(crate::chooser::class_at_head(p) == Some((class, from + 4)));
    if n.len() > 0 {
        let c = n[0];
        one_range_takes(class, low, high, c);
        assert(p.skip(from + 4).len() == 0);
        assert(crate::chooser::matches_glob(p.skip(from + 4), n.skip(1)) == (n.skip(1).len() == 0));
    }
}

proof fn one_range_takes(class: crate::chooser::ClassContent, low: char, high: char, c: char)
    requires
        class.ranges == seq![(low, high)],
    ensures
        class.takes(c) == ((low <= c <= high) != class.negated),
{
    let r = class.ranges;
    assert(r.len() == 1);
    assert(r[0] == (low, high));
    if low <= c <= high {
        assert(r[0].0 <= c <= r[0].1);
        assert(exists|i: int| 0 <= i < r.len() && (#[trigger] r[i]).0 <= c <= r[i].1);
    } else {
        assert forall|i: int| 0 <= i < r.len() implies !((#[trigger] r[i]).0 <= c <= r[i].1) by {
            assert(i == 0);
        }
    }
}

/// A filter takes a file exactly when one of its rules does: a glob by the
/// name of the file, a type by the type of the file.
pub proof fn filters_take_what_one_rule_takes(filter: FileFilter, path: &[u8], yes: bool)
    requires
        call_ensures(filter_allows, (&filter, path), yes),
    ensures
        yes <==> exists|i: int|
            #![trigger filter.rules@[i]]
            0 <= i < filter.rules@.len() && {
                let rule = filter.rules@[i];
                &&& rule.kind == FilterRuleKind::Glob ==> crate::paths::file_name(path@) is Some
                    && crate::chooser::matches_glob(
                    rule.value@,
                    crate::text::lossy(crate::paths::file_name(path@)->0),
                )
                &&& rule.kind == FilterRuleKind::Mime ==> crate::chooser::path_type(path@) is Some
                    && crate::chooser::type_fits(
                    rule.value@,
                    crate::chooser::path_type(path@)->0,
                )
            },
{
    let rules = filter@.rules;
    assert forall|i: int| 0 <= i < rules.len() implies #[trigger] rules[i] == (
        filter.rules@[i].kind,
        filter.rules@[i].value@,
    ) by {}
    if yes {
        let i = choose|i: int|
            0 <= i < rules.len() && crate::chooser::rule_allows(#[trigger] rules[i], path@);
        assert(filter.rules@[i].value@ == rules[i].1);
    }
    assert forall|i: int|
        #![trigger filter.rules@[i]]
        0 <= i < filter.rules@.len() && crate::chooser::rule_allows(
            (filter.rules@[i].kind, filter.rules@[i].value@),
            path@,
        ) implies yes by {
        assert(rules[i] == (filter.rules@[i].kind, filter.rules@[i].value@));
    }
}

/// A type matches itself, and a type that ends in a star matches every type
/// that begins with what stands before the star.
pub proof fn types_match_themselves_or_their_family(
    rule: &str,
    essence: Option<&str>,
    yes: bool,
    family: Seq<char>,
)
    requires
        call_ensures(type_matches, (rule, essence), yes),
    ensures
        essence is None ==> !yes,
        essence is Some && !rule@.contains('*') ==> yes == (essence->0@ == rule@),
        essence is Some && rule@ == family.push('*') ==> yes == family.is_prefix_of(essence->0@),
{
    if rule@.len() > 0 && rule@.last() == '*' {
        assert(rule@.contains('*'));
    }
    if rule@ == family.push('*') {
        assert(rule@.drop_last() =~= family);
    }
}

/// The type of a file is looked up by what stands behind the last dot of its
/// name, and a name without one, or with nothing before it, has no type.
pub proof fn types_are_looked_up_by_extension(dir: Seq<u8>, stem: Seq<u8>, ext: Seq<char>)
    requires
        stem.len() > 0,
        !stem.contains(0x2f),
        !vstd::utf8::encode_utf8(ext).contains(0x2f),
        !vstd::utf8::encode_utf8(ext).contains(0x2e),
        ext.len() > 0,
    ensures
        crate::chooser::path_type(
            crate::paths::joined(dir, stem.push(0x2e) + vstd::utf8::encode_utf8(ext)),
        ) == crate::chooser::listed_type(ext),
{
    let bytes = vstd::utf8::encode_utf8(ext);
    let name = stem.push(0x2e) + bytes;
    vstd::utf8::encode_utf8_valid_utf8(ext);
    vstd::utf8::encode_utf8_decode_utf8(ext);
    if bytes.len() == 0 {
        assert(bytes == vstd::utf8::encode_utf8(Seq::<char>::empty())) by {
            assert(vstd::utf8::encode_utf8(Seq::<char>::empty()) =~= Seq::<u8>::empty());
        }
        crate::text::encoding_determines_text(ext, Seq::empty());
    }
    assert(!name.contains(0x2f)) by {
        if name.contains(0x2f) {
            let k = choose|k: int| 0 <= k < name.len() && name[k] == 0x2f;
            if k < stem.len() {
                assert(stem[k] == 0x2f);
            } else if k > stem.len() {
                assert(bytes[k - stem.len() - 1] == 0x2f);
            }
        }
    }
    files_are_named_by_what_was_joined(dir, name);
    last_dot_is(name, stem.len() as int);
    assert(name.skip(stem.len() as int + 1) =~= bytes);
}

proof fn last_dot_is(name: Seq<u8>, at: int)
    requires
        0 <= at < name.len(),
        name[at] == 0x2e,
        forall|k: int| at < k < name.len() ==> name[k] != 0x2e,
    ensures
        crate::prompter::last_dot(name) == at,
    decreases name.len(),
{
    if at < name.len() - 1 {
        last_dot_is(name.drop_last(), at);
    }
}

/// A name that is put below a folder is the file name of the path.
pub proof fn files_are_named_by_what_was_joined(dir: Seq<u8>, name: Seq<u8>)
    requires
        name.len() > 0,
        !name.contains(0x2f),
        name != seq![0x2eu8],
        name != seq![0x2eu8, 0x2e],
    ensures
        crate::paths::file_name(crate::paths::joined(dir, name)) == Some(name),
{
    crate::paths::joining_adds_a_component(dir, name);
    let path = crate::paths::joined(dir, name);
    let parts = crate::paths::parts(path);
    let marks = crate::paths::marks(path);
    assert(parts.last() == Part::Name(name));
    assert(parts.last() == marks.last().part);
}

/// What stands behind the last slash is found there.
pub proof fn tails_begin_behind_the_last_slash(front: Seq<char>, last: Seq<char>)
    requires
        !last.contains('/'),
    ensures
        crate::location::tail_start(front + seq!['/'] + last) == front.len() + 1,
    decreases last.len(),
{
    let all = front + seq!['/'] + last;
    if last.len() > 0 {
        assert(last.contains(last[last.len() - 1]));
        assert(all.drop_last() =~= front + seq!['/'] + last.drop_last());
        assert(!last.drop_last().contains('/')) by {
            if last.drop_last().contains('/') {
                let k = choose|k: int|
                    0 <= k < last.drop_last().len() && last.drop_last()[k] == '/';
                assert(last[k] == '/');
            }
        }
        tails_begin_behind_the_last_slash(front, last.drop_last());
    }
}

/// A typed location is split behind its last slash.
pub proof fn locations_are_split_behind_the_last_slash(typed: &str, pieces: (String, String))
    requires
        call_ensures(split_dir_tail, (typed,), pieces),
    ensures
        typed@ == pieces.0@ + pieces.1@,
        !pieces.1@.contains('/'),
        pieces.0@.len() > 0 ==> pieces.0@.last() == '/',
{
    tails_shape(typed@);
    let at = crate::location::tail_start(typed@);
    assert(typed@ =~= typed@.take(at) + typed@.skip(at));
    if pieces.1@.contains('/') {
        let k = choose|k: int| 0 <= k < pieces.1@.len() && pieces.1@[k] == '/';
        assert(typed@[at + k] == '/');
    }
}

proof fn tails_shape(typed: Seq<char>)
    ensures
        ({
            let at = crate::location::tail_start(typed);
            &&& 0 <= at <= typed.len()
            &&& at > 0 ==> typed[at - 1] == '/'
            &&& forall|k: int| at <= k < typed.len() ==> #[trigger] typed[k] != '/'
        }),
    decreases typed.len(),
{
    if typed.len() > 0 && typed.last() != '/' {
        let rest = typed.drop_last();
        tails_shape(rest);
        let at = crate::location::tail_start(typed);
        assert(at > 0 ==> rest[at - 1] == typed[at - 1]);
        assert forall|k: int| at <= k < typed.len() implies #[trigger] typed[k] != '/' by {
            if k < rest.len() {
                assert(rest[k] == typed[k]);
            }
        }
    }
}

/// The common prefix of names is a prefix of every one of them, and no
/// longer text is.
pub proof fn common_prefixes_are_the_longest(
    names: Vec<String>,
    p: String,
    q: Seq<char>,
    i: int,
)
    requires
        call_ensures(common_prefix, (&names,), p),
        0 <= i < names@.len(),
    ensures
        p@.is_prefix_of(names@[i]@),
        (forall|k: int|
            #![trigger names@[k]]
            0 <= k < names@.len() ==> q.is_prefix_of(names@[k]@)) ==> q.is_prefix_of(p@),
{
    let texts = crate::location::texts(names@);
    assert forall|k: int| 0 <= k < names@.len() implies #[trigger] texts[k] == names@[k]@ by {}
    prefixes_of_all(texts, q, i);
    if forall|k: int|
        #![trigger names@[k]]
        0 <= k < names@.len() ==> q.is_prefix_of(names@[k]@) {
        assert forall|k: int| 0 <= k < texts.len() implies q.is_prefix_of(#[trigger] texts[k]) by {
            assert(texts[k] == names@[k]@);
        }
    }
}

pub(crate) proof fn prefixes_of_all(names: Seq<Seq<char>>, q: Seq<char>, i: int)
    requires
        0 <= i < names.len(),
    ensures
        crate::location::prefix_of_all(names).is_prefix_of(names[i]),
        (forall|k: int| 0 <= k < names.len() ==> q.is_prefix_of(#[trigger] names[k]))
            ==> q.is_prefix_of(crate::location::prefix_of_all(names)),
    decreases names.len(),
{
    let all = crate::location::prefix_of_all(names);
    if names.len() > 1 {
        let rest = names.drop_last();
        let before = crate::location::prefix_of_all(rest);
        let last = names[names.len() - 1];
        crate::location::shared_prefix_is_longest(before, last, q);
        if i < rest.len() {
            prefixes_of_all(rest, q, i);
            assert(rest[i] == names[i]);
            assert(all =~= names[i].take(all.len() as int)) by {
                assert forall|k: int| 0 <= k < all.len() implies all[k] == names[i][k] by {
                    assert(before[k] == all[k]);
                    assert(rest[i][k] == before[k]);
                }
            }
        } else {
            prefixes_of_all(rest, q, 0);
        }
        if forall|k: int| 0 <= k < names.len() ==> q.is_prefix_of(#[trigger] names[k]) {
            assert forall|k: int| 0 <= k < rest.len() implies q.is_prefix_of(
                #[trigger] rest[k],
            ) by {
                assert(rest[k] == names[k]);
            }
            assert(q.is_prefix_of(names[names.len() - 1]));
        }
    }
}

/// Going down into a folder and up again leads nowhere else, nor does
/// staying; above the root is the root.
pub proof fn going_down_and_up_cancels(parts: Seq<Part>, name: Seq<u8>)
    ensures
        crate::location::normal_parts(parts.push(Part::Name(name)).push(Part::Parent))
            == crate::location::normal_parts(parts),
        crate::location::normal_parts(parts.push(Part::Current)) == crate::location::normal_parts(
            parts,
        ),
        crate::location::normal_parts(seq![Part::Root, Part::Parent]) == seq![Part::Root],
        crate::location::normal_parts(parts.push(Part::Name(name)))
            == crate::location::normal_parts(parts).push(Part::Name(name)),
{
    let down = parts.push(Part::Name(name));
    let up = down.push(Part::Parent);
    assert(up.drop_last() =~= down);
    assert(down.drop_last() =~= parts);
    assert(crate::location::normal_parts(down) == crate::location::normal_parts(parts).push(
        Part::Name(name),
    ));
    assert(crate::location::normal_parts(down).drop_last() =~= crate::location::normal_parts(
        parts,
    ));
    let stay = parts.push(Part::Current);
    assert(stay.drop_last() =~= parts);
    let above = seq![Part::Root, Part::Parent];
    let root = seq![Part::Root];
    assert(above.drop_last() =~= root);
    assert(root.drop_last() =~= Seq::<Part>::empty());
    assert(crate::location::normal_parts(Seq::<Part>::empty()) =~= Seq::<Part>::empty());
    assert(crate::location::normal_parts(root) =~= root);
}

/// A path of names alone is in normal form already: its components stay.
pub proof fn names_alone_stay(path: &[u8], normal: Vec<u8>)
    requires
        call_ensures(normalize_lexical, (path,), normal),
        forall|k: int|
            #![trigger crate::paths::parts(path@)[k]]
            0 <= k < crate::paths::parts(path@).len() ==> crate::paths::parts(path@)[k] is Name
                || (k == 0 && crate::paths::parts(path@)[k] is Root),
    ensures
        crate::paths::parts(normal@) == crate::paths::parts(path@),
{
    let parts = crate::paths::parts(path@);
    names_stay(parts);
    crate::location::normal_form_is_stable(path@);
}

proof fn names_stay(parts: Seq<Part>)
    requires
        forall|k: int|
            0 <= k < parts.len() ==> (#[trigger] parts[k]) is Name || (k == 0 && parts[k] is Root),
    ensures
        crate::location::normal_parts(parts) == parts,
    decreases parts.len(),
{
    if parts.len() > 0 {
        let rest = parts.drop_last();
        assert forall|k: int| 0 <= k < rest.len() implies (#[trigger] rest[k]) is Name || (k == 0
            && rest[k] is Root) by {
            assert(rest[k] == parts[k]);
        }
        names_stay(rest);
        assert(parts[parts.len() - 1] is Name || parts[parts.len() - 1] is Root);
        assert(rest.push(parts.last()) =~= parts);
    }
}

/// A tilde stands for home, alone or before a slash; anything else is what
/// was typed.
pub proof fn tildes_stand_for_home(
    typed: &str,
    home: Option<&crate::prompter::BytePath>,
    path: Vec<u8>,
    rest: Seq<char>,
)
    requires
        call_ensures(crate::location::expand_tilde, (typed, home), path),
    ensures
        home is None ==> path@ == vstd::utf8::encode_utf8(typed@),
        home is Some && typed@ == seq!['~'] ==> path@ == home->0@,
        home is Some && typed@ == seq!['~', '/'] + rest ==> path@ == crate::paths::joined(
            home->0@,
            vstd::utf8::encode_utf8(rest),
        ),
        typed@.len() > 0 && typed@[0] != '~' ==> path@ == vstd::utf8::encode_utf8(typed@),
{
    if typed@ == seq!['~', '/'] + rest {
        assert(typed@.skip(2) =~= rest);
    }
}

/// A name whose only dot opens it has no type, and neither has a name
/// without a dot.
pub proof fn dotfiles_have_no_type(dir: Seq<u8>, name: Seq<u8>)
    requires
        name.len() > 0,
        !name.contains(0x2f),
        name != seq![0x2eu8],
        name != seq![0x2eu8, 0x2e],
        forall|k: int| 0 < k < name.len() ==> #[trigger] name[k] != 0x2e,
    ensures
        crate::chooser::path_type(crate::paths::joined(dir, name)) is None,
{
    files_are_named_by_what_was_joined(dir, name);
    no_later_dot(name);
}

proof fn no_later_dot(name: Seq<u8>)
    requires
        forall|k: int| 0 < k < name.len() ==> #[trigger] name[k] != 0x2e,
    ensures
        crate::prompter::last_dot(name) <= 0,
    decreases name.len(),
{
    if name.len() > 0 {
        assert(name.last() == name[name.len() - 1]);
        assert forall|k: int| 0 < k < name.drop_last().len() implies #[trigger] name.drop_last()[k]
            != 0x2e by {
            assert(name.drop_last()[k] == name[k]);
        }
        no_later_dot(name.drop_last());
    }
}

/// Rows of one kind whose lower-case names are the same stand in the order
/// in which they were read.
pub proof fn listings_keep_the_order_of_equal_names(
    dir: &[u8],
    items: Vec<DirItem>,
    show_hidden: bool,
    filter: Option<&FileFilter>,
    listing: Vec<Entry>,
)
    requires
        call_ensures(list_dir, (dir, &items, show_hidden, filter), listing),
    ensures
        exists|from: Seq<int>|
            #[trigger] from.len() == listing@.len() && (forall|i: int|
                0 <= i < from.len() ==> 0 <= #[trigger] from[i] < items@.len()
                    && listing@[i].path@ == crate::paths::joined(dir@, items@[from[i]].name@)
                    && listing@[i].is_dir == items@[from[i]].is_dir) && (forall|i: int, j: int|
                0 <= i < j < from.len() && listing@[i].is_dir == listing@[j].is_dir
                    && crate::text::lower(listing@[i].name@) == crate::text::lower(
                    listing@[j].name@,
                ) ==> #[trigger] from[i] < #[trigger] from[j]),
{
    let wanted = match filter {
        Some(f) => Some(f@),
        None => None,
    };
    let rows = crate::chooser::shown_rows(dir@, items@, show_hidden, wanted);
    let list = crate::chooser::rows_view(listing@);
    let order = order_of(rows, list);
    let origin = origins(dir@, items@, show_hidden, wanted);
    let from = Seq::new(list.len(), |i: int| origin[order[i]]);
    assert(from.len() == listing@.len());
    assert forall|i: int| 0 <= i < from.len() implies 0 <= #[trigger] from[i] < items@.len()
        && listing@[i].path@ == crate::paths::joined(dir@, items@[from[i]].name@)
        && listing@[i].is_dir == items@[from[i]].is_dir by {
        assert(list[i] == listing@[i]@);
        assert(list[i] == rows[order[i]]);
        assert(rows[order[i]] == crate::chooser::row_of(dir@, items@[origin[order[i]]]));
    }
    assert forall|i: int, j: int|
        0 <= i < j < from.len() && listing@[i].is_dir == listing@[j].is_dir && crate::text::lower(
            listing@[i].name@,
        ) == crate::text::lower(listing@[j].name@) implies #[trigger] from[i]
        < #[trigger] from[j] by {
        assert(list[i] == listing@[i]@ && list[j] == listing@[j]@);
        assert(list[i] == rows[order[i]] && list[j] == rows[order[j]]);
        assert(crate::chooser::ranked(rows, order[i], order[j]));
        let key = crate::chooser::sort_key(list[i]);
        assert(key == crate::chooser::sort_key(list[j]));
        assert(key.take(0) =~= key.take(0));
        crate::pathset::bytes_before_total(key, key, 0);
        assert(order[i] < order[j]);
        assert(origin[order[i]] < origin[order[j]]);
    }
}

proof fn origins(
    dir: Seq<u8>,
    items: Seq<DirItem>,
    show_hidden: bool,
    filter: Option<crate::prompter::FilterContent>,
) -> (origin: Seq<int>)
    ensures
        ({
            let rows = crate::chooser::shown_rows(dir, items, show_hidden, filter);
            &&& origin.len() == rows.len()
            &&& forall|j: int|
                0 <= j < rows.len() ==> 0 <= #[trigger] origin[j] < items.len() && rows[j]
                    == crate::chooser::row_of(dir, items[origin[j]])
            &&& forall|j: int, k: int|
                0 <= j < k < rows.len() ==> #[trigger] origin[j] < #[trigger] origin[k]
        }),
    decreases items.len(),
{
    if items.len() == 0 {
        Seq::empty()
    } else {
        let rest = items.drop_last();
        let earlier = origins(dir, rest, show_hidden, filter);
        let row = crate::chooser::row_of(dir, items.last());
        let rows = crate::chooser::shown_rows(dir, items, show_hidden, filter);
        let before = crate::chooser::shown_rows(dir, rest, show_hidden, filter);
        assert forall|j: int| 0 <= j < before.len() implies 0 <= #[trigger] earlier[j] < rest.len()
            && before[j] == crate::chooser::row_of(dir, items[earlier[j]]) by {
            assert(rest[earlier[j]] == items[earlier[j]]);
        }
        if crate::chooser::shown(row, show_hidden, filter) {
            earlier.push(items.len() - 1)
        } else {
            earlier
        }
    }
}

} // verus!
