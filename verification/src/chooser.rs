//! Filter and listing rules of the file chooser.

use vstd::prelude::*;
use vstd::string::*;

use crate::paths::{ancestors_of, file_name_of, join, DOT};
use crate::pathset::{order_bytes, Order};
use crate::prompter::{BytePath, FileFilter, FilterRuleKind};
use crate::text::{begins_with, chars_of, lossy_text, lower_text, same_text, string_of, utf8_text};

verus! {

// ---------------------------------------------------------------------------
// Glob patterns
// ---------------------------------------------------------------------------

/// The ranges of a character class from position `i` up to its `]`, and where
/// that stands (or the pattern's length).
pub open spec fn class_ranges(p: Seq<char>, i: int) -> (Seq<(char, char)>, int)
    decreases p.len() - i,
{
    if i < 0 || i >= p.len() || p[i] == ']' {
        (Seq::empty(), i)
    } else if i + 2 < p.len() && p[i + 1] == '-' && p[i + 2] != ']' {
        let (rest, end) = class_ranges(p, i + 3);
        (seq![(p[i], p[i + 2])] + rest, end)
    } else {
        let (rest, end) = class_ranges(p, i + 1);
        (seq![(p[i], p[i])] + rest, end)
    }
}

/// A character class: its ranges and whether it is negated.
pub struct ClassContent {
    pub negated: bool,
    pub ranges: Seq<(char, char)>,
}

impl ClassContent {
    /// The class takes a character.
    pub open spec fn takes(self, c: char) -> bool {
        (exists|i: int|
            0 <= i < self.ranges.len() && (#[trigger] self.ranges[i]).0 <= c <= self.ranges[i].1)
            != self.negated
    }
}

/// The class at the head of a pattern that starts with `[`, and the position
/// behind it. A class that is not closed or has no ranges is none.
pub open spec fn class_at_head(p: Seq<char>) -> Option<(ClassContent, int)> {
    let negated = p.len() > 1 && p[1] == '!';
    let (ranges, end) = class_ranges(
        p,
        if negated {
            2
        } else {
            1
        },
    );
    if end >= p.len() || ranges.len() == 0 {
        None
    } else {
        Some((ClassContent { negated, ranges }, end + 1))
    }
}

/// A name matches a pattern: `*` stands for any run of characters, `?` for
/// one, `[...]` for one of a class, anything else for itself.
pub open spec fn matches_glob(p: Seq<char>, n: Seq<char>) -> bool
    decreases p.len(),
{
    if p.len() == 0 {
        n.len() == 0
    } else if p[0] == '*' {
        exists|k: int| 0 <= k <= n.len() && matches_glob(p.skip(1), #[trigger] n.skip(k))
    } else if p[0] == '?' {
        n.len() > 0 && matches_glob(p.skip(1), n.skip(1))
    } else if p[0] == '[' && class_at_head(p) is Some {
        proof {
            class_ranges_end(p, if p.len() > 1 && p[1] == '!' { 2 } else { 1 });
        }
        let (class, rest) = class_at_head(p)->0;
        n.len() > 0 && class.takes(n[0]) && matches_glob(p.skip(rest), n.skip(1))
    } else {
        n.len() > 0 && n[0] == p[0] && matches_glob(p.skip(1), n.skip(1))
    }
}

/// A class ends behind its start.
pub proof fn class_ranges_end(p: Seq<char>, i: int)
    requires
        0 <= i,
    ensures
        class_ranges(p, i).1 >= i,
    decreases p.len() - i,
{
    if i < p.len() && p[i] != ']' {
        if i + 2 < p.len() && p[i + 1] == '-' && p[i + 2] != ']' {
            class_ranges_end(p, i + 3);
        } else {
            class_ranges_end(p, i + 1);
        }
    }
}

/// A parsed character class.
pub struct CharClass {
    negated: bool,
    ranges: Vec<(char, char)>,
}

impl View for CharClass {
    type V = ClassContent;

    closed spec fn view(&self) -> ClassContent {
        ClassContent { negated: self.negated, ranges: self.ranges@ }
    }
}

impl CharClass {
    /// The class takes a character.
    pub fn takes(&self, c: char) -> (yes: bool)
        ensures
            yes == self@.takes(c),
    {
        let mut found: bool = false;
        let mut i: usize = 0;
        while i < self.ranges.len()
            invariant
                i <= self.ranges@.len(),
                found == exists|k: int|
                    0 <= k < i && (#[trigger] self.ranges@[k]).0 <= c <= self.ranges@[k].1,
            decreases self.ranges@.len() - i,
        {
            let (low, high) = self.ranges[i];
            if low <= c && c <= high {
                found = true;
                assert(self.ranges@[i as int].0 <= c <= self.ranges@[i as int].1);
            }
            i = i + 1;
        }
        proof {
            let content = self@;
            assert(content.ranges == self.ranges@);
            assert(found == exists|k: int|
                0 <= k < content.ranges.len() && (#[trigger] content.ranges[k]).0 <= c
                    <= content.ranges[k].1);
        }
        found != self.negated
    }
}

/// Parses the class at the head of a pattern that starts with `[`: the class
/// and the position behind it.
pub fn parse_class(p: &[char]) -> (class: Option<(CharClass, usize)>)
    ensures
        match class {
            Some((class, rest)) => class_at_head(p@) == Some((class@, rest as int)) && 0 < rest
                <= p@.len(),
            None => class_at_head(p@) is None,
        },
{
    let mut ranges: Vec<(char, char)> = Vec::new();
    let negated: bool = p.len() > 1 && p[1] == '!';
    let mut index: usize = if negated {
        2
    } else {
        1
    };
    let ghost start = index as int;
    let ghost whole = class_ranges(p@, start);
    assert(ranges@ + class_ranges(p@, start).0 =~= whole.0);
    proof {
        class_ranges_end(p@, start);
    }
    while index < p.len() && p[index] != ']'
        invariant
            0 < start <= index,
            whole == class_ranges(p@, start),
            ranges@ + class_ranges(p@, index as int).0 == whole.0,
            class_ranges(p@, index as int).1 == whole.1,
            start < p@.len() ==> index <= p@.len(),
            start >= p@.len() ==> index == start,
        decreases p@.len() - index,
    {
        let low: char = p[index];
        let ghost before = ranges@;
        let ghost tail = class_ranges(p@, index as int).0;
        if p.len() - index > 2 && p[index + 1] == '-' && p[index + 2] != ']' {
            let high: char = p[index + 2];
            ranges.push((low, high));
            assert(ranges@ + class_ranges(p@, index + 3).0 =~= before + tail);
            index = index + 3;
        } else {
            ranges.push((low, low));
            assert(ranges@ + class_ranges(p@, index + 1).0 =~= before + tail);
            index = index + 1;
        }
    }
    assert(class_ranges(p@, index as int).0 =~= Seq::<(char, char)>::empty());
    assert(ranges@ =~= whole.0);
    if index >= p.len() || ranges.len() == 0 {
        return None;
    }
    Some((CharClass { negated, ranges }, index + 1))
}

/// Matches a name against a pattern.
pub fn glob(pattern: &[char], name: &[char]) -> (yes: bool)
    ensures
        yes == matches_glob(pattern@, name@),
    decreases pattern@.len(), name@.len(),
{
    if pattern.len() == 0 {
        return name.len() == 0;
    }
    let rest = vstd::slice::slice_subrange(pattern, 1, pattern.len());
    assert(rest@ =~= pattern@.skip(1));
    let head: char = pattern[0];
    if head == '*' {
        if glob(rest, name) {
            assert(name@.skip(0) =~= name@);
            assert(matches_glob(pattern@.skip(1), name@.skip(0)));
            return true;
        }
        if name.len() == 0 {
            assert forall|k: int| 0 <= k <= name@.len() implies !matches_glob(
                pattern@.skip(1),
                #[trigger] name@.skip(k),
            ) by {
                assert(name@.skip(k) =~= name@);
            }
            return false;
        }
        let tail = vstd::slice::slice_subrange(name, 1, name.len());
        assert(tail@ =~= name@.skip(1));
        let found: bool = glob(pattern, tail);
        proof {
            if found {
                let k = choose|k: int|
                    0 <= k <= tail@.len() && matches_glob(
                        pattern@.skip(1),
                        #[trigger] tail@.skip(k),
                    );
                assert(tail@.skip(k) =~= name@.skip(k + 1));
                assert(matches_glob(pattern@.skip(1), name@.skip(k + 1)));
            } else {
                assert forall|k: int| 0 <= k <= name@.len() implies !matches_glob(
                    pattern@.skip(1),
                    #[trigger] name@.skip(k),
                ) by {
                    if k == 0 {
                        assert(name@.skip(0) =~= name@);
                    } else {
                        assert(name@.skip(k) =~= tail@.skip(k - 1));
                        assert(!matches_glob(pattern@.skip(1), tail@.skip(k - 1)));
                    }
                }
            }
        }
        return found;
    }
    if name.len() == 0 {
        return false;
    }
    let tail = vstd::slice::slice_subrange(name, 1, name.len());
    assert(tail@ =~= name@.skip(1));
    if head == '?' {
        return glob(rest, tail);
    }
    if head == '[' {
        if let Some((class, behind)) = parse_class(pattern) {
            let rest = vstd::slice::slice_subrange(pattern, behind, pattern.len());
            assert(rest@ =~= pattern@.skip(behind as int));
            return class.takes(name[0]) && glob(rest, tail);
        }
    }
    name[0] == head && glob(rest, tail)
}

/// Matches a file name against a glob pattern with `*` (any run), `?` (one
/// character), and `[...]` classes (ranges and `!` negation). Anything else
/// matches literally; a malformed class degrades to a literal `[`.
pub fn glob_match(pattern: &str, name: &str) -> (yes: bool)
    ensures
        yes == matches_glob(pattern@, name@),
{
    let pattern = chars_of(pattern);
    let name = chars_of(name);
    glob(pattern.as_slice(), name.as_slice())
}

/// The pattern `*` matches every name.
pub proof fn star_matches_everything(n: Seq<char>)
    ensures
        matches_glob(seq!['*'], n),
{
    let p = seq!['*'];
    assert(p.skip(1) =~= Seq::<char>::empty());
    assert(n.skip(n.len() as int) =~= Seq::<char>::empty());
    assert(matches_glob(p.skip(1), n.skip(n.len() as int)));
}

/// A pattern without special characters matches itself and nothing else.
pub proof fn literal_matches_itself(p: Seq<char>, n: Seq<char>)
    requires
        !p.contains('*'),
        !p.contains('?'),
        !p.contains('['),
    ensures
        matches_glob(p, n) == (p == n),
    decreases p.len(),
{
    if p.len() > 0 {
        assert(p[0] != '*' && p[0] != '?' && p[0] != '[');
        let rest = p.skip(1);
        assert forall|i: int| 0 <= i < rest.len() implies rest[i] == p[i + 1] by {}
        if n.len() > 0 {
            literal_matches_itself(rest, n.skip(1));
            if n[0] == p[0] && rest == n.skip(1) {
                assert(p =~= seq![p[0]] + rest);
                assert(n =~= seq![n[0]] + n.skip(1));
            }
        }
    } else {
        assert(n.len() == 0 ==> p =~= n);
    }
}

/// A pattern `*` followed by plain text matches exactly the names that end
/// with that text.
pub proof fn star_then_literal_matches_suffix(p: Seq<char>, n: Seq<char>)
    requires
        !p.contains('*'),
        !p.contains('?'),
        !p.contains('['),
    ensures
        matches_glob(seq!['*'] + p, n) == p.is_suffix_of(n),
{
    let q = seq!['*'] + p;
    assert(q.skip(1) =~= p);
    assert forall|k: int| 0 <= k <= n.len() implies matches_glob(q.skip(1), #[trigger] n.skip(k))
        == (p == n.skip(k)) by {
        literal_matches_itself(p, n.skip(k));
    }
    if p.is_suffix_of(n) {
        let k = n.len() - p.len();
        assert(n.skip(k) =~= n.subrange(k, n.len() as int));
        assert(matches_glob(q.skip(1), n.skip(k)));
    }
    if matches_glob(q, n) {
        let k = choose|k: int| 0 <= k <= n.len() && matches_glob(q.skip(1), #[trigger] n.skip(k));
        assert(p == n.skip(k));
        assert(k == n.len() - p.len());
        assert(n.skip(k) =~= n.subrange(n.len() - p.len(), n.len() as int));
    }
}

// ---------------------------------------------------------------------------
// Filters
// ---------------------------------------------------------------------------

/// The extension of a path's file name: what follows its last dot, unless
/// that dot opens the name.
pub open spec fn extension(path: Seq<u8>) -> Option<Seq<u8>> {
    match crate::paths::file_name(path) {
        Some(name) => {
            let dot = crate::prompter::last_dot(name);
            if dot <= 0 {
                None
            } else {
                Some(name.skip(dot + 1))
            }
        },
        None => None,
    }
}

fn extension_of(path: &[u8]) -> (ext: Option<Vec<u8>>)
    ensures
        match ext {
            Some(ext) => extension(path@) == Some(ext@),
            None => extension(path@) is None,
        },
{
    let name = match file_name_of(path) {
        Some(name) => name,
        None => {
            return None;
        },
    };
    let mut n: usize = name.len();
    assert(name@.take(n as int) =~= name@);
    while n > 0 && name[n - 1] != DOT
        invariant
            n <= name@.len(),
            crate::prompter::last_dot(name@) == crate::prompter::last_dot(name@.take(n as int)),
        decreases n,
    {
        assert(name@.take(n as int).last() == name@[n - 1]);
        assert(name@.take(n as int).drop_last() =~= name@.take(n - 1));
        n = n - 1;
    }
    assert(n > 0 ==> name@.take(n as int).last() == name@[n - 1]);
    if n <= 1 {
        return None;
    }
    let ext = vstd::slice::slice_to_vec(
        vstd::slice::slice_subrange(name.as_slice(), n, name.len()),
    );
    assert(ext@ =~= name@.skip(n as int));
    Some(ext)
}

/// The essence of the media type that the table of `mime_guess` lists first
/// for an extension.
pub uninterp spec fn listed_type(ext: Seq<char>) -> Option<Seq<char>>;

/// `mime_guess::from_ext(..).first()`, as its essence (`type/subtype`). The
/// table is static, so the result depends on the extension alone.
#[verifier::external_body]
fn look_up_type(ext: &str) -> (essence: Option<String>)
    ensures
        match essence {
            Some(essence) => listed_type(ext@) == Some(essence@),
            None => listed_type(ext@) is None,
        },
{
    mime_guess::from_ext(ext).first().map(|mime| mime.essence_str().to_owned())
}

/// The media type that a path's extension stands for, if it is known.
pub open spec fn path_type(path: Seq<u8>) -> Option<Seq<char>> {
    match extension(path) {
        Some(ext) => if vstd::utf8::valid_utf8(ext) {
            listed_type(vstd::utf8::decode_utf8(ext))
        } else {
            None
        },
        None => None,
    }
}

fn guess_type(path: &[u8]) -> (essence: Option<String>)
    ensures
        match essence {
            Some(essence) => path_type(path@) == Some(essence@),
            None => path_type(path@) is None,
        },
{
    match extension_of(path) {
        Some(ext) => match utf8_text(ext.as_slice()) {
            Some(ext) => look_up_type(ext.as_str()),
            None => None,
        },
        None => None,
    }
}

/// A rule takes a media type: the type itself, or a prefix that ends in `*`.
pub open spec fn type_fits(rule: Seq<char>, essence: Seq<char>) -> bool {
    if rule.len() > 0 && rule.last() == '*' {
        rule.drop_last().is_prefix_of(essence)
    } else {
        essence == rule
    }
}

/// A media type rule takes a known media type; an unknown one never fits.
pub fn type_matches(rule: &str, essence: Option<&str>) -> (yes: bool)
    ensures
        yes == (essence is Some && type_fits(rule@, essence->0@)),
{
    let essence = match essence {
        Some(essence) => essence,
        None => {
            return false;
        },
    };
    let v = chars_of(rule);
    if v.len() > 0 && v[v.len() - 1] == '*' {
        let prefix = string_of(vstd::slice::slice_subrange(v.as_slice(), 0, v.len() - 1));
        assert(prefix@ =~= rule@.drop_last());
        begins_with(essence, prefix.as_str())
    } else {
        same_text(essence, rule)
    }
}

/// A media type rule takes a path. A rule is the full essence (`image/png`)
/// or a type prefix (`image/*`); types come from the file name's extension.
pub fn mime_matches(rule: &str, path: &[u8]) -> (yes: bool)
    ensures
        yes == (path_type(path@) is Some && type_fits(rule@, path_type(path@)->0)),
{
    match guess_type(path) {
        Some(essence) => type_matches(rule, Some(essence.as_str())),
        None => type_matches(rule, None),
    }
}

/// One rule of a filter takes a path.
pub open spec fn rule_allows(rule: (FilterRuleKind, Seq<char>), path: Seq<u8>) -> bool {
    match rule.0 {
        FilterRuleKind::Glob => crate::paths::file_name(path) is Some && matches_glob(
            rule.1,
            crate::text::lossy(crate::paths::file_name(path)->0),
        ),
        FilterRuleKind::Mime => path_type(path) is Some && type_fits(rule.1, path_type(path)->0),
    }
}

/// A filter takes a path: one of its rules does.
pub open spec fn allowed(filter: crate::prompter::FilterContent, path: Seq<u8>) -> bool {
    exists|i: int| 0 <= i < filter.rules.len() && rule_allows(#[trigger] filter.rules[i], path)
}

/// Whether a file passes a filter: any single rule matches.
pub fn filter_allows(filter: &FileFilter, path: &[u8]) -> (yes: bool)
    ensures
        yes == allowed(filter@, path@),
{
    let mut i: usize = 0;
    while i < filter.rules.len()
        invariant
            i <= filter.rules@.len(),
            forall|k: int| 0 <= k < i ==> !rule_allows(#[trigger] filter@.rules[k], path@),
        decreases filter.rules@.len() - i,
    {
        let rule = &filter.rules[i];
        assert(filter@.rules[i as int] == rule@);
        let yes: bool = match rule.kind {
            FilterRuleKind::Glob => match file_name_of(path) {
                Some(name) => glob_match(
                    rule.value.as_str(),
                    lossy_text(name.as_slice()).as_str(),
                ),
                None => false,
            },
            FilterRuleKind::Mime => mime_matches(rule.value.as_str(), path),
        };
        if yes {
            assert(rule_allows(filter@.rules[i as int], path@));
            return true;
        }
        i = i + 1;
    }
    false
}

// ---------------------------------------------------------------------------
// Directory listings
// ---------------------------------------------------------------------------

/// One row in a directory listing.
#[derive(Debug, Clone, PartialEq, Eq)]
pub struct Entry {
    pub path: BytePath,
    /// Display name (lossy; the path bytes stay exact).
    pub name: String,
    pub is_dir: bool,
}

/// What a row holds.
pub struct EntryContent {
    pub path: Seq<u8>,
    pub name: Seq<char>,
    pub is_dir: bool,
}

impl View for Entry {
    type V = EntryContent;

    open spec fn view(&self) -> EntryContent {
        EntryContent { path: self.path@, name: self.name@, is_dir: self.is_dir }
    }
}

impl Entry {
    /// A copy with the same content.
    pub fn copy(&self) -> (e: Entry)
        ensures
            e@ == self@,
    {
        Entry {
            path: BytePath(vstd::slice::slice_to_vec(self.path.0.as_slice())),
            name: self.name.clone(),
            is_dir: self.is_dir,
        }
    }
}

/// One item read from a directory: its file name and whether it is a folder.
pub struct DirItem {
    pub name: Vec<u8>,
    pub is_dir: bool,
}

/// The row that an item becomes.
pub open spec fn row_of(dir: Seq<u8>, item: DirItem) -> EntryContent {
    EntryContent {
        path: crate::paths::joined(dir, item.name@),
        name: crate::text::lossy(item.name@),
        is_dir: item.is_dir,
    }
}

/// A row is shown: dotfiles only on demand, files only if the filter takes
/// them; folders always stay visible for navigation.
pub open spec fn shown(
    row: EntryContent,
    show_hidden: bool,
    filter: Option<crate::prompter::FilterContent>,
) -> bool {
    &&& show_hidden || row.name.len() == 0 || row.name[0] != '.'
    &&& row.is_dir || filter is None || allowed(filter->0, row.path)
}

/// The rows that are shown, in the order in which the items were read.
pub open spec fn shown_rows(
    dir: Seq<u8>,
    items: Seq<DirItem>,
    show_hidden: bool,
    filter: Option<crate::prompter::FilterContent>,
) -> Seq<EntryContent>
    decreases items.len(),
{
    if items.len() == 0 {
        Seq::empty()
    } else {
        let before = shown_rows(dir, items.drop_last(), show_hidden, filter);
        let row = row_of(dir, items.last());
        if shown(row, show_hidden, filter) {
            before.push(row)
        } else {
            before
        }
    }
}

/// The bytes by which names are ordered: the lower-case name in UTF-8.
pub open spec fn sort_key(row: EntryContent) -> Seq<u8> {
    vstd::utf8::encode_utf8(crate::text::lower(row.name))
}

/// One row orders before another: folders first, then by lower-case name.
pub open spec fn row_before(a: EntryContent, b: EntryContent) -> bool {
    if a.is_dir != b.is_dir {
        a.is_dir
    } else {
        crate::pathset::bytes_before_from(sort_key(a), sort_key(b), 0)
    }
}

/// `order` lists the positions of `rows` once each, so that rows come in
/// ascending order and rows of equal rank keep their positions.
pub open spec fn stable_order(rows: Seq<EntryContent>, order: Seq<int>) -> bool {
    &&& order.len() == rows.len()
    &&& forall|i: int| 0 <= i < order.len() ==> 0 <= #[trigger] order[i] < rows.len()
    &&& forall|i: int, j: int|
        0 <= i < j < order.len() ==> ranked(rows, #[trigger] order[i], #[trigger] order[j])
}

/// Position `a` comes before position `b`.
pub open spec fn ranked(rows: Seq<EntryContent>, a: int, b: int) -> bool {
    row_before(rows[a], rows[b]) || (!row_before(rows[b], rows[a]) && a < b)
}

/// The rows picked out by a list of positions.
pub open spec fn picked(rows: Seq<EntryContent>, order: Seq<int>) -> Seq<EntryContent> {
    Seq::new(order.len(), |i: int| rows[order[i]])
}

/// The views of a list of rows.
pub open spec fn rows_view(v: Seq<Entry>) -> Seq<EntryContent> {
    v.map_values(|e: Entry| e@)
}

proof fn row_order(a: EntryContent, b: EntryContent, c: EntryContent)
    ensures
        !row_before(a, a),
        !(row_before(a, b) && row_before(b, a)),
        row_before(a, b) && row_before(b, c) ==> row_before(a, c),
        !row_before(a, b) && !row_before(b, a) && row_before(b, c) ==> row_before(a, c),
        row_before(a, b) && !row_before(b, c) && !row_before(c, b) ==> row_before(a, c),
        !row_before(a, b) && !row_before(b, a) && !row_before(b, c) && !row_before(c, b)
            ==> !row_before(a, c) && !row_before(c, a),
{
    let (x, y, z) = (sort_key(a), sort_key(b), sort_key(c));
    assert(x.take(0) =~= y.take(0));
    assert(y.take(0) =~= z.take(0));
    assert(x.take(0) =~= z.take(0));
    crate::pathset::bytes_before_total(x, x, 0);
    crate::pathset::bytes_before_total(x, y, 0);
    crate::pathset::bytes_before_total(y, z, 0);
    crate::pathset::bytes_before_total(x, z, 0);
    if crate::pathset::bytes_before_from(x, y, 0) && crate::pathset::bytes_before_from(y, z, 0) {
        crate::pathset::bytes_before_transitive(x, y, z, 0);
    }
}

proof fn ranked_transitive(rows: Seq<EntryContent>, a: int, b: int, c: int)
    requires
        ranked(rows, a, b),
        ranked(rows, b, c),
    ensures
        ranked(rows, a, c),
{
    row_order(rows[a], rows[b], rows[c]);
    row_order(rows[b], rows[c], rows[a]);
    row_order(rows[c], rows[a], rows[b]);
}

fn orders_before(a: &Entry, b: &Entry) -> (yes: bool)
    ensures
        yes == row_before(a@, b@),
{
    if a.is_dir != b.is_dir {
        return a.is_dir;
    }
    let x = lower_text(a.name.as_str());
    let y = lower_text(b.name.as_str());
    match order_bytes(x.as_str().as_bytes(), y.as_str().as_bytes()) {
        Order::Before => true,
        _ => false,
    }
}

fn collect_rows(
    dir: &[u8],
    items: &Vec<DirItem>,
    show_hidden: bool,
    filter: Option<&FileFilter>,
) -> (rows: Vec<Entry>)
    ensures
        rows_view(rows@) == shown_rows(
            dir@,
            items@,
            show_hidden,
            match filter {
                Some(f) => Some(f@),
                None => None,
            },
        ),
{
    let ghost wanted = match filter {
        Some(f) => Some(f@),
        None => None,
    };
    let mut rows: Vec<Entry> = Vec::new();
    let mut i: usize = 0;
    assert(rows_view(rows@) =~= shown_rows(dir@, items@.take(0), show_hidden, wanted));
    while i < items.len()
        invariant
            i <= items@.len(),
            wanted == (match filter {
                Some(f) => Some(f@),
                None => None,
            }),
            rows_view(rows@) == shown_rows(dir@, items@.take(i as int), show_hidden, wanted),
        decreases items@.len() - i,
    {
        let item = &items[i];
        let ghost before = rows@;
        let row = Entry {
            path: BytePath(join(dir, item.name.as_slice())),
            name: lossy_text(item.name.as_slice()),
            is_dir: item.is_dir,
        };
        assert(row@ == row_of(dir@, *item));
        proof {
            let now = items@.take(i + 1);
            assert(now.drop_last() =~= items@.take(i as int));
            assert(now.last() == *item);
        }
        let first = chars_of(row.name.as_str());
        let mut keep: bool = show_hidden || first.len() == 0 || first[0] != '.';
        if keep && !row.is_dir {
            keep = match filter {
                Some(filter) => filter_allows(filter, row.path.0.as_slice()),
                None => true,
            };
        }
        assert(keep == shown(row@, show_hidden, wanted));
        if keep {
            rows.push(row);
            assert(rows_view(rows@) =~= rows_view(before).push(row@));
        }
        i = i + 1;
    }
    assert(items@.take(i as int) =~= items@);
    rows
}

/// Positions as mathematical integers.
pub open spec fn positions(order: Seq<usize>) -> Seq<int> {
    order.map_values(|i: usize| i as int)
}

/// The first `n` positions, in stable order.
spec fn stable_up_to(rows: Seq<EntryContent>, order: Seq<int>, n: int) -> bool {
    &&& order.len() == n
    &&& forall|i: int| 0 <= i < order.len() ==> 0 <= #[trigger] order[i] < n
    &&& forall|i: int, j: int|
        0 <= i < j < order.len() ==> ranked(rows, #[trigger] order[i], #[trigger] order[j])
}

fn sorted_positions(rows: &Vec<Entry>) -> (order: Vec<usize>)
    ensures
        stable_order(rows_view(rows@), positions(order@)),
{
    let ghost all = rows_view(rows@);
    let mut order: Vec<usize> = Vec::new();
    let mut i: usize = 0;
    while i < rows.len()
        invariant
            i <= rows@.len(),
            all == rows_view(rows@),
            stable_up_to(all, positions(order@), i as int),
        decreases rows@.len() - i,
    {
        let ghost sorted = positions(order@);
        let mut p: usize = order.len();
        while p > 0 && order[p - 1] < rows.len() && orders_before(&rows[i], &rows[order[p - 1]])
            invariant
                p <= order@.len(),
                i < rows@.len(),
                all == rows_view(rows@),
                sorted == positions(order@),
                stable_up_to(all, sorted, i as int),
                forall|k: int| p <= k < sorted.len() ==> row_before(all[i as int], all[#[trigger] sorted[k]]),
            decreases p,
        {
            assert(sorted[p - 1] == order@[p - 1]);
            assert(all[sorted[p - 1]] == rows@[order@[p - 1] as int]@);
            p = p - 1;
        }
        proof {
            if p > 0 {
                assert(sorted[p - 1] == order@[p - 1]);
                assert(all[sorted[p - 1]] == rows@[order@[p - 1] as int]@);
                assert(ranked(all, sorted[p - 1], i as int));
            }
            assert forall|k: int| 0 <= k < p implies ranked(all, #[trigger] sorted[k], i as int) by {
                if k < p - 1 {
                    ranked_transitive(all, sorted[k], sorted[p - 1], i as int);
                }
            }
        }
        order.insert(p, i);
        proof {
            let now = positions(order@);
            assert(now =~= sorted.insert(p as int, i as int));
            assert forall|a: int, b: int| 0 <= a < b < now.len() implies ranked(
                all,
                #[trigger] now[a],
                #[trigger] now[b],
            ) by {
                if b < p {
                    assert(now[a] == sorted[a] && now[b] == sorted[b]);
                } else if b == p {
                    assert(now[a] == sorted[a] && now[b] == i);
                } else if a < p {
                    assert(now[a] == sorted[a] && now[b] == sorted[b - 1]);
                } else if a == p {
                    assert(now[a] == i && now[b] == sorted[b - 1]);
                } else {
                    assert(now[a] == sorted[a - 1] && now[b] == sorted[b - 1]);
                }
            }
            assert forall|a: int| 0 <= a < now.len() implies 0 <= #[trigger] now[a] < i + 1 by {
                if a < p {
                    assert(now[a] == sorted[a]);
                } else if a > p {
                    assert(now[a] == sorted[a - 1]);
                }
            }
        }
        i = i + 1;
    }
    order
}

/// A listing shows these rows in stable order.
pub open spec fn listed(rows: Seq<EntryContent>, listing: Seq<EntryContent>) -> bool {
    exists|order: Seq<int>| #[trigger] stable_order(rows, order) && listing == picked(rows, order)
}

/// Turns what was read from `dir` into dialog rows: folders first, then
/// files, each group sorted by lower-case name; items of equal rank keep
/// their order. Dotfiles are hidden unless `show_hidden`; files must pass
/// `filter`.
pub fn list_dir(
    dir: &[u8],
    items: &Vec<DirItem>,
    show_hidden: bool,
    filter: Option<&FileFilter>,
) -> (listing: Vec<Entry>)
    ensures
        listed(
            shown_rows(
                dir@,
                items@,
                show_hidden,
                match filter {
                    Some(f) => Some(f@),
                    None => None,
                },
            ),
            rows_view(listing@),
        ),
{
    let rows = collect_rows(dir, items, show_hidden, filter);
    let order = sorted_positions(&rows);
    let ghost all = rows_view(rows@);
    let ghost wanted = positions(order@);
    let mut listing: Vec<Entry> = Vec::new();
    let mut i: usize = 0;
    while i < order.len()
        invariant
            i <= order@.len(),
            all == rows_view(rows@),
            wanted == positions(order@),
            stable_order(all, wanted),
            rows_view(listing@) == picked(all, wanted).take(i as int),
        decreases order@.len() - i,
    {
        let ghost before = listing@;
        assert(wanted[i as int] == order@[i as int]);
        let row = rows[order[i]].copy();
        listing.push(row);
        assert(rows_view(listing@) =~= rows_view(before).push(row@));
        assert(picked(all, wanted).take(i + 1) =~= picked(all, wanted).take(i as int).push(
            picked(all, wanted)[i as int],
        ));
        i = i + 1;
    }
    assert(picked(all, wanted).take(i as int) =~= picked(all, wanted));
    listing
}

/// In a listing no file stands in front of a folder, and within each group
/// no row stands in front of one that orders before it.
pub proof fn listing_is_sorted(rows: Seq<EntryContent>, listing: Seq<EntryContent>)
    requires
        listed(rows, listing),
    ensures
        listing.len() == rows.len(),
        forall|i: int, j: int|
            0 <= i < j < listing.len() && (#[trigger] listing[j]).is_dir ==> (
            #[trigger] listing[i]).is_dir,
        forall|i: int, j: int|
            0 <= i < j < listing.len() ==> !row_before(
                #[trigger] listing[j],
                #[trigger] listing[i],
            ),
{
    let order = choose|order: Seq<int>| #[trigger]
        stable_order(rows, order) && listing == picked(rows, order);
    assert forall|i: int, j: int| 0 <= i < j < listing.len() implies !row_before(
        #[trigger] listing[j],
        #[trigger] listing[i],
    ) by {
        assert(ranked(rows, order[i], order[j]));
        row_order(rows[order[i]], rows[order[j]], rows[order[i]]);
    }
}

/// The path's ancestor chain from the root down to itself, for the location
/// breadcrumb.
pub fn breadcrumbs(dir: &[u8]) -> (chain: Vec<Vec<u8>>)
    ensures
        crate::paths::path_views(chain@) == crate::paths::ancestors(dir@),
{
    ancestors_of(dir)
}

/// The breadcrumb chain ends at the folder itself, starts where there is no
/// parent, and each link is the parent of the next.
pub proof fn breadcrumbs_walk_down(dir: Seq<u8>)
    ensures
        crate::paths::ancestors(dir).len() > 0,
        crate::paths::ancestors(dir).last() == dir,
        crate::paths::parent(crate::paths::ancestors(dir)[0]) is None,
        forall|i: int|
            0 <= i < crate::paths::ancestors(dir).len() - 1 ==> crate::paths::parent(
                crate::paths::ancestors(dir)[i + 1],
            ) == Some(#[trigger] crate::paths::ancestors(dir)[i]),
    decreases dir.len(),
{
    let chain = crate::paths::ancestors(dir);
    crate::paths::parent_is_shorter(dir);
    match crate::paths::parent(dir) {
        None => {},
        Some(p) => {
            breadcrumbs_walk_down(p);
            let above = crate::paths::ancestors(p);
            assert(chain =~= above.push(dir));
            assert forall|i: int| 0 <= i < chain.len() - 1 implies crate::paths::parent(
                chain[i + 1],
            ) == Some(#[trigger] chain[i]) by {
                assert(chain[i] == above[i]);
                if i + 1 < above.len() {
                    assert(chain[i + 1] == above[i + 1]);
                }
            }
        },
    }
}

} // verus!
