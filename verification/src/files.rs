//! Captures on disk: their names, and how they are referred to.

use vstd::prelude::*;
use vstd::string::*;

use crate::text::{decimal_text, upper_hex};

verus! {

/// The name of a capture.
pub open spec fn capture_named(millis: nat, token: Seq<char>) -> Seq<char> {
    "screenshot-"@ + crate::text::decimal(millis) + "-"@ + token + ".png"@
}

/// The name of a capture that was taken at this time.
pub fn capture_name(millis: u64, token: &str) -> (name: String)
    ensures
        name@ == capture_named(millis as nat, token@),
{
    let mut name = "screenshot-".to_owned();
    name.append(decimal_text(millis).as_str());
    name.append("-");
    name.append(token);
    name.append(".png");
    name
}

/// A character of a token: an ASCII letter, a digit or an underscore.
pub open spec fn token_char(c: char) -> bool {
    ('A' <= c <= 'Z') || ('a' <= c <= 'z') || ('0' <= c <= '9') || c == '_'
}

/// A token is made of token characters alone.
pub open spec fn plain_token(token: Seq<char>) -> bool {
    forall|i: int| 0 <= i < token.len() ==> token_char(#[trigger] token[i])
}

/// A capture with a plain token is a file of its directory: its name holds
/// no separator.
pub proof fn captures_stay_in_their_directory(millis: nat, token: Seq<char>)
    requires
        plain_token(token),
    ensures
        !capture_named(millis, token).contains('/'),
{
    reveal_strlit("screenshot-");
    reveal_strlit("-");
    reveal_strlit(".png");
    crate::text::decimals_are_digits(millis);
    let name = capture_named(millis, token);
    assert forall|i: int| 0 <= i < name.len() implies #[trigger] name[i] != '/' by {
        let d = crate::text::decimal(millis);
        if i < 11 {
        } else if i < 11 + d.len() {
            assert(name[i] == d[i - 11]);
        } else if i == 11 + d.len() {
        } else if i < 12 + d.len() + token.len() {
            assert(name[i] == token[i - 12 - d.len()]);
        } else {
            assert(name[i] == ".png"@[i - 12 - d.len() - token.len()]);
        }
    }
}

/// A byte that a URI holds as it is.
pub open spec fn unreserved(b: u8) -> bool {
    (65 <= b <= 90) || (97 <= b <= 122) || (48 <= b <= 57) || b == 47 || b == 45 || b == 46 || b
        == 95 || b == 126
}

/// How a URI holds one byte: as it is, or as a percent sign and two
/// upper-case hexadecimal digits.
pub open spec fn escape(b: u8) -> Seq<char> {
    if unreserved(b) {
        seq![b as char]
    } else {
        seq![
            '%',
            crate::text::upper_hex_digit((b / 16) as nat),
            crate::text::upper_hex_digit((b % 16) as nat),
        ]
    }
}

/// How a URI holds a path.
pub open spec fn escape_all(path: Seq<u8>) -> Seq<char>
    decreases path.len(),
{
    if path.len() == 0 {
        Seq::empty()
    } else {
        escape_all(path.drop_last()) + escape(path.last())
    }
}

/// Renders an absolute path as a `file://` URI.
pub fn file_uri(path: &[u8]) -> (uri: String)
    ensures
        uri@ == "file://"@ + escape_all(path@),
{
    let mut uri = "file://".to_owned();
    let mut i: usize = 0;
    assert(path@.take(0) =~= Seq::<u8>::empty());
    assert(uri@ =~= "file://"@ + escape_all(path@.take(0)));
    while i < path.len()
        invariant
            i <= path@.len(),
            uri@ == "file://"@ + escape_all(path@.take(i as int)),
        decreases path@.len() - i,
    {
        let b: u8 = path[i];
        let ghost before = uri@;
        if (b >= 65 && b <= 90) || (b >= 97 && b <= 122) || (b >= 48 && b <= 57) || b == 47 || b
            == 45 || b == 46 || b == 95 || b == 126 {
            uri.push(b as char);
        } else {
            uri.push('%');
            uri.push(upper_hex(b / 16));
            uri.push(upper_hex(b % 16));
        }
        assert(uri@ =~= before + escape(b));
        assert(path@.take(i + 1).drop_last() =~= path@.take(i as int));
        assert(path@.take(i + 1).last() == b);
        i = i + 1;
        assert(uri@ =~= "file://"@ + escape_all(path@.take(i as int)));
    }
    assert(path@.take(i as int) =~= path@);
    uri
}

/// The number that an upper-case hexadecimal digit stands for.
pub open spec fn hex_value(c: char) -> int {
    if '0' <= c <= '9' {
        c as int - '0' as int
    } else {
        c as int - 'A' as int + 10
    }
}

/// The bytes that an escaped path stands for.
pub open spec fn unescape_all(text: Seq<char>) -> Seq<u8>
    decreases text.len(),
{
    if text.len() == 0 {
        Seq::empty()
    } else if text[0] == '%' && text.len() >= 3 {
        seq![(16 * hex_value(text[1]) + hex_value(text[2])) as u8] + unescape_all(text.skip(3))
    } else {
        seq![text[0] as u8] + unescape_all(text.skip(1))
    }
}

proof fn unescape_one(b: u8, rest: Seq<char>)
    ensures
        unescape_all(escape(b) + rest) == seq![b] + unescape_all(rest),
{
    let text = escape(b) + rest;
    if unreserved(b) {
        assert(text[0] == b as char);
        assert(text.skip(1) =~= rest);
    } else {
        assert(text.skip(3) =~= rest);
        assert(16 * (b / 16) + b % 16 == b);
        assert(hex_value(crate::text::upper_hex_digit((b / 16) as nat)) == b / 16);
        assert(hex_value(crate::text::upper_hex_digit((b % 16) as nat)) == b % 16);
    }
}

proof fn unescape_prefix(path: Seq<u8>, rest: Seq<char>)
    ensures
        unescape_all(escape_all(path) + rest) == path + unescape_all(rest),
    decreases path.len(),
{
    if path.len() == 0 {
        assert(escape_all(path) + rest =~= rest);
        assert(path + unescape_all(rest) =~= unescape_all(rest));
    } else {
        let front = path.drop_last();
        let b = path.last();
        assert(escape_all(path) + rest =~= escape_all(front) + (escape(b) + rest));
        unescape_prefix(front, escape(b) + rest);
        unescape_one(b, rest);
        assert(front + (seq![b] + unescape_all(rest)) =~= path + unescape_all(rest));
    }
}

/// Reading a file URI back gives the path that it was made of, so different
/// paths have different URIs.
pub proof fn file_uris_round_trip(path: Seq<u8>)
    ensures
        unescape_all(escape_all(path)) == path,
{
    unescape_prefix(path, Seq::empty());
    assert(escape_all(path) + Seq::<char>::empty() =~= escape_all(path));
    assert(path + Seq::<u8>::empty() =~= path);
}

} // verus!
