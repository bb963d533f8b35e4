//! Text building blocks shared by the whole library: comparison, decimal and
//! hexadecimal rendering, white space, and conversion between bytes, characters
//! and strings.

use vstd::prelude::*;
use vstd::string::*;

use crate::wipe::wipe_chars;

verus! {

/// `String::push`: appends one character at the end.
pub assume_specification[ String::push ](s: &mut String, ch: char)
    ensures
        final(s)@ == old(s)@.push(ch),
;

/// The character of one decimal digit.
pub open spec fn digit(d: nat) -> char {
    (('0' as nat) + d) as char
}

/// A natural number in decimal, without leading zeros.
pub open spec fn decimal(n: nat) -> Seq<char>
    decreases n,
{
    if n < 10 {
        seq![digit(n)]
    } else {
        decimal(n / 10).push(digit(n % 10))
    }
}

/// A number is written with decimal digits alone.
pub proof fn decimals_are_digits(n: nat)
    ensures
        forall|i: int| 0 <= i < decimal(n).len() ==> '0' <= (#[trigger] decimal(n)[i]) <= '9',
    decreases n,
{
    if n >= 10 {
        decimals_are_digits(n / 10);
        let d = decimal(n / 10);
        let s = decimal(n);
        assert forall|i: int| 0 <= i < s.len() implies '0' <= #[trigger] s[i] <= '9' by {
            if i < d.len() {
                assert(s[i] == d[i]);
            }
        }
    }
}

fn digit_char(d: u64) -> (c: char)
    requires
        d < 10,
    ensures
        c == digit(d as nat),
{
    if d == 0 {
        '0'
    } else if d == 1 {
        '1'
    } else if d == 2 {
        '2'
    } else if d == 3 {
        '3'
    } else if d == 4 {
        '4'
    } else if d == 5 {
        '5'
    } else if d == 6 {
        '6'
    } else if d == 7 {
        '7'
    } else if d == 8 {
        '8'
    } else {
        '9'
    }
}

/// Renders a number in decimal.
pub fn decimal_text(n: u64) -> (s: String)
    ensures
        s@ == decimal(n as nat),
    decreases n,
{
    if n < 10 {
        let mut s = String::new();
        s.push(digit_char(n));
        assert(s@ =~= decimal(n as nat));
        s
    } else {
        let mut s = decimal_text(n / 10);
        s.push(digit_char(n % 10));
        s
    }
}

/// Two byte sequences hold the same bytes.
pub fn same_bytes(a: &[u8], b: &[u8]) -> (same: bool)
    ensures
        same == (a@ == b@),
{
    if a.len() != b.len() {
        return false;
    }
    let mut i: usize = 0;
    while i < a.len()
        invariant
            i <= a@.len(),
            a@.len() == b@.len(),
            forall|k: int| 0 <= k < i ==> a@[k] == b@[k],
        decreases a@.len() - i,
    {
        if a[i] != b[i] {
            assert(a@[i as int] != b@[i as int]);
            return false;
        }
        i = i + 1;
    }
    assert(a@ =~= b@);
    true
}

/// Text is determined by its UTF-8 encoding.
pub proof fn encoding_determines_text(a: Seq<char>, b: Seq<char>)
    requires
        vstd::utf8::encode_utf8(a) == vstd::utf8::encode_utf8(b),
    ensures
        a == b,
{
    broadcast use vstd::utf8::encode_utf8_decode_utf8;

    assert(vstd::utf8::decode_utf8(vstd::utf8::encode_utf8(a)) == a);
    assert(vstd::utf8::decode_utf8(vstd::utf8::encode_utf8(b)) == b);
}

/// Two strings hold the same text.
pub fn same_text(a: &str, b: &str) -> (same: bool)
    ensures
        same == (a@ == b@),
{
    let same: bool = same_bytes(a.as_bytes(), b.as_bytes());
    proof {
        if same {
            encoding_determines_text(a@, b@);
        }
    }
    same
}

/// The characters of a string, in order.
pub fn chars_of(s: &str) -> (v: Vec<char>)
    ensures
        v@ == s@,
{
    let mut v: Vec<char> = Vec::new();
    for c in it: s.chars()
        invariant
            v@ == it.seq().take(it.index() as int),
            it.seq() == s@,
    {
        v.push(c);
        assert(v@ =~= it.seq().take(it.index() as int + 1));
    }
    assert(v@ =~= s@);
    v
}

/// The string that holds the given characters, in order.
pub fn string_of(v: &[char]) -> (s: String)
    ensures
        s@ == v@,
{
    let mut s = String::new();
    let mut i: usize = 0;
    while i < v.len()
        invariant
            i <= v@.len(),
            s@ == v@.take(i as int),
        decreases v@.len() - i,
    {
        s.push(v[i]);
        i = i + 1;
        assert(s@ =~= v@.take(i as int));
    }
    assert(s@ =~= v@);
    s
}

/// A character occurs in a text.
pub fn has_char(s: &str, wanted: char) -> (found: bool)
    ensures
        found == s@.contains(wanted),
{
    let v = chars_of(s);
    let mut i: usize = 0;
    while i < v.len()
        invariant
            i <= v@.len(),
            v@ == s@,
            forall|k: int| 0 <= k < i ==> v@[k] != wanted,
        decreases v@.len() - i,
    {
        if v[i] == wanted {
            assert(s@[i as int] == wanted);
            return true;
        }
        i = i + 1;
    }
    false
}

/// The characters of Unicode's `White_Space` property.
pub open spec fn is_white_space(c: char) -> bool {
    let n = c as u32;
    ||| 0x9 <= n <= 0xd
    ||| n == 0x20
    ||| n == 0x85
    ||| n == 0xa0
    ||| n == 0x1680
    ||| 0x2000 <= n <= 0x200a
    ||| n == 0x2028
    ||| n == 0x2029
    ||| n == 0x202f
    ||| n == 0x205f
    ||| n == 0x3000
}

/// A character has the `White_Space` property.
pub fn white_space(c: char) -> (yes: bool)
    ensures
        yes == is_white_space(c),
{
    let n: u32 = c as u32;
    (0x9 <= n && n <= 0xd) || n == 0x20 || n == 0x85 || n == 0xa0 || n == 0x1680 || (0x2000 <= n
        && n <= 0x200a) || n == 0x2028 || n == 0x2029 || n == 0x202f || n == 0x205f || n == 0x3000
}

/// A text holds nothing but white space (the empty text included).
pub open spec fn blank(s: Seq<char>) -> bool {
    forall|i: int| 0 <= i < s.len() ==> is_white_space(#[trigger] s[i])
}

/// A text holds nothing but white space.
pub fn is_blank(s: &str) -> (yes: bool)
    ensures
        yes == blank(s@),
{
    let v = chars_of(s);
    let mut i: usize = 0;
    while i < v.len()
        invariant
            i <= v@.len(),
            v@ == s@,
            forall|k: int| 0 <= k < i ==> is_white_space(#[trigger] s@[k]),
        decreases v@.len() - i,
    {
        if !white_space(v[i]) {
            assert(!is_white_space(s@[i as int]));
            return false;
        }
        i = i + 1;
    }
    true
}

/// A text without the white space in front.
pub open spec fn trim_start(s: Seq<char>) -> Seq<char>
    decreases s.len(),
{
    if s.len() > 0 && is_white_space(s[0]) {
        trim_start(s.drop_first())
    } else {
        s
    }
}

/// A text without the white space at the end.
pub open spec fn trim_end(s: Seq<char>) -> Seq<char>
    decreases s.len(),
{
    if s.len() > 0 && is_white_space(s.last()) {
        trim_end(s.drop_last())
    } else {
        s
    }
}

/// A text without the white space around it.
pub open spec fn trimmed(s: Seq<char>) -> Seq<char> {
    trim_end(trim_start(s))
}

/// The text without the white space around it. What it was read into is
/// wiped.
pub fn trim(s: &str) -> (t: String)
    ensures
        t@ == trimmed(s@),
{
    let mut v = chars_of(s);
    let mut from: usize = 0;
    assert(s@.skip(0) =~= s@);
    while from < v.len() && white_space(v[from])
        invariant
            from <= v@.len(),
            v@ == s@,
            trim_start(s@) == trim_start(s@.skip(from as int)),
        decreases v@.len() - from,
    {
        assert(s@.skip(from as int).drop_first() =~= s@.skip(from + 1));
        from = from + 1;
    }
    let ghost rest = s@.skip(from as int);
    assert(trim_start(s@) == rest);
    let mut to: usize = v.len();
    assert(rest.take(to - from) =~= rest);
    while from < to && white_space(v[to - 1])
        invariant
            from <= to <= v@.len(),
            v@ == s@,
            rest == s@.skip(from as int),
            trim_end(rest) == trim_end(rest.take(to - from)),
        decreases to - from,
    {
        assert(rest.take(to - from).last() == v@[to - 1]);
        assert(rest.take(to - from).drop_last() =~= rest.take(to - from - 1));
        to = to - 1;
    }
    assert(from < to ==> rest.take(to - from).last() == v@[to - 1]);
    assert(trim_end(rest) == rest.take(to - from));
    let t = string_of(vstd::slice::slice_subrange(v.as_slice(), from, to));
    assert(t@ =~= rest.take(to - from));
    wipe_chars(&mut v);
    t
}

/// The control characters (general category `Cc`).
pub open spec fn is_control(c: char) -> bool {
    let n = c as u32;
    n <= 0x1f || 0x7f <= n <= 0x9f
}

/// A character is a control character.
pub fn control(c: char) -> (yes: bool)
    ensures
        yes == is_control(c),
{
    let n: u32 = c as u32;
    n <= 0x1f || (0x7f <= n && n <= 0x9f)
}

/// `String::from_utf8`: the text that the bytes encode, when they are
/// well-formed UTF-8.
#[verifier::external_body]
pub(crate) fn utf8_text(bytes: &[u8]) -> (s: Option<String>)
    ensures
        s is Some <==> vstd::utf8::valid_utf8(bytes@),
        s matches Some(t) ==> t@ == vstd::utf8::decode_utf8(bytes@),
{
    String::from_utf8(bytes.to_vec()).ok()
}

/// The text that `String::from_utf8_lossy` reads out of bytes.
pub uninterp spec fn lossy(bytes: Seq<u8>) -> Seq<char>;

/// `String::from_utf8_lossy`: well-formed UTF-8 is decoded as it stands; what
/// stands for malformed bytes is left to the name.
#[verifier::external_body]
pub(crate) fn lossy_text(bytes: &[u8]) -> (s: String)
    ensures
        s@ == lossy(bytes@),
        vstd::utf8::valid_utf8(bytes@) ==> s@ == vstd::utf8::decode_utf8(bytes@),
{
    String::from_utf8_lossy(bytes).into_owned()
}

/// The text of `{:?}` for a string.
pub uninterp spec fn quoted(s: Seq<char>) -> Seq<char>;

/// The `Debug` rendering of a string: in double quotes, with escapes.
#[verifier::external_body]
pub(crate) fn quoted_text(s: &str) -> (q: String)
    ensures
        q@ == quoted(s@),
{
    format!("{:?}", s)
}

/// The text with the escapes of `str::escape_debug`.
pub uninterp spec fn escaped(s: Seq<char>) -> Seq<char>;

/// `str::escape_debug`, collected into a string.
#[verifier::external_body]
pub(crate) fn escaped_text(s: &str) -> (e: String)
    ensures
        e@ == escaped(s@),
{
    s.escape_debug().to_string()
}

/// One upper-case hexadecimal digit.
pub open spec fn upper_hex_digit(d: nat) -> char {
    if d < 10 {
        digit(d)
    } else {
        (('A' as nat) + (d - 10) as nat) as char
    }
}

/// Renders one upper-case hexadecimal digit.
pub fn upper_hex(d: u8) -> (c: char)
    requires
        d < 16,
    ensures
        c == upper_hex_digit(d as nat),
{
    if d < 10 {
        digit_char(d as u64)
    } else if d == 10 {
        'A'
    } else if d == 11 {
        'B'
    } else if d == 12 {
        'C'
    } else if d == 13 {
        'D'
    } else if d == 14 {
        'E'
    } else {
        'F'
    }
}

/// The length of the UTF-8 encoding of one character at the front, or 0 when
/// the bytes do not start with one.
pub open spec fn front_width(b: Seq<u8>) -> int {
    if b.len() >= 1 && vstd::utf8::valid_utf8(b.take(1)) {
        1
    } else if b.len() >= 2 && vstd::utf8::valid_utf8(b.take(2)) {
        2
    } else if b.len() >= 3 && vstd::utf8::valid_utf8(b.take(3)) {
        3
    } else if b.len() >= 4 && vstd::utf8::valid_utf8(b.take(4)) {
        4
    } else {
        0
    }
}

/// A character as the `Debug` rendering of a path shows it: escaped, but for
/// the single quote.
pub open spec fn path_escape(text: Seq<char>) -> Seq<char> {
    if text == seq!['\''] {
        text
    } else {
        escaped(text)
    }
}

/// The inside of the `Debug` rendering of a path: each character escaped,
/// each byte that belongs to none as `\xNN`.
pub open spec fn path_escapes(b: Seq<u8>) -> Seq<char>
    decreases b.len(),
{
    if b.len() == 0 {
        Seq::empty()
    } else if front_width(b) > 0 {
        path_escape(vstd::utf8::decode_utf8(b.take(front_width(b)))) + path_escapes(
            b.skip(front_width(b)),
        )
    } else {
        seq![
            '\\',
            'x',
            upper_hex_digit((b[0] / 16) as nat),
            upper_hex_digit((b[0] % 16) as nat),
        ] + path_escapes(b.skip(1))
    }
}

/// The `Debug` rendering of a path.
pub open spec fn quoted_path(b: Seq<u8>) -> Seq<char> {
    seq!['"'] + path_escapes(b) + seq!['"']
}

fn front_character(b: &[u8]) -> (front: Option<(String, usize)>)
    ensures
        match front {
            Some((text, width)) => width == front_width(b@) && 0 < width <= b@.len() && text@
                == vstd::utf8::decode_utf8(b@.take(width as int)),
            None => front_width(b@) == 0,
        },
{
    let mut width: usize = 1;
    while width <= 4 && width <= b.len()
        invariant
            1 <= width <= 5,
            forall|w: int|
                1 <= w < width ==> w <= b@.len() && !vstd::utf8::valid_utf8(#[trigger] b@.take(w)),
        decreases 5 - width,
    {
        let front = vstd::slice::slice_subrange(b, 0, width);
        assert(front@ =~= b@.take(width as int));
        match utf8_text(front) {
            Some(text) => {
                return Some((text, width));
            },
            None => {},
        }
        width = width + 1;
    }
    None
}

/// Renders a path as `{:?}` does.
pub fn quoted_path_text(b: &[u8]) -> (q: String)
    ensures
        q@ == quoted_path(b@),
{
    let mut q = String::new();
    q.push('"');
    let mut i: usize = 0;
    assert(b@.skip(0) =~= b@);
    while i < b.len()
        invariant
            i <= b@.len(),
            q@ + path_escapes(b@.skip(i as int)) == seq!['"'] + path_escapes(b@),
        decreases b@.len() - i,
    {
        let rest = vstd::slice::slice_subrange(b, i, b.len());
        assert(rest@ =~= b@.skip(i as int));
        let ghost before = q@;
        match front_character(rest) {
            Some((text, width)) => {
                if same_text(text.as_str(), "'") {
                    proof {
                        reveal_strlit("'");
                    }
                    assert(text@ =~= seq!['\'']);
                    q.push('\'');
                } else {
                    proof {
                        reveal_strlit("'");
                    }
                    assert("'"@ =~= seq!['\'']);
                    q.append(escaped_text(text.as_str()).as_str());
                }
                assert(rest@.skip(width as int) =~= b@.skip(i + width));
                assert(q@ + path_escapes(b@.skip(i + width)) =~= before + path_escapes(rest@));
                i = i + width;
            },
            None => {
                let byte: u8 = b[i];
                q.push('\\');
                q.push('x');
                q.push(upper_hex(byte / 16));
                q.push(upper_hex(byte % 16));
                assert(rest@.skip(1) =~= b@.skip(i + 1));
                assert(q@ + path_escapes(b@.skip(i + 1)) =~= before + path_escapes(rest@));
                i = i + 1;
            },
        }
    }
    assert(path_escapes(b@.skip(i as int)) =~= Seq::<char>::empty());
    q.push('"');
    assert(q@ =~= quoted_path(b@));
    q
}

/// A text begins with another.
pub fn begins_with(s: &str, prefix: &str) -> (yes: bool)
    ensures
        yes == prefix@.is_prefix_of(s@),
{
    let v = chars_of(s);
    let w = chars_of(prefix);
    if w.len() > v.len() {
        return false;
    }
    let mut i: usize = 0;
    while i < w.len()
        invariant
            i <= w@.len() <= v@.len(),
            v@ == s@,
            w@ == prefix@,
            forall|k: int| 0 <= k < i ==> v@[k] == w@[k],
        decreases w@.len() - i,
    {
        if v[i] != w[i] {
            assert(prefix@[i as int] != s@.subrange(0, prefix@.len() as int)[i as int]);
            return false;
        }
        i = i + 1;
    }
    assert(prefix@ =~= s@.subrange(0, prefix@.len() as int));
    true
}

/// The text that `str::to_lowercase` gives.
pub uninterp spec fn lower(s: Seq<char>) -> Seq<char>;

/// `str::to_lowercase`: Unicode's full lower-case mapping.
#[verifier::external_body]
pub(crate) fn lower_text(s: &str) -> (t: String)
    ensures
        t@ == lower(s@),
{
    s.to_lowercase()
}

/// One lower-case hexadecimal digit.
pub open spec fn lower_hex_digit(d: nat) -> char {
    if d < 10 {
        digit(d)
    } else {
        (('a' as nat) + (d - 10) as nat) as char
    }
}

/// Renders one lower-case hexadecimal digit.
pub fn lower_hex(d: u8) -> (c: char)
    requires
        d < 16,
    ensures
        c == lower_hex_digit(d as nat),
{
    if d < 10 {
        digit_char(d as u64)
    } else if d == 10 {
        'a'
    } else if d == 11 {
        'b'
    } else if d == 12 {
        'c'
    } else if d == 13 {
        'd'
    } else if d == 14 {
        'e'
    } else {
        'f'
    }
}

/// A natural number in lower-case hexadecimal, without leading zeros.
pub open spec fn hexadecimal(n: nat) -> Seq<char>
    decreases n,
{
    if n < 16 {
        seq![lower_hex_digit(n)]
    } else {
        hexadecimal(n / 16).push(lower_hex_digit(n % 16))
    }
}

/// Renders a number in lower-case hexadecimal.
pub fn hex_text(n: u64) -> (s: String)
    ensures
        s@ == hexadecimal(n as nat),
    decreases n,
{
    if n < 16 {
        let mut s = String::new();
        s.push(lower_hex(n as u8));
        assert(s@ =~= hexadecimal(n as nat));
        s
    } else {
        let mut s = hex_text(n / 16);
        s.push(lower_hex((n % 16) as u8));
        s
    }
}

/// Bytes in lower-case hexadecimal, two digits each.
pub open spec fn hex_bytes(b: Seq<u8>) -> Seq<char>
    decreases b.len(),
{
    if b.len() == 0 {
        Seq::empty()
    } else {
        hex_bytes(b.drop_last()).push(lower_hex_digit((b.last() / 16) as nat)).push(
            lower_hex_digit((b.last() % 16) as nat),
        )
    }
}

/// Renders bytes in lower-case hexadecimal, two digits each.
pub fn hex_bytes_text(b: &[u8]) -> (s: String)
    ensures
        s@ == hex_bytes(b@),
{
    let mut s = String::new();
    let mut i: usize = 0;
    assert(b@.take(0) =~= Seq::<u8>::empty());
    while i < b.len()
        invariant
            i <= b@.len(),
            s@ == hex_bytes(b@.take(i as int)),
        decreases b@.len() - i,
    {
        proof {
            let now = b@.take(i + 1);
            assert(now.drop_last() =~= b@.take(i as int));
            assert(now.last() == b@[i as int]);
        }
        s.push(lower_hex(b[i] / 16));
        s.push(lower_hex(b[i] % 16));
        i = i + 1;
    }
    assert(b@.take(i as int) =~= b@);
    s
}

/// Hexadecimal text has two digits per byte, and nothing but digits.
pub proof fn hex_bytes_shape(b: Seq<u8>)
    ensures
        hex_bytes(b).len() == 2 * b.len(),
        forall|i: int| 0 <= i < b.len() ==> {
            &&& hex_bytes(b)[2 * i] == lower_hex_digit((#[trigger] b[i] / 16) as nat)
            &&& hex_bytes(b)[2 * i + 1] == lower_hex_digit((b[i] % 16) as nat)
        },
    decreases b.len(),
{
    if b.len() > 0 {
        let front = b.drop_last();
        hex_bytes_shape(front);
        let s = hex_bytes(b);
        assert forall|i: int| 0 <= i < b.len() implies {
            &&& s[2 * i] == lower_hex_digit((#[trigger] b[i] / 16) as nat)
            &&& s[2 * i + 1] == lower_hex_digit((b[i] % 16) as nat)
        } by {
            if i < front.len() {
                assert(front[i] == b[i]);
                assert(hex_bytes(front)[2 * i] == s[2 * i]);
                assert(hex_bytes(front)[2 * i + 1] == s[2 * i + 1]);
            }
        }
    }
}

} // verus!
