//! Laws of texts and numbers.

#![allow(unused_imports)]

use vstd::prelude::*;

use crate::text::{
    begins_with, decimal_text, has_char, hex_bytes_text, same_text, trim,
};

verus! {

/// The number that decimal digits stand for.
pub open spec fn read_decimal(digits: Seq<char>) -> int
    decreases digits.len(),
{
    if digits.len() == 0 {
        0
    } else {
        10 * read_decimal(digits.drop_last()) + (digits.last() as int - 48)
    }
}

/// A number in decimal is made of digits, stands for that number, and has no
/// leading zero.
pub proof fn decimals_stand_for_their_number(n: u64, s: String)
    requires
        call_ensures(decimal_text, (n,), s),
    ensures
        read_decimal(s@) == n,
        forall|i: int| 0 <= i < s@.len() ==> '0' <= #[trigger] s@[i] <= '9',
        s@.len() > 0,
        n > 0 ==> s@[0] != '0',
{
    crate::text::decimals_are_digits(n as nat);
    decimals_read_back(n as nat);
}

pub(crate) proof fn decimals_read_back(n: nat)
    ensures
        read_decimal(crate::text::decimal(n)) == n,
        crate::text::decimal(n).len() > 0,
        n > 0 ==> crate::text::decimal(n)[0] != '0',
    decreases n,
{
    let s = crate::text::decimal(n);
    if n < 10 {
        assert(s.drop_last() =~= Seq::<char>::empty());
        assert(read_decimal(s.drop_last()) == 0);
        assert(crate::text::digit(n) as int == 48 + n);
    } else {
        decimals_read_back(n / 10);
        assert(s.drop_last() =~= crate::text::decimal(n / 10));
        assert(crate::text::digit(n % 10) as int == 48 + n % 10);
    }
}

/// Trimming takes white space from both ends and nothing else: what is left
/// is a piece of the text that neither begins nor ends with white space, and
/// all around it was white space.
pub proof fn trimming_takes_white_space_from_the_ends(s: &str, t: String)
    requires
        call_ensures(trim, (s,), t),
    ensures
        exists|from: int, to: int|
            #![trigger s@.subrange(from, to)]
            0 <= from <= to <= s@.len() && t@ == s@.subrange(from, to) && (forall|i: int|
                0 <= i < from || to <= i < s@.len() ==> crate::text::is_white_space(
                    #[trigger] s@[i],
                )),
        t@.len() > 0 ==> !crate::text::is_white_space(t@[0]) && !crate::text::is_white_space(
            t@.last(),
        ),
{
    trimmed_shape(s@);
}

pub(crate) proof fn trimmed_shape(s: Seq<char>)
    ensures
        ({
            let t = crate::text::trimmed(s);
            &&& exists|from: int, to: int|
                #![trigger s.subrange(from, to)]
                0 <= from <= to <= s.len() && t == s.subrange(from, to) && (forall|i: int|
                    0 <= i < from || to <= i < s.len() ==> crate::text::is_white_space(
                        #[trigger] s[i],
                    ))
            &&& t.len() > 0 ==> !crate::text::is_white_space(t[0])
                && !crate::text::is_white_space(t.last())
        }),
{
    let a = crate::text::trim_start(s);
    let t = crate::text::trim_end(a);
    start_shape(s);
    end_shape(a);
    let from = s.len() - a.len();
    let to = from + t.len();
    assert(t =~= s.subrange(from, to));
    assert forall|i: int| 0 <= i < from || to <= i < s.len() implies crate::text::is_white_space(
        #[trigger] s[i],
    ) by {
        if i >= to {
            assert(a[i - from] == s[i]);
        }
    }
}

/// White space around a text that begins and ends with something else is
/// what trimming takes.
pub proof fn padding_is_trimmed(lead: Seq<char>, text: Seq<char>, tail: Seq<char>)
    requires
        crate::text::blank(lead),
        crate::text::blank(tail),
        text.len() > 0,
        !crate::text::is_white_space(text[0]),
        !crate::text::is_white_space(text.last()),
    ensures
        crate::text::trimmed(lead + text + tail) == text,
    decreases lead.len() + tail.len(),
{
    let all = lead + text + tail;
    if lead.len() > 0 {
        assert(crate::text::is_white_space(lead[0]));
        assert(all.drop_first() =~= lead.drop_first() + text + tail);
        assert forall|i: int| 0 <= i < lead.drop_first().len() implies crate::text::is_white_space(
            #[trigger] lead.drop_first()[i],
        ) by {
            assert(crate::text::is_white_space(lead[i + 1]));
        }
        padding_is_trimmed(lead.drop_first(), text, tail);
    } else {
        assert(all =~= text + tail);
        assert(crate::text::trim_start(all) == all);
        tails_are_trimmed(text, tail);
    }
}

proof fn tails_are_trimmed(text: Seq<char>, tail: Seq<char>)
    requires
        crate::text::blank(tail),
        text.len() > 0,
        !crate::text::is_white_space(text.last()),
    ensures
        crate::text::trim_end(text + tail) == text,
    decreases tail.len(),
{
    let all = text + tail;
    if tail.len() > 0 {
        assert(crate::text::is_white_space(tail[tail.len() - 1]));
        assert(all.drop_last() =~= text + tail.drop_last());
        assert forall|i: int| 0 <= i < tail.drop_last().len() implies crate::text::is_white_space(
            #[trigger] tail.drop_last()[i],
        ) by {
            assert(crate::text::is_white_space(tail[i]));
        }
        tails_are_trimmed(text, tail.drop_last());
    } else {
        assert(all =~= text);
    }
}

proof fn start_shape(s: Seq<char>)
    ensures
        ({
            let a = crate::text::trim_start(s);
            &&& a.len() <= s.len()
            &&& a == s.skip(s.len() - a.len())
            &&& forall|i: int|
                0 <= i < s.len() - a.len() ==> crate::text::is_white_space(#[trigger] s[i])
            &&& a.len() > 0 ==> !crate::text::is_white_space(a[0])
        }),
    decreases s.len(),
{
    let a = crate::text::trim_start(s);
    if s.len() > 0 && crate::text::is_white_space(s[0]) {
        start_shape(s.drop_first());
        assert(a =~= s.skip(s.len() - a.len()));
        assert forall|i: int| 0 <= i < s.len() - a.len() implies crate::text::is_white_space(
            #[trigger] s[i],
        ) by {
            if i > 0 {
                assert(s.drop_first()[i - 1] == s[i]);
            }
        }
    } else {
        assert(a =~= s.skip(0));
    }
}

proof fn end_shape(s: Seq<char>)
    ensures
        ({
            let t = crate::text::trim_end(s);
            &&& t.len() <= s.len()
            &&& t == s.take(t.len() as int)
            &&& forall|i: int|
                t.len() <= i < s.len() ==> crate::text::is_white_space(#[trigger] s[i])
            &&& t.len() > 0 ==> !crate::text::is_white_space(t.last())
        }),
    decreases s.len(),
{
    let t = crate::text::trim_end(s);
    if s.len() > 0 && crate::text::is_white_space(s.last()) {
        end_shape(s.drop_last());
        assert(t =~= s.take(t.len() as int));
        assert forall|i: int| t.len() <= i < s.len() implies crate::text::is_white_space(
            #[trigger] s[i],
        ) by {
            if i < s.len() - 1 {
                assert(s.drop_last()[i] == s[i]);
            }
        }
    } else {
        assert(t =~= s.take(s.len() as int));
    }
}

/// The value of a hexadecimal digit in lower case.
pub open spec fn hex_value(c: char) -> int {
    if '0' <= c <= '9' {
        c as int - 48
    } else {
        c as int - 87
    }
}

/// Bytes in hexadecimal are two digits of lower case each, the high one
/// first.
pub proof fn hex_texts_stand_for_their_bytes(b: &[u8], s: String, i: int)
    requires
        call_ensures(hex_bytes_text, (b,), s),
        0 <= i < b@.len(),
    ensures
        s@.len() == 2 * b@.len(),
        ({
            let high = s@[2 * i];
            let low = s@[2 * i + 1];
            &&& 16 * hex_value(high) + hex_value(low) == b@[i]
            &&& '0' <= high <= '9' || 'a' <= high <= 'f'
            &&& '0' <= low <= '9' || 'a' <= low <= 'f'
        }),
{
    hex_shape(b@, i);
}

pub(crate) proof fn hex_shape(b: Seq<u8>, i: int)
    requires
        0 <= i < b.len(),
    ensures
        ({
            let s = crate::text::hex_bytes(b);
            let high = s[2 * i];
            let low = s[2 * i + 1];
            &&& s.len() == 2 * b.len()
            &&& 16 * hex_value(high) + hex_value(low) == b[i]
            &&& '0' <= high <= '9' || 'a' <= high <= 'f'
            &&& '0' <= low <= '9' || 'a' <= low <= 'f'
        }),
{
    crate::text::hex_bytes_shape(b);
    let n = b[i];
    assert(n == 16 * (n / 16) + n % 16);
    hex_digits_read_back((n / 16) as nat);
    hex_digits_read_back((n % 16) as nat);
}

proof fn hex_digits_read_back(d: nat)
    requires
        d < 16,
    ensures
        hex_value(crate::text::lower_hex_digit(d)) == d,
        ({
            let c = crate::text::lower_hex_digit(d);
            '0' <= c <= '9' || 'a' <= c <= 'f'
        }),
{
}

/// The number that hexadecimal digits stand for.
pub open spec fn read_hex(digits: Seq<char>) -> int
    decreases digits.len(),
{
    if digits.len() == 0 {
        0
    } else {
        16 * read_hex(digits.drop_last()) + hex_value(digits.last())
    }
}

/// A number in hexadecimal stands for that number.
pub proof fn hexadecimals_stand_for_their_number(n: u64, s: String)
    requires
        call_ensures(crate::text::hex_text, (n,), s),
    ensures
        read_hex(s@) == n,
        s@.len() > 0,
{
    hexadecimals_read_back(n as nat);
}

proof fn hexadecimals_read_back(n: nat)
    ensures
        read_hex(crate::text::hexadecimal(n)) == n,
        crate::text::hexadecimal(n).len() > 0,
    decreases n,
{
    let s = crate::text::hexadecimal(n);
    if n < 16 {
        hex_digits_read_back(n);
        assert(s.drop_last() =~= Seq::<char>::empty());
        assert(read_hex(s.drop_last()) == 0);
    } else {
        hexadecimals_read_back(n / 16);
        hex_digits_read_back(n % 16);
        assert(s.drop_last() =~= crate::text::hexadecimal(n / 16));
    }
}

/// White space is the space, the tab, the line ends and what else Unicode
/// counts as such; letters, digits, dots, dashes and slashes are none.
pub proof fn letters_are_no_white_space(c: char, yes: bool)
    requires
        call_ensures(crate::text::white_space, (c,), yes),
    ensures
        c == ' ' || c == '\t' || c == '\n' || c == '\r' ==> yes,
        '!' <= c <= '~' ==> !yes,
{
}

/// A text begins with each of its beginnings and with nothing else.
pub proof fn beginnings_are_recognized(s: &str, prefix: &str, yes: bool, rest: Seq<char>)
    requires
        call_ensures(begins_with, (s, prefix), yes),
    ensures
        s@ == prefix@ + rest ==> yes,
        yes ==> s@ == prefix@ + s@.skip(prefix@.len() as int),
{
    if s@ == prefix@ + rest {
        assert(prefix@ =~= s@.subrange(0, prefix@.len() as int));
    }
    if yes {
        assert(s@ =~= prefix@ + s@.skip(prefix@.len() as int));
    }
}

/// A character is found exactly where it stands, and two texts are the same
/// exactly where all their characters are.
pub proof fn characters_are_found(
    a: &str,
    b: &str,
    c: char,
    found: bool,
    same: bool,
    i: int,
)
    requires
        call_ensures(has_char, (a, c), found),
        call_ensures(same_text, (a, b), same),
    ensures
        0 <= i < a@.len() && a@[i] == c ==> found,
        found ==> exists|k: int| 0 <= k < a@.len() && a@[k] == c,
        same <==> a@ == b@,
{
}

} // verus!
