//! Single-line text editing: a string and a caret.
//!
//! The caret is a byte offset that always stands on a character boundary.

use vstd::prelude::*;
use vstd::string::*;

use crate::text::{chars_of, control};

verus! {

/// The UTF-8 bytes of a text.
pub open spec fn bytes(s: Seq<char>) -> Seq<u8> {
    vstd::utf8::encode_utf8(s)
}

/// A caret stands on a character boundary of a text.
#[verifier::opaque]
pub open spec fn on_boundary(s: Seq<char>, caret: int) -> bool {
    vstd::utf8::is_char_boundary(bytes(s), caret)
}

/// The last boundary in front of `i`, or the start.
pub open spec fn boundary_before(b: Seq<u8>, i: int) -> int
    decreases i,
{
    if i <= 0 {
        0
    } else if vstd::utf8::is_char_boundary(b, i - 1) {
        i - 1
    } else {
        boundary_before(b, i - 1)
    }
}

/// The first boundary behind `i`, or the end.
pub open spec fn boundary_after(b: Seq<u8>, i: int) -> int
    decreases b.len() - i,
{
    if i >= b.len() {
        b.len() as int
    } else if vstd::utf8::is_char_boundary(b, i + 1) {
        i + 1
    } else {
        boundary_after(b, i + 1)
    }
}

/// A text without its control characters.
pub open spec fn printable(s: Seq<char>) -> Seq<char>
    decreases s.len(),
{
    if s.len() == 0 {
        Seq::empty()
    } else if crate::text::is_control(s.last()) {
        printable(s.drop_last())
    } else {
        printable(s.drop_last()).push(s.last())
    }
}

/// The text with printable input put in at a caret.
pub open spec fn inserted(s: Seq<char>, caret: int, input: Seq<char>) -> Seq<char> {
    vstd::utf8::decode_utf8(
        bytes(s).take(caret) + bytes(printable(input)) + bytes(s).skip(caret),
    )
}

/// The text without the bytes between two boundaries.
pub open spec fn cut_out(s: Seq<char>, from: int, to: int) -> Seq<char> {
    vstd::utf8::decode_utf8(bytes(s).take(from) + bytes(s).skip(to))
}

/// Text is encoded piece by piece.
pub proof fn encoding_concatenates(a: Seq<char>, b: Seq<char>)
    ensures
        bytes(a + b) == bytes(a) + bytes(b),
    decreases a.len(),
{
    if a.len() == 0 {
        assert(a + b =~= b);
        assert(bytes(a) + bytes(b) =~= bytes(b));
    } else {
        encoding_concatenates(a.drop_first(), b);
        assert((a + b).drop_first() =~= a.drop_first() + b);
        assert(bytes(a + b) =~= bytes(a) + bytes(b));
    }
}

/// Where two texts meet is a boundary.
pub proof fn seam_is_boundary(a: Seq<char>, b: Seq<char>)
    ensures
        on_boundary(a + b, bytes(a).len() as int),
{
    reveal(on_boundary);
    encoding_concatenates(a, b);
    vstd::utf8::encode_utf8_valid_utf8(a + b);
    vstd::utf8::encode_utf8_valid_utf8(b);
    let whole = bytes(a + b);
    let at = bytes(a).len() as int;
    if at == whole.len() {
        vstd::utf8::is_char_boundary_start_end_of_seq(whole);
    } else {
        vstd::utf8::is_char_boundary_start_end_of_seq(bytes(b));
        vstd::utf8::is_char_boundary_iff_not_is_continuation_byte(bytes(b), 0);
        vstd::utf8::is_char_boundary_iff_not_is_continuation_byte(whole, at);
        assert(whole[at] == bytes(b)[0]);
    }
}

/// A boundary lies within the text; both ends are boundaries.
pub proof fn boundaries_in_range(s: Seq<char>, i: int)
    ensures
        on_boundary(s, i) ==> 0 <= i <= bytes(s).len(),
        on_boundary(s, 0),
        on_boundary(s, bytes(s).len() as int),
{
    reveal(on_boundary);
    vstd::utf8::encode_utf8_valid_utf8(s);
    vstd::utf8::is_char_boundary_start_end_of_seq(bytes(s));
}

/// The boundary in front of a caret: the start of the character before it,
/// or the start of the text.
pub fn prev_boundary(text: &str, index: usize) -> (start: usize)
    requires
        on_boundary(text@, index as int),
    ensures
        start == boundary_before(bytes(text@), index as int),
        on_boundary(text@, start as int),
        start <= index,
        index > 0 ==> start < index,
{
    proof {
        reveal(on_boundary);
    }
    proof {
        boundaries_in_range(text@, index as int);
    }
    if index == 0 {
        return 0;
    }
    let mut i: usize = index - 1;
    while !text.is_char_boundary(i)
        invariant
            i < index,
            index <= bytes(text@).len(),
            vstd::utf8::is_char_boundary(bytes(text@), 0),
            boundary_before(bytes(text@), index as int) == boundary_before(
                bytes(text@),
                i + 1,
            ),
        decreases i,
    {
        i = i - 1;
    }
    i
}

/// The boundary behind a caret: the end of the character after it, or the end
/// of the text.
pub fn next_boundary(text: &str, index: usize) -> (end: usize)
    requires
        on_boundary(text@, index as int),
    ensures
        end == boundary_after(bytes(text@), index as int),
        on_boundary(text@, end as int),
        end >= index,
        index < bytes(text@).len() ==> end > index,
{
    proof {
        reveal(on_boundary);
    }
    proof {
        boundaries_in_range(text@, index as int);
    }
    let len: usize = text.as_bytes().len();
    if index == len {
        return len;
    }
    let mut i: usize = index + 1;
    while !text.is_char_boundary(i)
        invariant
            index < i <= len,
            len == bytes(text@).len(),
            vstd::utf8::is_char_boundary(bytes(text@), len as int),
            boundary_after(bytes(text@), index as int) == boundary_after(bytes(text@), i - 1),
        decreases len - i,
    {
        i = i + 1;
    }
    i
}

fn printable_text(input: &str) -> (clean: String)
    ensures
        clean@ == printable(input@),
{
    let v = chars_of(input);
    let mut clean = String::new();
    let mut i: usize = 0;
    assert(v@.take(0) =~= Seq::<char>::empty());
    while i < v.len()
        invariant
            i <= v@.len(),
            v@ == input@,
            clean@ == printable(v@.take(i as int)),
        decreases v@.len() - i,
    {
        proof {
            let now = v@.take(i + 1);
            assert(now.drop_last() =~= v@.take(i as int));
            assert(now.last() == v@[i as int]);
        }
        if !control(v[i]) {
            clean.push(v[i]);
        }
        i = i + 1;
    }
    assert(v@.take(i as int) =~= input@);
    clean
}

/// The parts of a text in front of and behind a boundary, as texts.
pub proof fn split_text(s: Seq<char>, at: int, front: Seq<char>, back: Seq<char>)
    requires
        on_boundary(s, at),
        bytes(front) == bytes(s).subrange(0, at),
        bytes(back) == bytes(s).subrange(at, bytes(s).len() as int),
    ensures
        s == front + back,
{
    reveal(on_boundary);
    boundaries_in_range(s, at);
    encoding_concatenates(front, back);
    assert(bytes(front + back) =~= bytes(s));
    crate::text::encoding_determines_text(front + back, s);
}

/// Inserts text at the caret and moves the caret behind it, dropping control
/// characters (the field holds a single line).
pub fn insert(text: &mut String, caret: &mut usize, input: &str)
    requires
        on_boundary(old(text)@, *old(caret) as int),
    ensures
        bytes(final(text)@) == bytes(old(text)@).take(*old(caret) as int) + bytes(
            printable(input@),
        ) + bytes(old(text)@).skip(*old(caret) as int),
        final(text)@ == inserted(old(text)@, *old(caret) as int, input@),
        *final(caret) == *old(caret) + bytes(printable(input@)).len(),
        on_boundary(final(text)@, *final(caret) as int),
{
    proof {
        reveal(on_boundary);
    }
    broadcast use vstd::utf8::encode_utf8_decode_utf8;

    let clean = printable_text(input);
    let ghost before = text@;
    let ghost at = *caret as int;
    proof {
        boundaries_in_range(before, at);
    }
    if clean.as_str().is_empty() {
        assert(bytes(clean@) =~= Seq::<u8>::empty());
        assert(bytes(before) =~= bytes(before).take(at) + bytes(clean@) + bytes(before).skip(at));
        assert(vstd::utf8::decode_utf8(bytes(before)) == before);
        return;
    }
    let (front, back) = text.as_str().split_at(*caret);
    proof {
        split_text(before, at, front@, back@);
    }
    let mut result = front.to_owned();
    result.append(clean.as_str());
    let moved: usize = result.as_str().as_bytes().len();
    result.append(back);
    proof {
        encoding_concatenates(front@, clean@);
        encoding_concatenates(front@ + clean@, back@);
        seam_is_boundary(front@ + clean@, back@);
        assert(bytes(before).take(at) =~= bytes(front@));
        assert(bytes(before).skip(at) =~= bytes(back@));
    }
    assert(vstd::utf8::decode_utf8(bytes(result@)) == result@);
    *text = result;
    *caret = moved;
}

/// What is left of `text` without the bytes between two boundaries.
fn cut(text: &str, from: usize, to: usize) -> (result: String)
    requires
        on_boundary(text@, from as int),
        on_boundary(text@, to as int),
        from <= to,
    ensures
        bytes(result@) == bytes(text@).take(from as int) + bytes(text@).skip(to as int),
        result@ == cut_out(text@, from as int, to as int),
        on_boundary(result@, from as int),
{
    proof {
        reveal(on_boundary);
    }
    proof {
        boundaries_in_range(text@, from as int);
        boundaries_in_range(text@, to as int);
    }
    let (front, _) = text.split_at(from);
    let (_, back) = text.split_at(to);
    let mut result = front.to_owned();
    result.append(back);
    proof {
        encoding_concatenates(front@, back@);
        seam_is_boundary(front@, back@);
        assert(bytes(text@).take(from as int) =~= bytes(front@));
        assert(bytes(text@).skip(to as int) =~= bytes(back@));
        vstd::utf8::encode_utf8_decode_utf8(result@);
    }
    result
}

/// Deletes the character in front of the caret.
pub fn delete_backward(text: &mut String, caret: &mut usize)
    requires
        on_boundary(old(text)@, *old(caret) as int),
    ensures
        *final(caret) == boundary_before(bytes(old(text)@), *old(caret) as int),
        bytes(final(text)@) == bytes(old(text)@).take(*final(caret) as int) + bytes(
            old(text)@,
        ).skip(*old(caret) as int),
        final(text)@ == cut_out(old(text)@, *final(caret) as int, *old(caret) as int),
        on_boundary(final(text)@, *final(caret) as int),
{
    let start: usize = prev_boundary(text.as_str(), *caret);
    if start < *caret {
        let result = cut(text.as_str(), start, *caret);
        *text = result;
        *caret = start;
    } else {
        proof {
            boundaries_in_range(text@, 0);
            assert(bytes(text@) =~= bytes(text@).take(0) + bytes(text@).skip(0));
            vstd::utf8::encode_utf8_decode_utf8(text@);
        }
    }
}

/// Deletes the character behind the caret.
pub fn delete_forward(text: &mut String, caret: &mut usize)
    requires
        on_boundary(old(text)@, *old(caret) as int),
    ensures
        *final(caret) == *old(caret),
        bytes(final(text)@) == bytes(old(text)@).take(*old(caret) as int) + bytes(
            old(text)@,
        ).skip(boundary_after(bytes(old(text)@), *old(caret) as int)),
        final(text)@ == cut_out(
            old(text)@,
            *old(caret) as int,
            boundary_after(bytes(old(text)@), *old(caret) as int),
        ),
        on_boundary(final(text)@, *final(caret) as int),
{
    let end: usize = next_boundary(text.as_str(), *caret);
    proof {
        boundaries_in_range(text@, *caret as int);
    }
    if end > *caret {
        let result = cut(text.as_str(), *caret, end);
        *text = result;
    } else {
        assert(bytes(text@) =~= bytes(text@).take(*caret as int) + bytes(text@).skip(
            *caret as int,
        ));
        proof {
            vstd::utf8::encode_utf8_decode_utf8(text@);
        }
    }
}

proof fn one_character(c: char)
    ensures
        bytes(seq![c]) == vstd::utf8::encode_scalar(c as u32),
{
    let one = seq![c];
    assert(one.drop_first() =~= Seq::<char>::empty());
    assert(bytes(one.drop_first()) =~= Seq::<u8>::empty());
    assert(bytes(one) == vstd::utf8::encode_scalar(one[0] as u32) + bytes(one.drop_first()));
    assert(bytes(one) =~= vstd::utf8::encode_scalar(c as u32));
}

proof fn no_boundary_inside(c: char, j: int)
    requires
        0 < j < bytes(seq![c]).len(),
    ensures
        !vstd::utf8::is_char_boundary(bytes(seq![c]), j),
{
    let one = seq![c];
    let e = bytes(one);
    vstd::utf8::encode_utf8_valid_utf8(one);
    vstd::utf8::encode_utf8_first_scalar(one);
    one_character(c);
    reveal_with_fuel(vstd::utf8::is_char_boundary, 2);
}

proof fn boundary_before_skips(b: Seq<u8>, low: int, high: int)
    requires
        0 <= low < high,
        vstd::utf8::is_char_boundary(b, low),
        forall|i: int| low < i < high ==> !#[trigger] vstd::utf8::is_char_boundary(b, i),
    ensures
        boundary_before(b, high) == low,
    decreases high - low,
{
    if high - 1 > low {
        boundary_before_skips(b, low, high - 1);
    }
}

/// Deleting backward undoes the insertion of one printable character: the
/// character's bytes are exactly what stands between the two carets.
pub proof fn delete_backward_undoes_insert(front: Seq<char>, c: char, back: Seq<char>)
    ensures
        boundary_before(bytes(front + seq![c] + back), bytes(front + seq![c]).len() as int)
            == bytes(front).len(),
        bytes(front + seq![c] + back).take(bytes(front).len() as int) + bytes(
            front + seq![c] + back,
        ).skip(bytes(front + seq![c]).len() as int) == bytes(front + back),
{
    let one = seq![c];
    let whole = front + one + back;
    encoding_concatenates(front, one);
    encoding_concatenates(front + one, back);
    encoding_concatenates(front, back);
    let low = bytes(front).len() as int;
    let high = bytes(front + one).len() as int;
    let b = bytes(whole);
    vstd::utf8::encode_utf8_valid_utf8(whole);
    vstd::utf8::encode_utf8_valid_utf8(one);
    one_character(c);
    assert(whole =~= front + (one + back));
    seam_is_boundary(front, one + back);
    assert forall|i: int| low < i < high implies !#[trigger] vstd::utf8::is_char_boundary(b, i) by {
        no_boundary_inside(c, i - low);
        vstd::utf8::is_char_boundary_iff_not_is_continuation_byte(bytes(one), i - low);
        vstd::utf8::is_char_boundary_iff_not_is_continuation_byte(b, i);
        assert(b[i] == bytes(one)[i - low]);
    }
    reveal(on_boundary);
    boundary_before_skips(b, low, high);
    assert(b.take(low) + b.skip(high) =~= bytes(front + back));
}

proof fn boundary_after_skips(b: Seq<u8>, low: int, high: int)
    requires
        0 <= low < high <= b.len(),
        vstd::utf8::is_char_boundary(b, high),
        forall|i: int| low < i < high ==> !#[trigger] vstd::utf8::is_char_boundary(b, i),
    ensures
        boundary_after(b, low) == high,
    decreases high - low,
{
    if low + 1 < high {
        boundary_after_skips(b, low + 1, high);
    }
}

/// Deleting forward takes the one character behind the caret.
pub proof fn delete_forward_takes_one_character(front: Seq<char>, c: char, back: Seq<char>)
    ensures
        boundary_after(bytes(front + seq![c] + back), bytes(front).len() as int) == bytes(
            front + seq![c],
        ).len(),
        bytes(front + seq![c] + back).take(bytes(front).len() as int) + bytes(
            front + seq![c] + back,
        ).skip(bytes(front + seq![c]).len() as int) == bytes(front + back),
{
    let one = seq![c];
    let whole = front + one + back;
    delete_backward_undoes_insert(front, c, back);
    encoding_concatenates(front, one);
    encoding_concatenates(front + one, back);
    let low = bytes(front).len() as int;
    let high = bytes(front + one).len() as int;
    let b = bytes(whole);
    vstd::utf8::encode_utf8_valid_utf8(whole);
    vstd::utf8::encode_utf8_valid_utf8(one);
    one_character(c);
    seam_is_boundary(front + one, back);
    assert forall|i: int| low < i < high implies !#[trigger] vstd::utf8::is_char_boundary(b, i) by {
        no_boundary_inside(c, i - low);
        vstd::utf8::is_char_boundary_iff_not_is_continuation_byte(bytes(one), i - low);
        vstd::utf8::is_char_boundary_iff_not_is_continuation_byte(b, i);
        assert(b[i] == bytes(one)[i - low]);
    }
    reveal(on_boundary);
    boundary_after_skips(b, low, high);
}

} // verus!
