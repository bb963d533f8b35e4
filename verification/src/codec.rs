//! Length-prefixed framing of protocol messages.
//!
//! A frame is the payload's length as four little-endian bytes, followed by
//! the payload. The length is bounded before anything is allocated.

use vstd::prelude::*;
use vstd::string::*;

use crate::text::decimal_text;
use crate::wipe::wipe_bytes;

verus! {

/// The longest payload of a frame.
pub const MAX_FRAME: usize = 16777216;

/// The four little-endian bytes of a number.
pub open spec fn little_endian(n: u32) -> Seq<u8> {
    seq![
        (n % 256) as u8,
        (n / 256 % 256) as u8,
        (n / 65536 % 256) as u8,
        (n / 16777216) as u8,
    ]
}

/// The number that four little-endian bytes stand for.
pub open spec fn from_little_endian(b: Seq<u8>) -> int {
    b[0] + 256 * b[1] + 65536 * b[2] + 16777216 * b[3]
}

/// Reading the bytes of a number gives the number back.
pub proof fn little_endian_round_trips(n: u32)
    ensures
        from_little_endian(little_endian(n)) == n,
{
    assert(n == n % 256 + 256 * (n / 256 % 256) + 65536 * (n / 65536 % 256) + 16777216 * (n
        / 16777216)) by {
        assert(n / 256 / 256 == n / 65536);
        assert(n / 65536 / 256 == n / 16777216);
    }
}

/// The frame of a payload.
pub open spec fn framed(payload: Seq<u8>) -> Seq<u8> {
    little_endian(payload.len() as u32) + payload
}

/// Why a length is refused.
pub open spec fn length_problem(length: int) -> Seq<char> {
    "frame length "@ + crate::text::decimal(length as nat) + " exceeds "@ + crate::text::decimal(
        MAX_FRAME as nat,
    )
}

fn length_error(length: u64) -> (m: String)
    ensures
        m@ == length_problem(length as int),
{
    let mut m = "frame length ".to_owned();
    m.append(decimal_text(length).as_str());
    m.append(" exceeds ");
    m.append(decimal_text(MAX_FRAME as u64).as_str());
    m
}

/// Frames a payload, and wipes it. One that is too long is refused.
pub fn frame(payload: Vec<u8>) -> (r: Result<Vec<u8>, String>)
    ensures
        match r {
            Ok(frame) => payload@.len() <= MAX_FRAME && frame@ == framed(payload@),
            Err(m) => payload@.len() > MAX_FRAME && m@ == length_problem(
                payload@.len() as int,
            ),
        },
{
    let mut payload = payload;
    if payload.len() > MAX_FRAME {
        let length: u64 = payload.len() as u64;
        wipe_bytes(&mut payload);
        return Err(length_error(length));
    }
    let n: u32 = payload.len() as u32;
    let mut frame: Vec<u8> = Vec::new();
    frame.push((n % 256) as u8);
    frame.push((n / 256 % 256) as u8);
    frame.push((n / 65536 % 256) as u8);
    frame.push((n / 16777216) as u8);
    assert(frame@ =~= little_endian(n));
    frame.extend_from_slice(payload.as_slice());
    assert(frame@ =~= framed(payload@));
    wipe_bytes(&mut payload);
    Ok(frame)
}

/// The payload length that a frame's first four bytes announce, when it is
/// within bounds.
pub fn frame_length(header: &[u8]) -> (r: Result<usize, String>)
    requires
        header@.len() == 4,
    ensures
        match r {
            Ok(length) => length == from_little_endian(header@) && length <= MAX_FRAME,
            Err(m) => from_little_endian(header@) > MAX_FRAME && m@ == length_problem(
                from_little_endian(header@),
            ),
        },
{
    let length: u64 = header[0] as u64 + 256 * (header[1] as u64) + 65536 * (header[2] as u64)
        + 16777216 * (header[3] as u64);
    if length > MAX_FRAME as u64 {
        return Err(length_error(length));
    }
    Ok(length as usize)
}

/// What is behind a frame's header is the payload, and the header announces
/// its length: reading a frame gives back what was framed, and where the next
/// frame starts.
pub proof fn framing_round_trips(payload: Seq<u8>, behind: Seq<u8>)
    requires
        payload.len() <= MAX_FRAME,
    ensures
        ({
            let stream = framed(payload) + behind;
            let length = from_little_endian(stream.take(4));
            &&& length == payload.len()
            &&& stream.subrange(4, 4 + length) == payload
            &&& stream.skip(4 + length) == behind
        }),
{
    let stream = framed(payload) + behind;
    little_endian_round_trips(payload.len() as u32);
    assert(stream.take(4) =~= little_endian(payload.len() as u32));
    assert(stream.subrange(4, 4 + payload.len() as int) =~= payload);
    assert(stream.skip(4 + payload.len() as int) =~= behind);
}

/// What a text field of a JSON object holds: the error when the bytes are no
/// JSON, `None` when there is no such field or it is no string.
pub uninterp spec fn json_text_field(bytes: Seq<u8>, key: Seq<char>) -> Result<
    Option<Seq<char>>,
    Seq<char>,
>;

/// The view of a looked-up text field.
pub open spec fn field_view(r: Result<Option<String>, String>) -> Result<
    Option<Seq<char>>,
    Seq<char>,
> {
    match r {
        Ok(Some(text)) => Ok(Some(text@)),
        Ok(None) => Ok(None),
        Err(m) => Err(m@),
    }
}

/// `serde_json::from_slice` into a `serde_json::Value`, and the string in one
/// of its fields. The result depends on the bytes and the field's name alone.
#[verifier::external_body]
fn look_up_text_field(bytes: &[u8], key: &str) -> (r: Result<Option<String>, String>)
    ensures
        field_view(r) == json_text_field(bytes@, key@),
{
    match serde_json::from_slice::<serde_json::Value>(bytes) {
        Ok(value) => Ok(value.get(key).and_then(serde_json::Value::as_str).map(str::to_owned)),
        Err(error) => Err(error.to_string()),
    }
}

/// The type that a message announces in its `type` field.
pub fn message_type(bytes: &[u8]) -> (r: Result<Option<String>, String>)
    ensures
        field_view(r) == json_text_field(bytes@, "type"@),
{
    look_up_text_field(bytes, "type")
}

} // verus!
