//! Checks on pixel descriptors received from the compositor.

use vstd::prelude::*;
use vstd::string::*;

use crate::text::decimal_text;

verus! {

/// The byte that accompanies a descriptor.
pub const BLOB_MARKER: u8 = 0xfd;

/// The longest pixel payload.
pub const MAX_BLOB_BYTES: u64 = 301989888;

/// The seals that a shared memory file must carry: no further seals, no
/// shrinking, no growing, no writing.
pub const REQUIRED_SEALS: i32 = 15;

/// Why a payload length is refused.
pub open spec fn blob_length_problem(length: u64) -> Seq<char> {
    "blob length "@ + crate::text::decimal(length as nat) + " is outside 1..="@
        + crate::text::decimal(MAX_BLOB_BYTES as nat)
}

/// Bounds a payload length before anything is allocated.
pub fn validate_len(length: u64) -> (r: Result<(), String>)
    ensures
        match r {
            Ok(_) => 1 <= length <= MAX_BLOB_BYTES,
            Err(m) => !(1 <= length <= MAX_BLOB_BYTES) && m@ == blob_length_problem(length),
        },
{
    if length == 0 || length > MAX_BLOB_BYTES {
        let mut m = "blob length ".to_owned();
        m.append(decimal_text(length).as_str());
        m.append(" is outside 1..=");
        m.append(decimal_text(MAX_BLOB_BYTES).as_str());
        return Err(m);
    }
    Ok(())
}

/// A descriptor message is complete: one marker byte, nothing truncated, and
/// a descriptor.
pub fn descriptor_arrived(received: isize, marker: u8, truncated: bool, fd: i32) -> (r: Result<
    i32,
    String,
>)
    ensures
        match r {
            Ok(got) => received == 1 && marker == BLOB_MARKER && !truncated && fd >= 0 && got == fd,
            Err(m) => !(received == 1 && marker == BLOB_MARKER && !truncated && fd >= 0) && m@
                == "missing or truncated capture descriptor"@,
        },
{
    if received != 1 || marker != BLOB_MARKER || truncated || fd < 0 {
        return Err("missing or truncated capture descriptor".to_owned());
    }
    Ok(fd)
}

/// Why a received file is refused, if it is: it must be a regular file of the
/// expected length that carries every required seal.
pub open spec fn file_problem(
    expected_len: u64,
    is_file: bool,
    len: u64,
    seals: i32,
) -> Option<Seq<char>> {
    if !is_file || len != expected_len {
        Some(
            "capture memfd length/type mismatch (expected "@ + crate::text::decimal(
                expected_len as nat,
            ) + ", got "@ + crate::text::decimal(len as nat) + ")"@,
        )
    } else if seals < 0 || seals & REQUIRED_SEALS != REQUIRED_SEALS {
        Some("capture descriptor is not fully sealed"@)
    } else {
        None
    }
}

/// Checks a received shared memory file.
pub fn check_file(expected_len: u64, is_file: bool, len: u64, seals: i32) -> (r: Result<(), String>)
    ensures
        match r {
            Ok(_) => file_problem(expected_len, is_file, len, seals) is None,
            Err(m) => file_problem(expected_len, is_file, len, seals) == Some(m@),
        },
{
    if !is_file || len != expected_len {
        let mut m = "capture memfd length/type mismatch (expected ".to_owned();
        m.append(decimal_text(expected_len).as_str());
        m.append(", got ");
        m.append(decimal_text(len).as_str());
        m.append(")");
        return Err(m);
    }
    if seals < 0 || seals & REQUIRED_SEALS != REQUIRED_SEALS {
        return Err("capture descriptor is not fully sealed".to_owned());
    }
    Ok(())
}

} // verus!
