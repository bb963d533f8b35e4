//! Randomness from the operating system.

use vstd::prelude::*;
use vstd::string::*;

use crate::text::hex_bytes_text;

verus! {

/// `rand::rngs::OsRng` filling a buffer: as many bytes as were asked for, or
/// none when the operating system has none to give. Nothing is said of what
/// the bytes are.
#[verifier::external_body]
fn os_random(count: usize) -> (bytes: Option<Vec<u8>>)
    ensures
        bytes matches Some(bytes) ==> bytes@.len() == count,
{
    let mut bytes = vec![0u8; count];
    match rand::RngCore::try_fill_bytes(&mut rand::rngs::OsRng, &mut bytes) {
        Ok(()) => Some(bytes),
        Err(_) => None,
    }
}

/// The operating system answers so when it is asked for this many random
/// bytes.
pub closed spec fn drawn(count: usize, random: Option<Vec<u8>>) -> bool {
    call_ensures(os_random, (count,), random)
}

/// Asks the operating system for random bytes.
pub(crate) fn draw(count: usize) -> (random: Option<Vec<u8>>)
    ensures
        drawn(count, random),
        random matches Some(bytes) ==> bytes@.len() == count,
{
    os_random(count)
}

/// An unguessable token: sixteen random bytes in lower-case hexadecimal.
pub fn random_token() -> (token: Result<String, String>)
    ensures
        exists|random: Option<Vec<u8>>| #[trigger]
            drawn(16, random) && match random {
                Some(bytes) => bytes@.len() == 16 && token is Ok && token->Ok_0@
                    == crate::text::hex_bytes(bytes@),
                None => token is Err && token->Err_0@ == "no random bytes are available"@,
            },
{
    match draw(16) {
        Some(bytes) => Ok(hex_bytes_text(bytes.as_slice())),
        None => Err("no random bytes are available".to_owned()),
    }
}

/// A token made of sixteen bytes has thirty-two lower-case hexadecimal
/// digits, and different bytes make different tokens.
pub proof fn tokens_tell_bytes_apart(a: Seq<u8>, b: Seq<u8>)
    requires
        a.len() == 16,
        b.len() == 16,
    ensures
        crate::text::hex_bytes(a).len() == 32,
        crate::text::hex_bytes(a) == crate::text::hex_bytes(b) ==> a == b,
{
    crate::text::hex_bytes_shape(a);
    crate::text::hex_bytes_shape(b);
    if crate::text::hex_bytes(a) == crate::text::hex_bytes(b) {
        assert forall|i: int| 0 <= i < 16 implies a[i] == b[i] by {
            let high = (a[i] / 16) as nat;
            let low = (a[i] % 16) as nat;
            assert(crate::text::hex_bytes(a)[2 * i] == crate::text::lower_hex_digit(high));
            assert(crate::text::hex_bytes(b)[2 * i] == crate::text::lower_hex_digit(
                (b[i] / 16) as nat,
            ));
            assert(crate::text::hex_bytes(a)[2 * i + 1] == crate::text::lower_hex_digit(low));
            assert(crate::text::hex_bytes(b)[2 * i + 1] == crate::text::lower_hex_digit(
                (b[i] % 16) as nat,
            ));
        }
        assert(a =~= b);
    }
}

} // verus!
