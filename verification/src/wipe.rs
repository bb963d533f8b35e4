//! Wiping secrets from memory.

use vstd::prelude::*;
use vstd::string::*;

verus! {

/// `zeroize::Zeroize::zeroize` on a byte vector: overwrites the whole
/// allocation with zeros and leaves the vector empty.
#[verifier::external_body]
pub(crate) fn wipe_bytes(bytes: &mut Vec<u8>)
    ensures
        final(bytes)@ == Seq::<u8>::empty(),
{
    zeroize::Zeroize::zeroize(bytes)
}

/// `zeroize::Zeroize::zeroize` on a string: overwrites the whole allocation
/// with zeros and leaves the string empty.
#[verifier::external_body]
pub(crate) fn wipe_text(text: &mut String)
    ensures
        final(text)@ == Seq::<char>::empty(),
{
    zeroize::Zeroize::zeroize(text)
}

/// `zeroize::Zeroize::zeroize` on a vector of characters: overwrites the whole
/// allocation with zeros and leaves the vector empty.
#[verifier::external_body]
pub(crate) fn wipe_chars(chars: &mut Vec<char>)
    ensures
        final(chars)@ == Seq::<char>::empty(),
{
    zeroize::Zeroize::zeroize(chars)
}

} // verus!
