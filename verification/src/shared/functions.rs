//! Blake2b, as the `blake2` crate computes it.

use vstd::prelude::*;
use blake2::Blake2bVar;
use blake2::digest::{Update, VariableOutput};
use super::checksum::Checksum;
use super::constants::HASH_OUTPUT_LENGTH;
use super::hex_text::{encode_upper, hex_upper};

verus! {

/// A running Blake2b computation with an output of `HASH_OUTPUT_LENGTH`
/// bytes. The state of `blake2::Blake2bVar` is not visible to the verifier;
/// what is known of it is the byte string it has been fed, `absorbed`.
#[verifier::external_body]
pub struct Hasher {
    inner: Blake2bVar,
}

/// The Blake2b digest of `data`, `HASH_OUTPUT_LENGTH` bytes wide.
pub uninterp spec fn blake2b(data: Seq<u8>) -> Seq<u8>;

/// The bytes that a hasher has been fed, in order.
pub uninterp spec fn absorbed(hasher: Hasher) -> Seq<u8>;

impl Hasher {
    /// Calls `Blake2bVar::new` with `HASH_OUTPUT_LENGTH`, a width that it
    /// accepts; the new hasher has been fed nothing.
    #[verifier::external_body]
    fn with_output_length() -> (hasher: Hasher)
        ensures
            absorbed(hasher) == Seq::<u8>::empty(),
    {
        Hasher { inner: Blake2bVar::new(HASH_OUTPUT_LENGTH).unwrap() }
    }

    /// Calls `Update::update`: `data` is appended to what the hasher has been
    /// fed.
    #[verifier::external_body]
    fn absorb(&mut self, data: &[u8])
        ensures
            absorbed(*final(self)) == absorbed(*old(self)) + data@,
    {
        self.inner.update(data);
    }

    /// A hasher that has been fed nothing.
    pub fn new() -> (hasher: Hasher)
        ensures
            absorbed(hasher) == Seq::<u8>::empty(),
    {
        Hasher::with_output_length()
    }

    /// Feeds `data` to the hasher. Feeding a text in pieces is feeding it
    /// whole.
    pub fn update(&mut self, data: &[u8])
        ensures
            absorbed(*final(self)) == absorbed(*old(self)) + data@,
    {
        self.absorb(data);
    }
}

impl Hasher {
    /// Calls `VariableOutput::finalize_variable` on the bytes of `out`, a
    /// buffer of the width the hasher was made with: `out` becomes the
    /// Blake2b digest of everything the hasher was fed.
    #[verifier::external_body]
    fn finalize_variable(self, out: &mut [u8; HASH_OUTPUT_LENGTH])
        ensures
            final(out)@ == blake2b(absorbed(self)),
    {
        self.inner.finalize_variable(out).unwrap();
    }
}

/// Converts a hasher into the digest of what it was fed.
pub fn blake2_to_checksum(hasher: Hasher) -> (r: Checksum)
    ensures
        r@ == blake2b(absorbed(hasher)),
{
    let mut element_hash = [0u8; HASH_OUTPUT_LENGTH];
    hasher.finalize_variable(&mut element_hash);
    Checksum::from_bytes(element_hash)
}

/// Converts a hasher into the digest of what it was fed, in upper-case
/// hexadecimal text.
pub fn blake2_to_string(hasher: Hasher) -> (r: String)
    ensures
        r@ == hex_upper(blake2b(absorbed(hasher))),
{
    let digest = blake2_to_checksum(hasher);
    encode_upper(digest.as_ref().as_slice())
}

} // verus!
