//! The fixed-width digest value and its XOR.

use vstd::prelude::*;
use super::constants::HASH_OUTPUT_LENGTH;

verus! {

/// Byte-wise XOR of two byte strings, as long as the first.
pub open spec fn xor_bytes(a: Seq<u8>, b: Seq<u8>) -> Seq<u8> {
    Seq::new(a.len(), |i: int| a[i] ^ b[i])
}

/// The all-zero digest.
pub open spec fn zero_digest() -> Seq<u8> {
    Seq::new(HASH_OUTPUT_LENGTH as nat, |i: int| 0u8)
}

/// A digest of `HASH_OUTPUT_LENGTH` bytes.
#[derive(Debug, Clone, Copy, Hash)]
pub struct Checksum {
    checksum: [u8; HASH_OUTPUT_LENGTH],
}

impl View for Checksum {
    type V = Seq<u8>;

    closed spec fn view(&self) -> Seq<u8> {
        self.checksum@
    }
}

impl Checksum {
    /// Every digest has the fixed width.
    pub proof fn lemma_len(self)
        ensures
            self@.len() == HASH_OUTPUT_LENGTH,
    {
    }

    /// The digest that holds the given bytes.
    pub fn from_bytes(bytes: [u8; HASH_OUTPUT_LENGTH]) -> (r: Checksum)
        ensures
            r@ == bytes@,
    {
        Checksum { checksum: bytes }
    }

    /// The bytes of the digest.
    pub fn as_ref(&self) -> (r: &[u8; HASH_OUTPUT_LENGTH])
        ensures
            r@ == self@,
    {
        &self.checksum
    }
}

impl Default for Checksum {
    fn default() -> (r: Checksum)
        ensures
            r@ == zero_digest(),
    {
        let r = Checksum { checksum: [0u8; HASH_OUTPUT_LENGTH] };
        assert(r@ =~= zero_digest());
        r
    }
}

impl std::ops::BitXorAssign<&Checksum> for Checksum {
    fn bitxor_assign(&mut self, other: &Checksum)
        ensures
            final(self)@ == xor_bytes(old(self)@, other@),
    {
        let mut i: usize = 0;
        while i < HASH_OUTPUT_LENGTH
            invariant
                i <= HASH_OUTPUT_LENGTH,
                forall|j: int| 0 <= j < i ==> self.checksum@[j] == old(self).checksum@[j] ^ other.checksum@[j],
                forall|j: int| i <= j < HASH_OUTPUT_LENGTH ==> self.checksum@[j] == old(self).checksum@[j],
            decreases HASH_OUTPUT_LENGTH - i,
        {
            let x: u8 = self.checksum[i] ^ other.checksum[i];
            self.checksum[i] = x;
            i = i + 1;
        }
        assert(self@ =~= xor_bytes(old(self)@, other@));
    }
}

impl PartialEq for Checksum {
    fn eq(&self, other: &Checksum) -> (r: bool)
    {
        let mut i: usize = 0;
        while i < HASH_OUTPUT_LENGTH
            invariant
                i <= HASH_OUTPUT_LENGTH,
                forall|j: int| 0 <= j < i ==> self.checksum@[j] == other.checksum@[j],
            decreases HASH_OUTPUT_LENGTH - i,
        {
            if self.checksum[i] != other.checksum[i] {
                return false;
            }
            i = i + 1;
        }
        assert(self@ =~= other@);
        true
    }
}

impl vstd::std_specs::cmp::PartialEqSpecImpl for Checksum {
    open spec fn obeys_eq_spec() -> bool {
        true
    }

    open spec fn eq_spec(&self, other: &Checksum) -> bool {
        self@ == other@
    }
}

impl Eq for Checksum {}

} // verus!
