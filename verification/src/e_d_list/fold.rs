//! The XOR fold of a list of entries and the bytes under its final checksum.

use vstd::prelude::*;
use crate::shared::checksum::{xor_bytes, zero_digest};
use crate::shared::functions::blake2b;
use super::e_d_element::{element_digest, ElementView};

verus! {

/// The XOR of the digests of all entries.
pub open spec fn xor_fold(entries: Seq<ElementView>) -> Seq<u8>
    decreases entries.len(),
{
    if entries.len() == 0 {
        zero_digest()
    } else {
        xor_bytes(xor_fold(entries.drop_last()), element_digest(entries.last()))
    }
}

/// The digests of all entries in their order, one after another.
pub open spec fn digest_bytes(entries: Seq<ElementView>) -> Seq<u8>
    decreases entries.len(),
{
    if entries.len() == 0 {
        Seq::empty()
    } else {
        digest_bytes(entries.drop_last()) + element_digest(entries.last())
    }
}

/// The final checksum of a manifest: Blake2b over the digests of its
/// entries in their order, followed by the XOR fold it states.
pub open spec fn final_checksum(entries: Seq<ElementView>, xor_checksum: Seq<u8>) -> Seq<u8> {
    blake2b(digest_bytes(entries) + xor_checksum)
}

/// XOR with the same bytes twice changes nothing.
pub proof fn lemma_xor_cancels(a: Seq<u8>, b: Seq<u8>)
    ensures
        xor_bytes(xor_bytes(a, b), b) == a,
{
    assert forall|i: int| 0 <= i < a.len() implies xor_bytes(xor_bytes(a, b), b)[i] == a[i] by {
        let x = a[i];
        let y = b[i];
        assert((x ^ y) ^ y == x) by (bit_vector);
    }
    assert(xor_bytes(xor_bytes(a, b), b) =~= a);
}

/// The order of two XORs does not matter.
pub proof fn lemma_xor_swaps(a: Seq<u8>, b: Seq<u8>, c: Seq<u8>)
    ensures
        xor_bytes(xor_bytes(a, b), c) == xor_bytes(xor_bytes(a, c), b),
{
    assert forall|i: int| 0 <= i < a.len() implies xor_bytes(xor_bytes(a, b), c)[i] == xor_bytes(
        xor_bytes(a, c),
        b,
    )[i] by {
        let x = a[i];
        let y = b[i];
        let z = c[i];
        assert((x ^ y) ^ z == (x ^ z) ^ y) by (bit_vector);
    }
    assert(xor_bytes(xor_bytes(a, b), c) =~= xor_bytes(xor_bytes(a, c), b));
}

/// The fold has the width of a digest.
pub proof fn lemma_xor_fold_len(entries: Seq<ElementView>)
    ensures
        xor_fold(entries).len() == zero_digest().len(),
    decreases entries.len(),
{
    if entries.len() > 0 {
        lemma_xor_fold_len(entries.drop_last());
    }
}

/// Taking an entry out of a list takes its digest out of the fold.
pub proof fn lemma_xor_fold_remove(entries: Seq<ElementView>, i: int)
    requires
        0 <= i < entries.len(),
    ensures
        xor_fold(entries.remove(i)) == xor_bytes(xor_fold(entries), element_digest(entries[i])),
    decreases entries.len(),
{
    let init = entries.drop_last();
    let last = element_digest(entries.last());
    if i == entries.len() - 1 {
        assert(entries.remove(i) =~= init);
        lemma_xor_cancels(xor_fold(init), last);
    } else {
        lemma_xor_fold_remove(init, i);
        assert(entries.remove(i).drop_last() =~= init.remove(i));
        assert(entries.remove(i).last() == entries.last());
        lemma_xor_swaps(xor_fold(init), element_digest(entries[i]), last);
    }
}

/// Putting an entry into a list at any place puts its digest into the fold.
pub proof fn lemma_xor_fold_insert(entries: Seq<ElementView>, i: int, e: ElementView)
    requires
        0 <= i <= entries.len(),
    ensures
        xor_fold(entries.insert(i, e)) == xor_bytes(xor_fold(entries), element_digest(e)),
{
    let with = entries.insert(i, e);
    lemma_xor_fold_remove(with, i);
    assert(with.remove(i) =~= entries);
    lemma_xor_cancels(xor_fold(with), element_digest(e));
}

/// The fold does not depend on the order of the entries.
pub proof fn lemma_xor_fold_permutation(a: Seq<ElementView>, b: Seq<ElementView>)
    requires
        a.to_multiset() == b.to_multiset(),
    ensures
        xor_fold(a) == xor_fold(b),
    decreases a.len(),
{
    a.to_multiset_ensures();
    b.to_multiset_ensures();
    if a.len() == 0 {
        assert(b.len() == 0);
        assert(a =~= b);
    } else {
        let e = a.last();
        assert(a.contains(e)) by {
            assert(a[a.len() - 1] == e);
        }
        assert(a.to_multiset().count(e) > 0);
        assert(b.to_multiset().count(e) > 0);
        assert(b.contains(e));
        let j = choose|j: int| 0 <= j < b.len() && b[j] == e;
        vstd::seq_lib::to_multiset_remove(a, a.len() - 1);
        assert(a.remove(a.len() - 1) =~= a.drop_last());
        vstd::seq_lib::to_multiset_remove(b, j);
        lemma_xor_fold_permutation(a.drop_last(), b.remove(j));
        lemma_xor_fold_remove(b, j);
        lemma_xor_cancels(xor_fold(b), element_digest(e));
    }
}

} // verus!
