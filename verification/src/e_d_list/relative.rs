//! Digests over the entries below a path prefix, with the prefix left out,
//! so that the same subtree gives the same digest wherever it lies; and
//! over the entries that are not below it.

use vstd::prelude::*;
use crate::shared::checksum::Checksum;
use crate::shared::functions::{absorbed, blake2_to_checksum, blake2b, Hasher};
use crate::shared::interfacer::SlashEnding;
use crate::shared::text::prefix_split;
use super::e_d_element::{digest_input, hash_fields, ElementView};
use super::{element_views, EDList};

verus! {

/// Whether an entry lies below a path prefix.
pub open spec fn under(prefix: Seq<char>, e: ElementView) -> bool {
    prefix.is_prefix_of(e.path)
}

/// Whether any of the entries lies below the prefix.
pub open spec fn any_under(entries: Seq<ElementView>, prefix: Seq<char>) -> bool {
    exists|i: int| 0 <= i < entries.len() && under(prefix, #[trigger] entries[i])
}

/// The bytes under the relative checksum: for each entry below the prefix,
/// in the order of the list, its path without the prefix, its modification
/// time and its variant, as they enter the digest of an entry.
pub open spec fn relative_bytes(entries: Seq<ElementView>, prefix: Seq<char>) -> Seq<u8>
    decreases entries.len(),
{
    if entries.len() == 0 {
        Seq::empty()
    } else {
        let e = entries.last();
        if under(prefix, e) {
            relative_bytes(entries.drop_last(), prefix) + digest_input(
                e.path.skip(prefix.len() as int),
                e.modified_time,
                e.variant,
            )
        } else {
            relative_bytes(entries.drop_last(), prefix)
        }
    }
}

/// The bytes under the negated checksum: for each entry that is not below
/// the prefix, in the order of the list, its whole path, its modification
/// time and its variant.
pub open spec fn negated_bytes(entries: Seq<ElementView>, prefix: Seq<char>) -> Seq<u8>
    decreases entries.len(),
{
    if entries.len() == 0 {
        Seq::empty()
    } else {
        let e = entries.last();
        if under(prefix, e) {
            negated_bytes(entries.drop_last(), prefix)
        } else {
            negated_bytes(entries.drop_last(), prefix) + digest_input(
                e.path,
                e.modified_time,
                e.variant,
            )
        }
    }
}

/// The relative checksum of the entries below a prefix.
pub open spec fn relative_checksum_of(entries: Seq<ElementView>, prefix: Seq<char>) -> Seq<u8> {
    blake2b(relative_bytes(entries, prefix))
}

/// The checksum of the entries that are not below a prefix.
pub open spec fn negated_checksum_of(entries: Seq<ElementView>, prefix: Seq<char>) -> Seq<u8> {
    blake2b(negated_bytes(entries, prefix))
}

/// The bytes of two lists, one after the other.
pub proof fn lemma_relative_bytes_concat(a: Seq<ElementView>, b: Seq<ElementView>, prefix: Seq<char>)
    ensures
        relative_bytes(a + b, prefix) == relative_bytes(a, prefix) + relative_bytes(b, prefix),
        negated_bytes(a + b, prefix) == negated_bytes(a, prefix) + negated_bytes(b, prefix),
    decreases b.len(),
{
    if b.len() == 0 {
        assert(a + b =~= a);
        assert(relative_bytes(a, prefix) + relative_bytes(b, prefix) =~= relative_bytes(
            a,
            prefix,
        ));
        assert(negated_bytes(a, prefix) + negated_bytes(b, prefix) =~= negated_bytes(a, prefix));
    } else {
        assert((a + b).drop_last() =~= a + b.drop_last());
        assert((a + b).last() == b.last());
        lemma_relative_bytes_concat(a, b.drop_last(), prefix);
        let e = b.last();
        let init_r = relative_bytes(b.drop_last(), prefix);
        let init_n = negated_bytes(b.drop_last(), prefix);
        if under(prefix, e) {
            let bytes = digest_input(e.path.skip(prefix.len() as int), e.modified_time, e.variant);
            assert((relative_bytes(a, prefix) + init_r) + bytes =~= relative_bytes(a, prefix) + (
            init_r + bytes));
        } else {
            let bytes = digest_input(e.path, e.modified_time, e.variant);
            assert((negated_bytes(a, prefix) + init_n) + bytes =~= negated_bytes(a, prefix) + (
            init_n + bytes));
        }
    }
}

impl EDList {
    /// The digest over the entries whose path starts with `relative_path`,
    /// each without that prefix. Where no entry does, there is none, unless
    /// `no_elements_allowed` asks for the digest of nothing.
    pub fn internal_relative_checksum(&self, relative_path: &str, no_elements_allowed: bool) -> (r:
        Option<Checksum>)
        ensures
            match r {
                Some(checksum) => checksum@ == relative_checksum_of(self@.entries, relative_path@)
                    && (no_elements_allowed || any_under(self@.entries, relative_path@)),
                None => !no_elements_allowed && !any_under(self@.entries, relative_path@),
            },
    {
        let mut hasher = Hasher::new();
        let mut elements_found = false;
        let ghost entries = self@.entries;
        let mut i: usize = 0;
        assert(entries.take(0) =~= Seq::<ElementView>::empty());
        while i < self.element_list.len()
            invariant
                i <= self.element_list.len(),
                entries == element_views(self.element_list@),
                absorbed(hasher) == relative_bytes(entries.take(i as int), relative_path@),
                elements_found == any_under(entries.take(i as int), relative_path@),
            decreases self.element_list.len() - i,
        {
            let ghost seen = entries.take(i as int);
            let ghost next = entries.take(i + 1);
            proof {
                assert(next.drop_last() =~= seen);
                assert(next.last() == self.element_list@[i as int]@);
                if any_under(seen, relative_path@) {
                    let k = choose|k: int|
                        0 <= k < seen.len() && under(relative_path@, #[trigger] seen[k]);
                    assert(next[k] == seen[k]);
                }
            }
            let e_d_element = &self.element_list[i];
            match prefix_split(relative_path, e_d_element.get_path()) {
                Some(postfix) => {
                    elements_found = true;
                    hash_fields(
                        &mut hasher,
                        postfix,
                        e_d_element.get_modified_time(),
                        e_d_element.get_variant(),
                    );
                    assert(under(relative_path@, next[i as int]));
                },
                None => {
                    proof {
                        if any_under(next, relative_path@) {
                            let k = choose|k: int|
                                0 <= k < next.len() && under(relative_path@, #[trigger] next[k]);
                            assert(seen[k] == next[k]);
                        }
                    }
                },
            }
            i = i + 1;
        }
        assert(entries.take(i as int) =~= entries);
        if elements_found || no_elements_allowed {
            Some(blake2_to_checksum(hasher))
        } else {
            None
        }
    }

    /// The digest over the entries whose path does not start with
    /// `relative_path`.
    pub fn internal_negated_relative_checksum(&self, relative_path: &str) -> (r: Checksum)
        ensures
            r@ == negated_checksum_of(self@.entries, relative_path@),
    {
        let mut hasher = Hasher::new();
        let ghost entries = self@.entries;
        let mut i: usize = 0;
        assert(entries.take(0) =~= Seq::<ElementView>::empty());
        while i < self.element_list.len()
            invariant
                i <= self.element_list.len(),
                entries == element_views(self.element_list@),
                absorbed(hasher) == negated_bytes(entries.take(i as int), relative_path@),
            decreases self.element_list.len() - i,
        {
            proof {
                assert(entries.take(i + 1).drop_last() =~= entries.take(i as int));
                assert(entries.take(i + 1).last() == self.element_list@[i as int]@);
            }
            let e_d_element = &self.element_list[i];
            if prefix_split(relative_path, e_d_element.get_path()).is_none() {
                hash_fields(
                    &mut hasher,
                    e_d_element.get_path(),
                    e_d_element.get_modified_time(),
                    e_d_element.get_variant(),
                );
            }
            i = i + 1;
        }
        assert(entries.take(i as int) =~= entries);
        blake2_to_checksum(hasher)
    }

    /// The relative checksum below `relative_path`, a prefix that ends in
    /// `/`; there is none where no entry lies below it.
    pub fn relative_checksum(&self, relative_path: &SlashEnding) -> (r: Option<Checksum>)
        ensures
            match r {
                Some(checksum) => checksum@ == relative_checksum_of(
                    self@.entries,
                    relative_path.path@,
                ) && any_under(self@.entries, relative_path.path@),
                None => !any_under(self@.entries, relative_path.path@),
            },
    {
        self.internal_relative_checksum(relative_path.path.as_str(), false)
    }
}

} // verus!
