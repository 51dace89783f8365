//! An index from 64-bit keys to the positions that carry them.
//!
//! It stands in for a map keyed by texts or by digests: a key is computed
//! from such a value, and the few positions that share a key are compared
//! by the value itself.

use std::collections::HashMap;
use vstd::prelude::*;
use vstd::std_specs::hash::group_hash_axioms;

verus! {

broadcast use group_hash_axioms;

/// A key for a text: the same text has the same key.
pub open spec fn text_key(text: Seq<char>) -> u64
    decreases text.len(),
{
    if text.len() == 0 {
        0xcbf2_9ce4_8422_2325
    } else {
        (text_key(text.drop_last()) ^ (text.last() as u64)).wrapping_mul(0x100_0000_01b3)
    }
}

/// The key of a text.
pub fn key_of_text(text: &str) -> (r: u64)
    ensures
        r == text_key(text@),
{
    let mut key: u64 = 0xcbf2_9ce4_8422_2325;
    assert(text@.subrange(0, 0) =~= Seq::<char>::empty());
    for c in it: text.chars()
        invariant
            it.seq() == text@,
            key == text_key(text@.subrange(0, it.index() as int)),
    {
        proof {
            let next = text@.subrange(0, it.index() + 1);
            assert(next.drop_last() =~= text@.subrange(0, it.index() as int));
            assert(next.last() == c);
        }
        key = (key ^ (c as u64)).wrapping_mul(0x100_0000_01b3);
    }
    assert(text@.subrange(0, text@.len() as int) =~= text@);
    key
}

/// The positions that carry `key`, in rising order.
pub open spec fn positions_with(keys: Seq<u64>, key: u64) -> Seq<usize>
    decreases keys.len(),
{
    if keys.len() == 0 {
        Seq::empty()
    } else if keys.last() == key {
        positions_with(keys.drop_last(), key).push((keys.len() - 1) as usize)
    } else {
        positions_with(keys.drop_last(), key)
    }
}

/// `positions_with` lists the positions that carry the key, all of them
/// and no others.
pub proof fn lemma_positions_with(keys: Seq<u64>, key: u64)
    requires
        keys.len() <= usize::MAX,
    ensures
        forall|k: int|
            0 <= k < positions_with(keys, key).len() ==> (#[trigger] positions_with(keys, key)[k])
                < keys.len() && keys[positions_with(keys, key)[k] as int] == key,
        forall|i: int|
            0 <= i < keys.len() && #[trigger] keys[i] == key ==> positions_with(
                keys,
                key,
            ).contains(i as usize),
    decreases keys.len(),
{
    if keys.len() > 0 {
        let init = keys.drop_last();
        lemma_positions_with(init, key);
        let all = positions_with(keys, key);
        let before = positions_with(init, key);
        assert forall|k: int| 0 <= k < all.len() implies (#[trigger] all[k]) < keys.len()
            && keys[all[k] as int] == key by {
            if k < before.len() {
                assert(all[k] == before[k]);
                assert(keys[before[k] as int] == init[before[k] as int]);
            }
        }
        assert forall|i: int| 0 <= i < keys.len() && #[trigger] keys[i] == key implies all.contains(
            i as usize,
        ) by {
            if i < init.len() {
                assert(init[i] == key);
                assert(before.contains(i as usize));
                let k = choose|k: int| 0 <= k < before.len() && before[k] == i as usize;
                assert(all[k] == i as usize);
            } else {
                assert(all[all.len() - 1] == i as usize);
            }
        }
    }
}

/// `positions_with` lists the positions in rising order.
pub proof fn lemma_positions_rise(keys: Seq<u64>, key: u64)
    requires
        keys.len() <= usize::MAX,
    ensures
        forall|a: int, b: int|
            0 <= a < b < positions_with(keys, key).len() ==> (#[trigger] positions_with(
                keys,
                key,
            )[a]) < (#[trigger] positions_with(keys, key)[b]),
    decreases keys.len(),
{
    if keys.len() > 0 {
        let init = keys.drop_last();
        lemma_positions_rise(init, key);
        lemma_positions_with(init, key);
        let all = positions_with(keys, key);
        let before = positions_with(init, key);
        assert forall|a: int, b: int| 0 <= a < b < all.len() implies (#[trigger] all[a]) < (
        #[trigger] all[b]) by {
            if b < before.len() {
                assert(all[a] == before[a] && all[b] == before[b]);
            } else {
                assert(all[a] == before[a]);
                assert(before[a] < init.len());
            }
        }
    }
}

/// The positions of a list, by the keys they carry.
pub struct KeyIndex {
    buckets: HashMap<u64, Vec<usize>>,
    keys: Ghost<Seq<u64>>,
    len: usize,
}

impl KeyIndex {
    /// The keys of the positions, in their order.
    pub closed spec fn keys(&self) -> Seq<u64> {
        self.keys@
    }

    /// Each bucket holds the positions that carry its key.
    pub closed spec fn wf(&self) -> bool {
        &&& self.len == self.keys@.len()
        &&& forall|key: u64| #[trigger]
            self.buckets@.contains_key(key) ==> self.buckets@[key]@ == positions_with(
                self.keys@,
                key,
            )
        &&& forall|key: u64|
            !self.buckets@.contains_key(key) ==> (#[trigger] positions_with(self.keys@, key)).len()
                == 0
    }

    /// An index of no positions.
    pub fn new() -> (r: KeyIndex)
        ensures
            r.wf(),
            r.keys() == Seq::<u64>::empty(),
    {
        KeyIndex { buckets: HashMap::new(), keys: Ghost(Seq::empty()), len: 0 }
    }

    /// Gives the next position the key `key`.
    pub fn push(&mut self, key: u64)
        requires
            old(self).wf(),
            old(self).keys().len() < usize::MAX,
        ensures
            final(self).wf(),
            final(self).keys() == old(self).keys().push(key),
    {
        let ghost before = self.keys@;
        let ghost after = before.push(key);
        let mut bucket = match self.buckets.remove(&key) {
            Some(bucket) => bucket,
            None => Vec::new(),
        };
        proof {
            if old(self).buckets@.contains_key(key) {
                assert(bucket@ == positions_with(before, key));
            } else {
                assert(positions_with(before, key).len() == 0);
                assert(bucket@ =~= positions_with(before, key));
            }
            assert(after.drop_last() =~= before);
        }
        bucket.push(self.len);
        self.buckets.insert(key, bucket);
        self.len = self.len + 1;
        self.keys = Ghost(after);
        proof {
            assert forall|other: u64| #[trigger]
                self.buckets@.contains_key(other) implies self.buckets@[other]@ == positions_with(
                after,
                other,
            ) by {
                if other != key {
                    assert(old(self).buckets@.contains_key(other));
                    assert(self.buckets@[other] == old(self).buckets@[other]);
                }
            }
            assert forall|other: u64| !self.buckets@.contains_key(other) implies (
            #[trigger] positions_with(after, other)).len() == 0 by {
                assert(!old(self).buckets@.contains_key(other));
                assert(positions_with(before, other).len() == 0);
            }
        }
    }

    /// The positions that carry `key`, in rising order; none where no
    /// position carries it.
    pub fn positions(&self, key: u64) -> (r: Option<&Vec<usize>>)
        requires
            self.wf(),
        ensures
            match r {
                Some(bucket) => bucket@ == positions_with(self.keys(), key),
                None => positions_with(self.keys(), key).len() == 0,
            },
    {
        self.buckets.get(&key)
    }
}

} // verus!
