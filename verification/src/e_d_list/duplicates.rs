//! Entries that share their content: files with the same digest, links with
//! the same target.

use vstd::prelude::*;
use crate::shared::key_index::{lemma_positions_with, positions_with, KeyIndex};
use crate::shared::text::texts;
use super::e_d_element::{
    key_of_variant, variant_key, EDVariantFields, ElementView, VariantView,
};
use super::{element_views, EDList};

verus! {

/// The entries that share one content: what they share, and their paths in
/// the order of the list.
#[derive(Debug)]
pub struct DuplicateGroup {
    pub shared: EDVariantFields,
    pub paths: Vec<String>,
}

/// The mathematical value of `DuplicateGroup`.
pub struct GroupView {
    pub shared: VariantView,
    pub paths: Seq<Seq<char>>,
}

impl View for DuplicateGroup {
    type V = GroupView;

    open spec fn view(&self) -> GroupView {
        GroupView { shared: self.shared@, paths: texts(self.paths@) }
    }
}

/// The groups of a list as mathematical values.
pub open spec fn group_views(groups: Seq<DuplicateGroup>) -> Seq<GroupView> {
    Seq::new(groups.len(), |i: int| groups[i]@)
}

/// All duplicates of a list: the groups of links, then those of files.
#[derive(Debug)]
pub struct Duplicates {
    /// Links grouped by target.
    pub links: Vec<DuplicateGroup>,
    /// Files grouped by the digest of their content.
    pub files: Vec<DuplicateGroup>,
}

/// The paths of those among the first `n` entries that hold `shared`.
pub open spec fn members(entries: Seq<ElementView>, shared: VariantView, n: nat) -> Seq<Seq<char>>
    decreases n,
{
    if n == 0 {
        Seq::empty()
    } else if entries[n - 1].variant == shared {
        members(entries, shared, (n - 1) as nat).push(entries[n - 1].path)
    } else {
        members(entries, shared, (n - 1) as nat)
    }
}

/// Whether no entry before the one at `i` holds what it holds.
pub open spec fn is_first(entries: Seq<ElementView>, i: int) -> bool {
    forall|j: int| 0 <= j < i ==> (#[trigger] entries[j]).variant != entries[i].variant
}

/// The groups of more than one entry among links, or among files: one for
/// each content that the first `n` entries introduce, in the order in
/// which they introduce it, with all entries of the list that hold it.
pub open spec fn duplicate_groups(entries: Seq<ElementView>, links: bool, n: nat) -> Seq<GroupView>
    decreases n,
{
    if n == 0 {
        Seq::empty()
    } else {
        let before = duplicate_groups(entries, links, (n - 1) as nat);
        let e = entries[n - 1];
        let paths = members(entries, e.variant, entries.len());
        if (e.variant is Link) == links && is_first(entries, n - 1) && paths.len() > 1 {
            before.push(GroupView { shared: e.variant, paths })
        } else {
            before
        }
    }
}

/// The keys of what the entries hold.
pub open spec fn variant_keys(entries: Seq<ElementView>) -> Seq<u64> {
    Seq::new(entries.len(), |i: int| variant_key(entries[i].variant))
}

/// The paths of those among the entries at `positions` that hold `shared`.
pub open spec fn members_among(
    entries: Seq<ElementView>,
    shared: VariantView,
    positions: Seq<usize>,
) -> Seq<Seq<char>>
    decreases positions.len(),
{
    if positions.len() == 0 {
        Seq::empty()
    } else {
        let e = entries[positions.last() as int];
        if e.variant == shared {
            members_among(entries, shared, positions.drop_last()).push(e.path)
        } else {
            members_among(entries, shared, positions.drop_last())
        }
    }
}

/// The entries that hold `shared` are found among those that carry its
/// key.
proof fn lemma_members_among(entries: Seq<ElementView>, shared: VariantView, n: nat)
    requires
        n <= entries.len() <= usize::MAX,
    ensures
        members_among(
            entries,
            shared,
            positions_with(variant_keys(entries).take(n as int), variant_key(shared)),
        ) == members(entries, shared, n),
    decreases n,
{
    if n > 0 {
        lemma_members_among(entries, shared, (n - 1) as nat);
        let keys = variant_keys(entries).take(n as int);
        let before = positions_with(variant_keys(entries).take(n - 1), variant_key(shared));
        assert(keys.drop_last() =~= variant_keys(entries).take(n - 1));
        assert(keys.last() == variant_key(entries[n - 1].variant));
        if keys.last() == variant_key(shared) {
            let all = positions_with(keys, variant_key(shared));
            assert(all.drop_last() =~= before);
            assert(all.last() == (n - 1) as usize);
        }
    }
}

impl EDList {
    /// The positions of the entries, by the keys of what they hold.
    fn variant_index(&self) -> (r: KeyIndex)
        ensures
            r.wf(),
            r.keys() == variant_keys(self@.entries),
    {
        let ghost entries = self@.entries;
        let mut index = KeyIndex::new();
        let mut i: usize = 0;
        assert(variant_keys(entries.take(0)) =~= Seq::<u64>::empty());
        while i < self.element_list.len()
            invariant
                i <= self.element_list.len(),
                entries == element_views(self.element_list@),
                index.wf(),
                index.keys() == variant_keys(entries.take(i as int)),
            decreases self.element_list.len() - i,
        {
            let key = key_of_variant(self.element_list[i].get_variant());
            proof {
                assert(variant_keys(entries.take(i + 1)) =~= variant_keys(
                    entries.take(i as int),
                ).push(key));
            }
            index.push(key);
            i = i + 1;
        }
        assert(entries.take(i as int) =~= entries);
        index
    }

    /// Whether no entry before the one at `position` holds what it holds.
    fn introduces(&self, index: &KeyIndex, position: usize) -> (r: bool)
        requires
            position < self@.entries.len(),
            index.wf(),
            index.keys() == variant_keys(self@.entries),
        ensures
            r == is_first(self@.entries, position as int),
    {
        let ghost entries = self@.entries;
        let shared = self.element_list[position].get_variant();
        let key = key_of_variant(shared);
        let ghost positions = positions_with(variant_keys(entries), key);
        proof {
            assert(entries.len() == self.element_list.len());
            lemma_positions_with(variant_keys(entries), key);
        }
        match index.positions(key) {
            None => {
                proof {
                    assert(variant_keys(entries)[position as int] == key);
                    assert(positions.contains(position));
                }
                true
            },
            Some(bucket) => {
                let mut j: usize = 0;
                while j < bucket.len()
                    invariant
                        j <= bucket.len(),
                        bucket@ == positions,
                        position < self.element_list.len(),
                        entries == element_views(self.element_list@),
                        shared@ == entries[position as int].variant,
                        forall|k: int|
                            0 <= k < positions.len() ==> (#[trigger] positions[k]) < entries.len(),
                        forall|k: int|
                            0 <= k < j && (#[trigger] positions[k]) < position
                                ==> entries[positions[k] as int].variant != shared@,
                    decreases bucket.len() - j,
                {
                    let earlier = bucket[j];
                    assert(earlier == positions[j as int]);
                    if earlier < position && *self.element_list[earlier].get_variant()
                        == *shared {
                        assert(entries[earlier as int].variant == entries[position as int].variant);
                        return false;
                    }
                    j = j + 1;
                }
                proof {
                    assert forall|i: int| 0 <= i < position implies (#[trigger] entries[i]).variant
                        != entries[position as int].variant by {
                        if entries[i].variant == shared@ {
                            assert(variant_keys(entries)[i] == key);
                            assert(positions.contains(i as usize));
                            let k = choose|k: int|
                                0 <= k < positions.len() && positions[k] == i as usize;
                            assert(positions[k] < position);
                        }
                    }
                }
                true
            },
        }
    }

    /// The paths of all entries that hold `shared`.
    fn paths_holding(&self, index: &KeyIndex, shared: &EDVariantFields) -> (r: Vec<String>)
        requires
            index.wf(),
            index.keys() == variant_keys(self@.entries),
        ensures
            texts(r@) == members(self@.entries, shared@, self@.entries.len()),
    {
        let ghost entries = self@.entries;
        let key = key_of_variant(shared);
        let ghost positions = positions_with(variant_keys(entries), key);
        proof {
            assert(entries.len() == self.element_list.len());
            lemma_positions_with(variant_keys(entries), key);
            assert(variant_keys(entries).take(entries.len() as int) =~= variant_keys(entries));
            lemma_members_among(entries, shared@, entries.len());
        }
        let mut paths: Vec<String> = Vec::new();
        match index.positions(key) {
            None => {
                assert(texts(paths@) =~= members_among(entries, shared@, positions));
            },
            Some(bucket) => {
                let mut j: usize = 0;
                proof {
                    assert(positions.take(0) =~= Seq::<usize>::empty());
                    assert(texts(paths@) =~= Seq::<Seq<char>>::empty());
                }
                while j < bucket.len()
                    invariant
                        j <= bucket.len(),
                        bucket@ == positions,
                        entries == element_views(self.element_list@),
                        forall|k: int|
                            0 <= k < positions.len() ==> (#[trigger] positions[k]) < entries.len(),
                        texts(paths@) == members_among(
                            entries,
                            shared@,
                            positions.take(j as int),
                        ),
                    decreases bucket.len() - j,
                {
                    let position = bucket[j];
                    proof {
                        assert(position == positions[j as int]);
                        assert(positions.take(j + 1).drop_last() =~= positions.take(j as int));
                        assert(positions.take(j + 1).last() == position);
                    }
                    if *self.element_list[position].get_variant() == *shared {
                        let ghost before = texts(paths@);
                        paths.push(self.element_list[position].get_path().to_owned());
                        assert(texts(paths@) =~= before.push(entries[position as int].path));
                    }
                    j = j + 1;
                }
                assert(positions.take(j as int) =~= positions);
            },
        }
        paths
    }

    /// Finds the links that share their target with another link, and the
    /// files that share the digest of their content with another file.
    ///
    /// A target is compared as the link stores it: a relative link that was
    /// moved along with its target is no duplicate of it.
    pub fn find_duplicates(&self) -> (r: Duplicates)
        ensures
            group_views(r.links@) == duplicate_groups(self@.entries, true, self@.entries.len()),
            group_views(r.files@) == duplicate_groups(self@.entries, false, self@.entries.len()),
    {
        let ghost entries = self@.entries;
        let index = self.variant_index();
        let mut links: Vec<DuplicateGroup> = Vec::new();
        let mut files: Vec<DuplicateGroup> = Vec::new();
        let mut i: usize = 0;
        proof {
            assert(group_views(links@) =~= Seq::<GroupView>::empty());
            assert(group_views(files@) =~= Seq::<GroupView>::empty());
        }
        while i < self.element_list.len()
            invariant
                i <= self.element_list.len(),
                entries == self@.entries,
                entries == element_views(self.element_list@),
                index.wf(),
                index.keys() == variant_keys(entries),
                group_views(links@) == duplicate_groups(entries, true, i as nat),
                group_views(files@) == duplicate_groups(entries, false, i as nat),
            decreases self.element_list.len() - i,
        {
            let shared = self.element_list[i].get_variant();
            assert(shared@ == entries[i as int].variant);
            if self.introduces(&index, i) {
                let paths = self.paths_holding(&index, shared);
                if paths.len() > 1 {
                    let group = DuplicateGroup { shared: shared.clone(), paths };
                    if shared.is_link() {
                        let ghost before = group_views(links@);
                        links.push(group);
                        assert(group_views(links@) =~= before.push(group@));
                    } else {
                        let ghost before = group_views(files@);
                        files.push(group);
                        assert(group_views(files@) =~= before.push(group@));
                    }
                }
            }
            i = i + 1;
        }
        Duplicates { links, files }
    }
}

} // verus!
