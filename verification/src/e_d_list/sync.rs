//! Planning the synchronisation of a subtree: the entries below a prefix of
//! another manifest are to appear below a prefix of this one.
//!
//! An entry of the target that already is what a source entry asks for stays.
//! One that has the content but another path is renamed, by way of a staging
//! area so that no rename can overwrite what another still needs. What the
//! target lacks is copied from the source, and what the source lacks is
//! deleted. The plan is made on the list alone: nothing on disk is touched.

use std::ops::BitXorAssign;
use vstd::prelude::*;
use vstd::string::StringExecFns;
use itertools::{Either, Itertools};
use crate::shared::checksum::{Checksum};
use crate::shared::constants::TMPCOPYDIR;
use crate::shared::key_index::{
    lemma_positions_rise, lemma_positions_with, positions_with, KeyIndex,
};
use crate::shared::text::{prefix_split, same_text};
use super::e_d_element::{key_of_variant, variant_key, EDElement, ElementView};
use super::errors::SyncFromError;
use super::fold::{lemma_xor_fold_insert, lemma_xor_fold_remove, xor_fold};
use super::relative::{
    lemma_relative_bytes_concat, negated_bytes, negated_checksum_of, relative_bytes,
    relative_checksum_of, under,
};
use super::{element_views, EDList};

verus! {

/// `itertools::Either`, with its two variants.
#[verifier::external_type_specification]
#[verifier::reject_recursive_types(L)]
#[verifier::reject_recursive_types(R)]
pub struct ExEither<L, R>(Either<L, R>);

/// A step of a plan. The file system is not touched before the operator
/// has seen the whole plan.
#[derive(Debug)]
pub enum FileOperation {
    /// Move what is at the path into the backup folder.
    Delete(String),
    Move { from: String, to: String },
    Copy { from: String, to: String },
}

/// The mathematical value of `FileOperation`.
pub enum OperationView {
    Delete(Seq<char>),
    Move { from: Seq<char>, to: Seq<char> },
    Copy { from: Seq<char>, to: Seq<char> },
}

impl View for FileOperation {
    type V = OperationView;

    open spec fn view(&self) -> OperationView {
        match self {
            FileOperation::Delete(path) => OperationView::Delete(path@),
            FileOperation::Move { from, to } => OperationView::Move { from: from@, to: to@ },
            FileOperation::Copy { from, to } => OperationView::Copy { from: from@, to: to@ },
        }
    }
}

/// The operations of a list as mathematical values.
pub open spec fn operation_views(operations: Seq<FileOperation>) -> Seq<OperationView> {
    Seq::new(operations.len(), |i: int| operations[i]@)
}

/// What a synchronisation asks of the file system: first the operations
/// that make room, then, once they are done, those that fill it.
#[derive(Debug)]
pub struct SyncPlan {
    /// Renames into the staging area, then the deletions.
    pub pre_file_operations: Vec<FileOperation>,
    /// Renames out of the staging area, and copies from the source.
    pub post_file_operations: Vec<FileOperation>,
    /// Whether anything goes through the staging area.
    pub files_moved: bool,
}

/// The entries that are not below the prefix, in their order.
pub open spec fn kept_part(entries: Seq<ElementView>, prefix: Seq<char>) -> Seq<ElementView>
    decreases entries.len(),
{
    if entries.len() == 0 {
        Seq::empty()
    } else if under(prefix, entries.last()) {
        kept_part(entries.drop_last(), prefix)
    } else {
        kept_part(entries.drop_last(), prefix).push(entries.last())
    }
}

/// The entries below the prefix, in their order.
pub open spec fn under_part(entries: Seq<ElementView>, prefix: Seq<char>) -> Seq<ElementView>
    decreases entries.len(),
{
    if entries.len() == 0 {
        Seq::empty()
    } else if under(prefix, entries.last()) {
        under_part(entries.drop_last(), prefix).push(entries.last())
    } else {
        under_part(entries.drop_last(), prefix)
    }
}

/// Whether two entries hold the same content with the same modification
/// time, whatever their paths.
pub open spec fn same_content(a: ElementView, b: ElementView) -> bool {
    a.variant == b.variant && a.modified_time == b.modified_time
}

/// A key for the content of an entry: entries with the same content and
/// the same modification time have the same key.
pub open spec fn content_key(e: ElementView) -> u64 {
    variant_key(e.variant) ^ e.modified_time
}

/// The keys of the contents of the entries.
pub open spec fn content_keys(entries: Seq<ElementView>) -> Seq<u64> {
    Seq::new(entries.len(), |i: int| content_key(entries[i]))
}

/// Whether the entry at `p` is not claimed yet and has the content of `e`
/// at `destination`.
pub open spec fn is_exact(
    below: Seq<ElementView>,
    claimed: Seq<bool>,
    e: ElementView,
    destination: Seq<char>,
    p: int,
) -> bool {
    !claimed[p] && same_content(below[p], e) && below[p].path == destination
}

/// Whether the entry at `p` is not claimed yet and has the content of `e`.
pub open spec fn is_same(below: Seq<ElementView>, claimed: Seq<bool>, e: ElementView, p: int) -> bool {
    !claimed[p] && same_content(below[p], e)
}

/// The first of the first `n` entries that is not claimed yet and has the
/// content of `e` at `destination`.
pub open spec fn first_exact(
    below: Seq<ElementView>,
    claimed: Seq<bool>,
    e: ElementView,
    destination: Seq<char>,
    n: nat,
) -> Option<int>
    decreases n,
{
    if n == 0 {
        None
    } else {
        match first_exact(below, claimed, e, destination, (n - 1) as nat) {
            Some(p) => Some(p),
            None => if is_exact(below, claimed, e, destination, n - 1) {
                Some(n - 1)
            } else {
                None
            },
        }
    }
}

/// The last of the first `n` entries that is not claimed yet and has the
/// content of `e`.
pub open spec fn last_same(below: Seq<ElementView>, claimed: Seq<bool>, e: ElementView, n: nat) -> Option<
    int,
>
    decreases n,
{
    if n == 0 {
        None
    } else if is_same(below, claimed, e, n - 1) {
        Some(n - 1)
    } else {
        last_same(below, claimed, e, (n - 1) as nat)
    }
}

/// A plan in the making.
pub struct PlanView {
    /// Which entries of the target below its prefix a source entry has
    /// claimed.
    pub claimed: Seq<bool>,
    /// The entries that the target gets below its prefix.
    pub added: Seq<ElementView>,
    pub pre: Seq<OperationView>,
    pub post: Seq<OperationView>,
    pub files_moved: bool,
}

/// The plan after one more entry of the source. `below` holds the entries
/// of the target below its prefix.
pub open spec fn plan_entry(
    state: PlanView,
    below: Seq<ElementView>,
    e: ElementView,
    from_prefix: Seq<char>,
    to_prefix: Seq<char>,
    source_folder: Seq<char>,
) -> PlanView {
    if !under(from_prefix, e) {
        state
    } else {
        let suffix = e.path.skip(from_prefix.len() as int);
        let destination = to_prefix + suffix;
        let placed = ElementView { path: destination, ..e };
        match first_exact(below, state.claimed, e, destination, below.len()) {
            Some(p) => PlanView {
                claimed: state.claimed.update(p, true),
                added: state.added.push(placed),
                ..state
            },
            None => match last_same(below, state.claimed, e, below.len()) {
                Some(p) => PlanView {
                    claimed: state.claimed.update(p, true),
                    added: state.added.push(placed),
                    pre: state.pre.push(
                        OperationView::Move { from: below[p].path, to: TMPCOPYDIR@ + suffix },
                    ),
                    post: state.post.push(
                        OperationView::Move { from: TMPCOPYDIR@ + suffix, to: destination },
                    ),
                    files_moved: true,
                },
                None => PlanView {
                    added: state.added.push(placed),
                    post: state.post.push(
                        OperationView::Copy { from: source_folder + e.path, to: destination },
                    ),
                    ..state
                },
            },
        }
    }
}

/// The plan after the given entries of the source, in their order.
pub open spec fn plan_entries(
    start: PlanView,
    below: Seq<ElementView>,
    source: Seq<ElementView>,
    from_prefix: Seq<char>,
    to_prefix: Seq<char>,
    source_folder: Seq<char>,
) -> PlanView
    decreases source.len(),
{
    if source.len() == 0 {
        start
    } else {
        plan_entry(
            plan_entries(start, below, source.drop_last(), from_prefix, to_prefix, source_folder),
            below,
            source.last(),
            from_prefix,
            to_prefix,
            source_folder,
        )
    }
}

/// The deletion of each of the first `n` entries that no source entry has
/// claimed, in their order.
pub open spec fn deletions(below: Seq<ElementView>, claimed: Seq<bool>, n: nat) -> Seq<OperationView>
    decreases n,
{
    if n == 0 {
        Seq::empty()
    } else if claimed[n - 1] {
        deletions(below, claimed, (n - 1) as nat)
    } else {
        deletions(below, claimed, (n - 1) as nat).push(OperationView::Delete(below[n - 1].path))
    }
}

/// The plan before any entry of the source: nothing is claimed.
pub open spec fn plan_start(below: Seq<ElementView>) -> PlanView {
    PlanView {
        claimed: Seq::new(below.len(), |i: int| false),
        added: Seq::empty(),
        pre: Seq::empty(),
        post: Seq::empty(),
        files_moved: false,
    }
}

/// The whole plan: every entry of the source below `from_prefix` is matched
/// against the entries of the target below `to_prefix`; those that none has
/// claimed at the end are deleted.
pub open spec fn sync_plan(
    target: Seq<ElementView>,
    source: Seq<ElementView>,
    from_prefix: Seq<char>,
    to_prefix: Seq<char>,
    source_folder: Seq<char>,
) -> PlanView {
    let below = under_part(target, to_prefix);
    let done = plan_entries(
        plan_start(below),
        below,
        source,
        from_prefix,
        to_prefix,
        source_folder,
    );
    PlanView { pre: done.pre + deletions(below, done.claimed, below.len()), ..done }
}

/// The entries of the source below `from_prefix`, each moved below
/// `to_prefix`.
pub open spec fn placed_entries(source: Seq<ElementView>, from_prefix: Seq<char>, to_prefix: Seq<char>) -> Seq<
    ElementView,
>
    decreases source.len(),
{
    if source.len() == 0 {
        Seq::empty()
    } else if under(from_prefix, source.last()) {
        placed_entries(source.drop_last(), from_prefix, to_prefix).push(
            ElementView {
                path: to_prefix + source.last().path.skip(from_prefix.len() as int),
                ..source.last()
            },
        )
    } else {
        placed_entries(source.drop_last(), from_prefix, to_prefix)
    }
}

/// Whatever the target held, it gets the entries of the source, moved to
/// their new place, in the order of the source.
pub proof fn lemma_plan_adds_placed(
    start: PlanView,
    below: Seq<ElementView>,
    source: Seq<ElementView>,
    from_prefix: Seq<char>,
    to_prefix: Seq<char>,
    source_folder: Seq<char>,
)
    ensures
        plan_entries(start, below, source, from_prefix, to_prefix, source_folder).added
            == start.added + placed_entries(source, from_prefix, to_prefix),
    decreases source.len(),
{
    if source.len() == 0 {
        assert(start.added + placed_entries(source, from_prefix, to_prefix) =~= start.added);
    } else {
        lemma_plan_adds_placed(
            start,
            below,
            source.drop_last(),
            from_prefix,
            to_prefix,
            source_folder,
        );
        let init = placed_entries(source.drop_last(), from_prefix, to_prefix);
        if under(from_prefix, source.last()) {
            let placed = ElementView {
                path: to_prefix + source.last().path.skip(from_prefix.len() as int),
                ..source.last()
            };
            assert((start.added + init).push(placed) =~= start.added + init.push(placed));
        }
    }
}

/// The entries that are kept lie outside the prefix: they give the negated
/// bytes of the whole list and no relative bytes.
pub proof fn lemma_kept_part_bytes(entries: Seq<ElementView>, prefix: Seq<char>)
    ensures
        negated_bytes(kept_part(entries, prefix), prefix) == negated_bytes(entries, prefix),
        relative_bytes(kept_part(entries, prefix), prefix) == Seq::<u8>::empty(),
    decreases entries.len(),
{
    if entries.len() > 0 {
        lemma_kept_part_bytes(entries.drop_last(), prefix);
        if !under(prefix, entries.last()) {
            let kept = kept_part(entries, prefix);
            assert(kept.drop_last() =~= kept_part(entries.drop_last(), prefix));
            assert(kept.last() == entries.last());
        }
    }
}

/// The placed entries lie below the target prefix: they give the relative
/// bytes of the source and no negated bytes.
pub proof fn lemma_placed_entries_bytes(
    source: Seq<ElementView>,
    from_prefix: Seq<char>,
    to_prefix: Seq<char>,
)
    ensures
        relative_bytes(placed_entries(source, from_prefix, to_prefix), to_prefix)
            == relative_bytes(source, from_prefix),
        negated_bytes(placed_entries(source, from_prefix, to_prefix), to_prefix) == Seq::<
            u8,
        >::empty(),
    decreases source.len(),
{
    if source.len() > 0 {
        lemma_placed_entries_bytes(source.drop_last(), from_prefix, to_prefix);
        let e = source.last();
        if under(from_prefix, e) {
            let suffix = e.path.skip(from_prefix.len() as int);
            let placed = ElementView { path: to_prefix + suffix, ..e };
            let all = placed_entries(source, from_prefix, to_prefix);
            assert(all.drop_last() =~= placed_entries(source.drop_last(), from_prefix, to_prefix));
            assert(all.last() == placed);
            assert(to_prefix =~= (to_prefix + suffix).subrange(0, to_prefix.len() as int));
            assert((to_prefix + suffix).skip(to_prefix.len() as int) =~= suffix);
        }
    }
}

/// After planning, the entries below the target prefix give the relative
/// checksum that the source gives below its prefix, and the entries outside
/// it give the checksum they gave before.
pub proof fn lemma_sync_checksums(
    target: Seq<ElementView>,
    source: Seq<ElementView>,
    from_prefix: Seq<char>,
    to_prefix: Seq<char>,
)
    ensures
        relative_checksum_of(
            kept_part(target, to_prefix) + placed_entries(source, from_prefix, to_prefix),
            to_prefix,
        ) == relative_checksum_of(source, from_prefix),
        negated_checksum_of(
            kept_part(target, to_prefix) + placed_entries(source, from_prefix, to_prefix),
            to_prefix,
        ) == negated_checksum_of(target, to_prefix),
{
    let kept = kept_part(target, to_prefix);
    let placed = placed_entries(source, from_prefix, to_prefix);
    lemma_relative_bytes_concat(kept, placed, to_prefix);
    lemma_kept_part_bytes(target, to_prefix);
    lemma_placed_entries_bytes(source, from_prefix, to_prefix);
    assert(relative_bytes(kept, to_prefix) + relative_bytes(placed, to_prefix) =~= relative_bytes(
        source,
        from_prefix,
    ));
    assert(negated_bytes(kept, to_prefix) + negated_bytes(placed, to_prefix) =~= negated_bytes(
        target,
        to_prefix,
    ));
}

/// The fold of a list is that of its two parts, one after the other.
pub proof fn lemma_xor_fold_parts(entries: Seq<ElementView>, prefix: Seq<char>)
    ensures
        xor_fold(kept_part(entries, prefix) + under_part(entries, prefix)) == xor_fold(entries),
    decreases entries.len(),
{
    let kept = kept_part(entries, prefix);
    let below = under_part(entries, prefix);
    if entries.len() == 0 {
        assert(kept + below =~= entries);
    } else {
        let init = entries.drop_last();
        let e = entries.last();
        lemma_xor_fold_parts(init, prefix);
        let kept_init = kept_part(init, prefix);
        let below_init = under_part(init, prefix);
        if under(prefix, e) {
            assert((kept + below).drop_last() =~= kept_init + below_init);
            assert((kept + below).last() == e);
        } else {
            assert(kept + below =~= (kept_init + below_init).insert(kept_init.len() as int, e));
            lemma_xor_fold_insert(kept_init + below_init, kept_init.len() as int, e);
        }
    }
}

/// On which side of a prefix an entry falls: left outside, right below it.
pub fn side_of(element: EDElement, prefix: &str) -> (r: Either<EDElement, EDElement>)
    ensures
        match r {
            Either::Left(kept) => kept == element && !under(prefix@, element@),
            Either::Right(below) => below == element && under(prefix@, element@),
        },
{
    if prefix_split(prefix, element.get_path()).is_some() {
        Either::Right(element)
    } else {
        Either::Left(element)
    }
}

/// Calls `Itertools::partition_map`, which hands each element in turn to
/// `side_of` and appends it to the first list where that gives a left, to
/// the second where it gives a right.
#[verifier::external_body]
fn partition_by_prefix(elements: Vec<EDElement>, prefix: &str) -> (r: (Vec<EDElement>, Vec<EDElement>))
    ensures
        element_views(r.0@) == kept_part(element_views(elements@), prefix@),
        element_views(r.1@) == under_part(element_views(elements@), prefix@),
{
    elements.into_iter().partition_map(|element| side_of(element, prefix))
}

/// What `first_exact` finds is the first that is exact; where it finds
/// nothing, nothing is.
proof fn lemma_first_exact(
    below: Seq<ElementView>,
    claimed: Seq<bool>,
    e: ElementView,
    destination: Seq<char>,
    n: nat,
)
    ensures
        match first_exact(below, claimed, e, destination, n) {
            Some(p) => 0 <= p < n && is_exact(below, claimed, e, destination, p) && forall|q: int|
                0 <= q < p ==> !is_exact(below, claimed, e, destination, q),
            None => forall|q: int| 0 <= q < n ==> !is_exact(below, claimed, e, destination, q),
        },
    decreases n,
{
    if n > 0 {
        lemma_first_exact(below, claimed, e, destination, (n - 1) as nat);
    }
}

/// What `last_same` finds is the last that has the content; where it finds
/// nothing, nothing has it.
proof fn lemma_last_same(below: Seq<ElementView>, claimed: Seq<bool>, e: ElementView, n: nat)
    ensures
        match last_same(below, claimed, e, n) {
            Some(p) => 0 <= p < n && is_same(below, claimed, e, p) && forall|q: int|
                p < q < n ==> !is_same(below, claimed, e, q),
            None => forall|q: int| 0 <= q < n ==> !is_same(below, claimed, e, q),
        },
    decreases n,
{
    if n > 0 {
        lemma_last_same(below, claimed, e, (n - 1) as nat);
    }
}

/// The key of the content of an entry.
fn key_of_content(element: &EDElement) -> (r: u64)
    ensures
        r == content_key(element@),
{
    key_of_variant(element.get_variant()) ^ element.get_modified_time()
}

/// Whether two entries hold the same content with the same modification
/// time.
fn has_same_content(a: &EDElement, b: &EDElement) -> (r: bool)
    ensures
        r == same_content(a@, b@),
{
    *a.get_variant() == *b.get_variant() && a.get_modified_time() == b.get_modified_time()
}

/// The position of the first entry of `below` that is not claimed yet and
/// has the content of `source` at `destination`.
fn find_exact(
    below: &Vec<EDElement>,
    claimed: &Vec<bool>,
    index: &KeyIndex,
    source: &EDElement,
    destination: &str,
) -> (r: Option<usize>)
    requires
        claimed.len() == below.len(),
        index.wf(),
        index.keys() == content_keys(element_views(below@)),
    ensures
        match r {
            Some(p) => p < below.len() && first_exact(
                element_views(below@),
                claimed@,
                source@,
                destination@,
                below@.len(),
            ) == Some(p as int),
            None => first_exact(
                element_views(below@),
                claimed@,
                source@,
                destination@,
                below@.len(),
            ) is None,
        },
{
    let ghost views = element_views(below@);
    let key = key_of_content(source);
    let ghost positions = positions_with(content_keys(views), key);
    proof {
        lemma_positions_with(content_keys(views), key);
        lemma_positions_rise(content_keys(views), key);
        lemma_first_exact(views, claimed@, source@, destination@, views.len());
    }
    let mut found: Option<usize> = None;
    if let Some(bucket) = index.positions(key) {
        let mut j: usize = 0;
        while j < bucket.len() && found.is_none()
            invariant
                j <= bucket.len(),
                bucket@ == positions,
                claimed.len() == below.len(),
                views == element_views(below@),
                forall|k: int| 0 <= k < positions.len() ==> (#[trigger] positions[k]) < views.len(),
                match found {
                    Some(p) => 0 < j && p == positions[j - 1] && is_exact(
                        views,
                        claimed@,
                        source@,
                        destination@,
                        p as int,
                    ),
                    None => true,
                },
                forall|k: int|
                    0 <= k < j && (found is None || k < j - 1) ==> !is_exact(
                        views,
                        claimed@,
                        source@,
                        destination@,
                        (#[trigger] positions[k]) as int,
                    ),
            decreases bucket.len() - j,
        {
            let p = bucket[j];
            assert(p == positions[j as int]);
            if !claimed[p] && has_same_content(&below[p], source) && same_text(
                below[p].get_path(),
                destination,
            ) {
                found = Some(p);
            }
            j = j + 1;
        }
    }
    proof {
        assert forall|q: int|
            0 <= q < views.len() && is_exact(
                views,
                claimed@,
                source@,
                destination@,
                q,
            ) implies match found {
            Some(p) => p <= q,
            None => false,
        } by {
            assert(content_keys(views)[q] == key);
            assert(positions.contains(q as usize));
            let k = choose|k: int| 0 <= k < positions.len() && positions[k] == q as usize;
            match found {
                Some(p) => {
                    if q < p {
                    }
                },
                None => {},
            }
        }
    }
    found
}

/// The position of the last entry of `below` that is not claimed yet and
/// has the content of `source`.
fn find_same_content(
    below: &Vec<EDElement>,
    claimed: &Vec<bool>,
    index: &KeyIndex,
    source: &EDElement,
) -> (r: Option<usize>)
    requires
        claimed.len() == below.len(),
        index.wf(),
        index.keys() == content_keys(element_views(below@)),
    ensures
        match r {
            Some(p) => p < below.len() && last_same(
                element_views(below@),
                claimed@,
                source@,
                below@.len(),
            ) == Some(p as int),
            None => last_same(element_views(below@), claimed@, source@, below@.len()) is None,
        },
{
    let ghost views = element_views(below@);
    let key = key_of_content(source);
    let ghost positions = positions_with(content_keys(views), key);
    proof {
        lemma_positions_with(content_keys(views), key);
        lemma_positions_rise(content_keys(views), key);
        lemma_last_same(views, claimed@, source@, views.len());
    }
    let mut found: Option<usize> = None;
    if let Some(bucket) = index.positions(key) {
        let mut j: usize = bucket.len();
        while j > 0 && found.is_none()
            invariant
                j <= bucket.len(),
                bucket@ == positions,
                claimed.len() == below.len(),
                views == element_views(below@),
                forall|k: int| 0 <= k < positions.len() ==> (#[trigger] positions[k]) < views.len(),
                match found {
                    Some(p) => j < positions.len() && p == positions[j as int] && is_same(
                        views,
                        claimed@,
                        source@,
                        p as int,
                    ),
                    None => true,
                },
                forall|k: int|
                    j <= k < positions.len() && (found is None || j < k) ==> !is_same(
                        views,
                        claimed@,
                        source@,
                        (#[trigger] positions[k]) as int,
                    ),
            decreases j,
        {
            j = j - 1;
            let p = bucket[j];
            assert(p == positions[j as int]);
            if !claimed[p] && has_same_content(&below[p], source) {
                found = Some(p);
            }
        }
    }
    proof {
        assert forall|q: int|
            0 <= q < views.len() && is_same(views, claimed@, source@, q) implies match found {
            Some(p) => q <= p,
            None => false,
        } by {
            assert(content_keys(views)[q] == key);
            assert(positions.contains(q as usize));
            let k = choose|k: int| 0 <= k < positions.len() && positions[k] == q as usize;
            match found {
                Some(p) => {
                    if p < q {
                    }
                },
                None => {},
            }
        }
    }
    found
}

impl EDList {
    /// Puts an entry at the end of the list, and its digest into the fold.
    /// Nothing else adds to a list once it is open.
    pub(crate) fn add_e_d_element(&mut self, element: EDElement)
        requires
            old(self).wf(),
        ensures
            final(self).wf(),
            final(self)@.entries == old(self)@.entries.push(element@),
            final(self)@.root_path == old(self)@.root_path,
            final(self).banlist_view() == old(self).banlist_view(),
    {
        self.xor_checksum.bitxor_assign(element.get_hash());
        self.element_list.push(element);
        proof {
            let entries = element_views(self.element_list@);
            assert(entries.drop_last() =~= old(self)@.entries);
            assert(entries =~= old(self)@.entries.push(element@));
        }
    }

    /// Plans the synchronisation of the entries of `source` below
    /// `sync_from_prefix` to below `sync_to_prefix` in this list, and
    /// changes the list to what it will be once the plan is carried out.
    /// `source_folder_path` is the root of the source, from which the copies
    /// are taken.
    ///
    /// Before it returns the plan, it holds the relative checksum of the
    /// new entries against that of the source, and the checksum of the
    /// entries outside the target prefix against what it was.
    pub fn sync(
        &mut self,
        source: &EDList,
        source_folder_path: &str,
        sync_from_prefix: &str,
        sync_to_prefix: &str,
    ) -> (r: Result<SyncPlan, SyncFromError>)
        requires
            old(self).wf(),
        ensures
            final(self).wf(),
            final(self).banlist_view() == old(self).banlist_view(),
            final(self)@.root_path == old(self)@.root_path,
            final(self)@.entries == kept_part(old(self)@.entries, sync_to_prefix@)
                + placed_entries(source@.entries, sync_from_prefix@, sync_to_prefix@),
            relative_checksum_of(final(self)@.entries, sync_to_prefix@) == relative_checksum_of(
                source@.entries,
                sync_from_prefix@,
            ),
            negated_checksum_of(final(self)@.entries, sync_to_prefix@) == negated_checksum_of(
                old(self)@.entries,
                sync_to_prefix@,
            ),
            r matches Ok(plan) && ({
                let planned = sync_plan(
                    old(self)@.entries,
                    source@.entries,
                    sync_from_prefix@,
                    sync_to_prefix@,
                    source_folder_path@,
                );
                &&& operation_views(plan.pre_file_operations@) == planned.pre
                &&& operation_views(plan.post_file_operations@) == planned.post
                &&& plan.files_moved == planned.files_moved
            }),
    {
        let source_relative_checksum = match source.internal_relative_checksum(
            sync_from_prefix,
            true,
        ) {
            Some(checksum) => checksum,
            None => Checksum::default(),
        };
        let target_negated_relative_checksum = self.internal_negated_relative_checksum(
            sync_to_prefix,
        );
        let ghost target = self@.entries;
        let ghost kept = kept_part(target, sync_to_prefix@);
        let ghost below = under_part(target, sync_to_prefix@);

        let mut all_elements: Vec<EDElement> = Vec::new();
        std::mem::swap(&mut self.element_list, &mut all_elements);
        let (target_list, existing_files) = partition_by_prefix(all_elements, sync_to_prefix);
        self.element_list = target_list;
        let mut existing_files_map = KeyIndex::new();
        let mut claimed: Vec<bool> = Vec::new();
        let mut i: usize = 0;
        proof {
            lemma_xor_fold_parts(target, sync_to_prefix@);
            assert(below.skip(0) =~= below);
            assert(content_keys(below.take(0)) =~= Seq::<u64>::empty());
            assert(claimed@ =~= plan_start(below).claimed.take(0));
        }
        while i < existing_files.len()
            invariant
                i <= existing_files.len(),
                element_views(existing_files@) == below,
                element_views(self.element_list@) == kept,
                self.xor_checksum@ == xor_fold(kept + below.skip(i as int)),
                self.banlist_view() == old(self).banlist_view(),
                self@.root_path == old(self)@.root_path,
                existing_files_map.wf(),
                existing_files_map.keys() == content_keys(below.take(i as int)),
                claimed@ == plan_start(below).claimed.take(i as int),
            decreases existing_files.len() - i,
        {
            let element = &existing_files[i];
            proof {
                let now = kept + below.skip(i as int);
                lemma_xor_fold_remove(now, kept.len() as int);
                assert(now.remove(kept.len() as int) =~= kept + below.skip(i + 1));
                assert(now[kept.len() as int] == element@);
                assert(content_keys(below.take(i + 1)) =~= content_keys(
                    below.take(i as int),
                ).push(content_key(element@)));
                assert(plan_start(below).claimed.take(i + 1) =~= plan_start(below).claimed.take(
                    i as int,
                ).push(false));
            }
            self.xor_checksum.bitxor_assign(element.get_hash());
            existing_files_map.push(key_of_content(element));
            claimed.push(false);
            i = i + 1;
        }
        proof {
            assert(kept + below.skip(i as int) =~= kept);
            assert(below.take(i as int) =~= below);
            assert(plan_start(below).claimed.take(i as int) =~= plan_start(below).claimed);
            assert(self.wf());
        }

        let mut pre_file_operations: Vec<FileOperation> = Vec::new();
        let mut post_file_operations: Vec<FileOperation> = Vec::new();
        let mut files_moved = false;
        let ghost start = plan_start(below);
        let ghost sources = source@.entries;
        let mut k: usize = 0;
        proof {
            assert(sources.take(0) =~= Seq::<ElementView>::empty());
            assert(kept + Seq::<ElementView>::empty() =~= kept);
            assert(operation_views(pre_file_operations@) =~= start.pre);
            assert(operation_views(post_file_operations@) =~= start.post);
        }
        while k < source.element_list.len()
            invariant
                k <= source.element_list.len(),
                sources == element_views(source.element_list@),
                element_views(existing_files@) == below,
                existing_files_map.wf(),
                existing_files_map.keys() == content_keys(below),
                claimed.len() == below.len(),
                self.wf(),
                self.banlist_view() == old(self).banlist_view(),
                self@.root_path == old(self)@.root_path,
                ({
                    let state = plan_entries(
                        start,
                        below,
                        sources.take(k as int),
                        sync_from_prefix@,
                        sync_to_prefix@,
                        source_folder_path@,
                    );
                    &&& claimed@ == state.claimed
                    &&& self@.entries == kept + state.added
                    &&& operation_views(pre_file_operations@) == state.pre
                    &&& operation_views(post_file_operations@) == state.post
                    &&& files_moved == state.files_moved
                }),
            decreases source.element_list.len() - k,
        {
            let ghost state = plan_entries(
                start,
                below,
                sources.take(k as int),
                sync_from_prefix@,
                sync_to_prefix@,
                source_folder_path@,
            );
            proof {
                assert(sources.take(k + 1).drop_last() =~= sources.take(k as int));
                assert(sources.take(k + 1).last() == source.element_list@[k as int]@);
            }
            let source_element = &source.element_list[k];
            if let Some(prefix_stripped_source) = prefix_split(
                sync_from_prefix,
                source_element.get_path(),
            ) {
                let mut dest_path = sync_to_prefix.to_owned();
                dest_path.append(prefix_stripped_source);
                let ghost placed = ElementView { path: dest_path@, ..source_element@ };
                proof {
                    lemma_first_exact(
                        below,
                        claimed@,
                        source_element@,
                        dest_path@,
                        below.len(),
                    );
                    lemma_last_same(below, claimed@, source_element@, below.len());
                    assert((kept + state.added).push(placed) =~= kept + state.added.push(
                        placed,
                    ));
                }
                if let Some(exact) = find_exact(
                    &existing_files,
                    &claimed,
                    &existing_files_map,
                    source_element,
                    dest_path.as_str(),
                ) {
                    let exact_match = existing_files[exact].clone();
                    claimed.set(exact, true);
                    assert(exact_match@ == placed);
                    self.add_e_d_element(exact_match);
                } else if let Some(same) = find_same_content(
                    &existing_files,
                    &claimed,
                    &existing_files_map,
                    source_element,
                ) {
                    let mut existing_element = existing_files[same].clone();
                    claimed.set(same, true);
                    files_moved = true;
                    let mut temp_path = TMPCOPYDIR.to_owned();
                    temp_path.append(prefix_stripped_source);
                    let ghost pre_before = operation_views(pre_file_operations@);
                    let ghost post_before = operation_views(post_file_operations@);
                    pre_file_operations.push(
                        FileOperation::Move {
                            from: existing_element.get_path().to_owned(),
                            to: temp_path.clone(),
                        },
                    );
                    post_file_operations.push(
                        FileOperation::Move { from: temp_path, to: dest_path.clone() },
                    );
                    existing_element.update_path(dest_path);
                    proof {
                        assert(existing_element@ == placed);
                        assert(operation_views(pre_file_operations@) =~= pre_before.push(
                            OperationView::Move {
                                from: below[same as int].path,
                                to: TMPCOPYDIR@ + prefix_stripped_source@,
                            },
                        ));
                        assert(operation_views(post_file_operations@) =~= post_before.push(
                            OperationView::Move {
                                from: TMPCOPYDIR@ + prefix_stripped_source@,
                                to: placed.path,
                            },
                        ));
                    }
                    self.add_e_d_element(existing_element);
                } else {
                    let mut from_path = source_folder_path.to_owned();
                    from_path.append(source_element.get_path());
                    let ghost post_before = operation_views(post_file_operations@);
                    post_file_operations.push(
                        FileOperation::Copy { from: from_path, to: dest_path.clone() },
                    );
                    let new_element = EDElement::from_internal(
                        dest_path,
                        source_element.get_modified_time(),
                        source_element.get_variant().clone(),
                    );
                    proof {
                        assert(new_element@ == placed);
                        assert(operation_views(post_file_operations@) =~= post_before.push(
                            OperationView::Copy {
                                from: source_folder_path@ + source_element@.path,
                                to: placed.path,
                            },
                        ));
                    }
                    self.add_e_d_element(new_element);
                }
            }
            k = k + 1;
        }
        assert(sources.take(k as int) =~= sources);
        let ghost done = plan_entries(
            start,
            below,
            sources,
            sync_from_prefix@,
            sync_to_prefix@,
            source_folder_path@,
        );

        let mut d: usize = 0;
        let ghost pre_done = operation_views(pre_file_operations@);
        assert(pre_done + deletions(below, done.claimed, 0) =~= pre_done);
        while d < existing_files.len()
            invariant
                d <= existing_files.len(),
                element_views(existing_files@) == below,
                claimed@ == done.claimed,
                claimed.len() == below.len(),
                operation_views(pre_file_operations@) == pre_done + deletions(
                    below,
                    done.claimed,
                    d as nat,
                ),
            decreases existing_files.len() - d,
        {
            if !claimed[d] {
                let ghost pre_before = operation_views(pre_file_operations@);
                pre_file_operations.push(
                    FileOperation::Delete(existing_files[d].get_path().to_owned()),
                );
                proof {
                    let delete = OperationView::Delete(below[d as int].path);
                    assert(operation_views(pre_file_operations@) =~= pre_before.push(delete));
                    assert(pre_done + deletions(below, done.claimed, d as nat).push(delete) =~= (
                    pre_done + deletions(below, done.claimed, d as nat)).push(delete));
                }
            }
            d = d + 1;
        }
        proof {
            lemma_plan_adds_placed(
                start,
                below,
                sources,
                sync_from_prefix@,
                sync_to_prefix@,
                source_folder_path@,
            );
            assert(start.added + placed_entries(sources, sync_from_prefix@, sync_to_prefix@)
                =~= placed_entries(sources, sync_from_prefix@, sync_to_prefix@));
            lemma_sync_checksums(target, sources, sync_from_prefix@, sync_to_prefix@);
        }

        let target_relative_checksum = match self.internal_relative_checksum(sync_to_prefix, true) {
            Some(checksum) => checksum,
            None => Checksum::default(),
        };
        let new_target_negated_relative_checksum = self.internal_negated_relative_checksum(
            sync_to_prefix,
        );
        if source_relative_checksum != target_relative_checksum
            || new_target_negated_relative_checksum != target_negated_relative_checksum {
            return Err(
                SyncFromError::ChecksumValidationError {
                    source_rel: source_relative_checksum,
                    target_rel: target_relative_checksum,
                    new_negated_rel: new_target_negated_relative_checksum,
                    negated_rel: target_negated_relative_checksum,
                },
            );
        }
        Ok(SyncPlan { pre_file_operations, post_file_operations, files_moved })
    }
}

} // verus!
