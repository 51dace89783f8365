//! Keeping the manifest in step with the directory tree: verifying entries,
//! pruning those whose objects are gone or changed, adding what is new.

use std::ops::BitXorAssign;
use vstd::prelude::*;
use crate::path_banlist::PathBanlist;
use crate::shared::checksum::Checksum;
use crate::shared::interfacer::{YesNo, YesNoAuto};
use crate::shared::key_index::{
    key_of_text, lemma_positions_with, positions_with, text_key, KeyIndex,
};
use crate::shared::text::{prefix_split, same_text, texts};
use super::e_d_element::errors::{EDElementError, ElementFailure};
use super::e_d_element::probe::{
    entry_for, integrity_verdict, metadata_verdict, metadata_view, PathKind, PathMetadata,
    PathProbe, ProbeView,
};
use super::e_d_element::{EDElement, ElementView};
use super::errors::{CreateError, VerifyError};
use super::fold::{lemma_xor_fold_remove, xor_fold};
use super::{element_views, EDList};

verus! {

/// The mathematical value of `VerifyError`.
pub enum VerifyFinding {
    PathInBanlist(Seq<char>),
    EDElementError(ElementFailure),
}

impl View for VerifyError {
    type V = VerifyFinding;

    open spec fn view(&self) -> VerifyFinding {
        match self {
            VerifyError::PathInBanlist(path) => VerifyFinding::PathInBanlist(path@),
            VerifyError::EDElementError(err) => VerifyFinding::EDElementError(err@),
        }
    }
}

/// The findings of a list as mathematical values.
pub open spec fn finding_views(errors: Seq<VerifyError>) -> Seq<VerifyFinding> {
    Seq::new(errors.len(), |i: int| errors[i]@)
}

/// The probes of a list as mathematical values.
pub open spec fn probe_views(probes: Seq<PathProbe>) -> Seq<ProbeView> {
    Seq::new(probes.len(), |i: int| probes[i]@)
}

/// Whether an entry is among those that a verification under `prefix`
/// looks at: all of them where there is no prefix.
pub open spec fn selected(prefix: Option<Seq<char>>, e: ElementView) -> bool {
    match prefix {
        Some(prefix) => prefix.is_prefix_of(e.path),
        None => true,
    }
}

/// The positions of the first `n` entries that a verification under
/// `prefix` looks at, in their order.
pub open spec fn selection(entries: Seq<ElementView>, prefix: Option<Seq<char>>, n: nat) -> Seq<
    usize,
>
    decreases n,
{
    if n == 0 {
        Seq::empty()
    } else if selected(prefix, entries[n - 1]) {
        selection(entries, prefix, (n - 1) as nat).push((n - 1) as usize)
    } else {
        selection(entries, prefix, (n - 1) as nat)
    }
}

/// The positions of the links among the first `n` entries, in their order.
pub open spec fn link_selection(entries: Seq<ElementView>, n: nat) -> Seq<usize>
    decreases n,
{
    if n == 0 {
        Seq::empty()
    } else if entries[n - 1].variant is Link {
        link_selection(entries, (n - 1) as nat).push((n - 1) as usize)
    } else {
        link_selection(entries, (n - 1) as nat)
    }
}

/// What a verification reports of one entry: first what the object at its
/// path says of it, then whether its path is banned.
pub open spec fn findings_of(e: ElementView, banned: bool, probe: ProbeView) -> Seq<
    VerifyFinding,
> {
    let mismatch = match integrity_verdict(e, probe) {
        Ok(()) => Seq::empty(),
        Err(failure) => seq![VerifyFinding::EDElementError(failure)],
    };
    if banned {
        mismatch.push(VerifyFinding::PathInBanlist(e.path))
    } else {
        mismatch
    }
}

/// What a verification reports of the entries at the given positions, each
/// tested with the probe at the same place.
pub open spec fn findings(
    entries: Seq<ElementView>,
    banlist: PathBanlist,
    positions: Seq<usize>,
    probes: Seq<ProbeView>,
) -> Seq<VerifyFinding>
    decreases positions.len(),
{
    if positions.len() == 0 {
        Seq::empty()
    } else {
        let e = entries[positions.last() as int];
        findings(entries, banlist, positions.drop_last(), probes) + findings_of(
            e,
            banlist.bans(e.path),
            probes[positions.len() - 1],
        )
    }
}

/// Whether there is one probe for each position, and an entry at each
/// position.
pub open spec fn probes_fit(
    entries: Seq<ElementView>,
    positions: Seq<usize>,
    probes: Seq<ProbeView>,
) -> bool {
    &&& probes.len() == positions.len()
    &&& forall|k: int| 0 <= k < positions.len() ==> (#[trigger] positions[k]) < entries.len()
}

/// Why an entry is proposed for deletion.
#[derive(Debug)]
pub enum DeleteReason {
    /// Its path is banned.
    InBanlist(String),
    /// The metadata at its path does not match it.
    Failed(EDElementError),
}

/// The mathematical value of `DeleteReason`.
pub enum ReasonView {
    InBanlist(Seq<char>),
    Failed(ElementFailure),
}

impl View for DeleteReason {
    type V = ReasonView;

    open spec fn view(&self) -> ReasonView {
        match self {
            DeleteReason::InBanlist(path) => ReasonView::InBanlist(path@),
            DeleteReason::Failed(err) => ReasonView::Failed(err@),
        }
    }
}

/// Why an entry is proposed for deletion, if it is: a banned path is reason
/// enough, and its metadata is then not looked at.
pub open spec fn delete_reason(e: ElementView, banned: bool, metadata: Option<PathMetadata>) -> Option<
    ReasonView,
> {
    if banned {
        Some(ReasonView::InBanlist(e.path))
    } else {
        match metadata_verdict(e, metadata) {
            Ok(()) => None,
            Err(failure) => Some(ReasonView::Failed(failure)),
        }
    }
}

/// The entries that stay when those marked in `doomed` go.
pub open spec fn retained(entries: Seq<ElementView>, doomed: Seq<bool>) -> Seq<ElementView>
    decreases entries.len(),
{
    if entries.len() == 0 {
        Seq::empty()
    } else if doomed[entries.len() - 1] {
        retained(entries.drop_last(), doomed)
    } else {
        retained(entries.drop_last(), doomed).push(entries.last())
    }
}

/// The paths of the entries that go, in their order.
pub open spec fn deleted_paths(entries: Seq<ElementView>, doomed: Seq<bool>) -> Seq<Seq<char>>
    decreases entries.len(),
{
    if entries.len() == 0 {
        Seq::empty()
    } else if doomed[entries.len() - 1] {
        deleted_paths(entries.drop_last(), doomed).push(entries.last().path)
    } else {
        deleted_paths(entries.drop_last(), doomed)
    }
}

/// Every entry that stays was not marked.
pub proof fn lemma_retained_unmarked(entries: Seq<ElementView>, doomed: Seq<bool>)
    requires
        doomed.len() == entries.len(),
    ensures
        forall|k: int|
            0 <= k < retained(entries, doomed).len() ==> exists|i: int|
                0 <= i < entries.len() && !doomed[i] && entries[i] == #[trigger] retained(
                    entries,
                    doomed,
                )[k],
    decreases entries.len(),
{
    if entries.len() > 0 {
        let init = entries.drop_last();
        lemma_retained_unmarked(init, doomed.drop_last());
        assert(retained(init, doomed.drop_last()) == retained(init, doomed)) by {
            lemma_retained_reads_prefix(init, doomed.drop_last(), doomed);
        }
        let kept = retained(entries, doomed);
        assert forall|k: int| 0 <= k < kept.len() implies exists|i: int|
            0 <= i < entries.len() && !doomed[i] && entries[i] == #[trigger] kept[k] by {
            if k < retained(init, doomed).len() {
                let i = choose|i: int|
                    0 <= i < init.len() && !doomed.drop_last()[i] && init[i] == retained(
                        init,
                        doomed.drop_last(),
                    )[k];
                assert(entries[i] == init[i] && doomed[i] == doomed.drop_last()[i]);
            } else {
                assert(entries[entries.len() - 1] == kept[k]);
            }
        }
    }
}

/// Only the marks of the entries at hand are read.
pub proof fn lemma_retained_reads_prefix(entries: Seq<ElementView>, a: Seq<bool>, b: Seq<bool>)
    requires
        a.len() >= entries.len(),
        b.len() >= entries.len(),
        forall|i: int| 0 <= i < entries.len() ==> a[i] == b[i],
    ensures
        retained(entries, a) == retained(entries, b),
        deleted_paths(entries, a) == deleted_paths(entries, b),
    decreases entries.len(),
{
    if entries.len() > 0 {
        lemma_retained_reads_prefix(entries.drop_last(), a, b);
    }
}

/// Where the operator agrees to every proposed deletion, every entry that
/// stays has a path that is not banned and metadata that matches it.
pub proof fn lemma_delete_leaves_sound(
    entries: Seq<ElementView>,
    banlist: PathBanlist,
    metadata: Seq<Option<PathMetadata>>,
    doomed: Seq<bool>,
)
    requires
        metadata.len() == entries.len(),
        doomed.len() == entries.len(),
        forall|i: int|
            0 <= i < entries.len() ==> doomed[i] == delete_reason(
                entries[i],
                banlist.bans(entries[i].path),
                metadata[i],
            ) is Some,
    ensures
        forall|k: int|
            0 <= k < retained(entries, doomed).len() ==> exists|i: int|
                0 <= i < entries.len() && entries[i] == #[trigger] retained(entries, doomed)[k]
                    && !banlist.bans(entries[i].path) && metadata_verdict(
                    entries[i],
                    metadata[i],
                ) is Ok,
{
    lemma_retained_unmarked(entries, doomed);
    let kept = retained(entries, doomed);
    assert forall|k: int| 0 <= k < kept.len() implies exists|i: int|
        0 <= i < entries.len() && entries[i] == #[trigger] kept[k] && !banlist.bans(
            entries[i].path,
        ) && metadata_verdict(entries[i], metadata[i]) is Ok by {
        let i = choose|i: int| 0 <= i < entries.len() && !doomed[i] && entries[i] == kept[k];
        assert(delete_reason(entries[i], banlist.bans(entries[i].path), metadata[i]) is None);
    }
}

/// The answer that holds for all prompts of one run, once the operator has
/// given one that is to continue.
#[derive(Debug)]
pub struct AutoAnswer {
    auto_action: Option<YesNo>,
}

impl View for AutoAnswer {
    type V = Option<YesNo>;

    closed spec fn view(&self) -> Option<YesNo> {
        self.auto_action
    }
}

impl AutoAnswer {
    /// No answer holds yet.
    pub fn new() -> (r: AutoAnswer)
        ensures
            r@ is None,
    {
        AutoAnswer { auto_action: None }
    }

    /// The answer that holds without asking, if there is one.
    pub fn pinned(&self) -> (r: Option<YesNo>)
        ensures
            r == self@,
    {
        self.auto_action
    }

    /// Takes an answer of the operator: its yes or no is the decision, and
    /// holds from now on if the answer is to continue.
    pub fn record(&mut self, answer: YesNoAuto) -> (r: YesNo)
        ensures
            r == match answer {
                YesNoAuto::Once(val) => val,
                YesNoAuto::Continued(val) => val,
            },
            final(self)@ == match answer {
                YesNoAuto::Once(_) => old(self)@,
                YesNoAuto::Continued(val) => Some(val),
            },
    {
        if let YesNoAuto::Continued(auto_value) = answer {
            self.auto_action = Some(auto_value);
        }
        answer.get_yesno_val()
    }
}

/// What the walk of the directory tree does with one entry of a directory.
#[derive(Debug, Clone, Copy, PartialEq, Eq, Structural)]
pub enum IndexAction {
    /// The path is banned: it is left out, with everything below it.
    Skip,
    /// A directory: the walk goes into it.
    Descend,
    /// A file or a symbolic link: it is indexed.
    Emit,
    /// Anything else: the operator is told, and it is left out.
    Report,
}

/// What is added to a list from the paths found and what was found there:
/// an entry for each path that gives one, in the order of the paths.
pub open spec fn created(found: Seq<(Seq<char>, ProbeView)>) -> Seq<ElementView>
    decreases found.len(),
{
    if found.len() == 0 {
        Seq::empty()
    } else {
        match entry_for(found.last().0, found.last().1) {
            Ok(e) => created(found.drop_last()).push(e),
            Err(_) => created(found.drop_last()),
        }
    }
}

/// The failures among the paths found, in the order of the paths.
pub open spec fn create_failures(found: Seq<(Seq<char>, ProbeView)>) -> Seq<ElementFailure>
    decreases found.len(),
{
    if found.len() == 0 {
        Seq::empty()
    } else {
        match entry_for(found.last().0, found.last().1) {
            Ok(_) => create_failures(found.drop_last()),
            Err(failure) => create_failures(found.drop_last()).push(failure),
        }
    }
}

/// Every path found that gives an entry has its entry among those added.
pub proof fn lemma_created_holds(found: Seq<(Seq<char>, ProbeView)>, i: int)
    requires
        0 <= i < found.len(),
        entry_for(found[i].0, found[i].1) is Ok,
    ensures
        created(found).contains(entry_for(found[i].0, found[i].1)->Ok_0),
    decreases found.len(),
{
    let all = created(found);
    if i == found.len() - 1 {
        assert(all[all.len() - 1] == entry_for(found[i].0, found[i].1)->Ok_0);
    } else {
        let init = found.drop_last();
        assert(init[i] == found[i]);
        lemma_created_holds(init, i);
        let e = entry_for(found[i].0, found[i].1)->Ok_0;
        let k = choose|k: int| 0 <= k < created(init).len() && created(init)[k] == e;
        assert(all[k] == e);
    }
}

/// The paths found with what was found there, as mathematical values.
pub open spec fn found_views(found: Seq<(String, PathProbe)>) -> Seq<(Seq<char>, ProbeView)> {
    Seq::new(found.len(), |i: int| (found[i].0@, found[i].1@))
}

/// The failures of a creation as mathematical values; a failure of the walk
/// is none of them.
pub open spec fn failure_views(errors: Seq<CreateError>) -> Seq<Option<ElementFailure>> {
    Seq::new(
        errors.len(),
        |i: int|
            match errors[i] {
                CreateError::EDElementError(err) => Some(err@),
                CreateError::IndexError(_) => None,
            },
    )
}

/// Whether a path is that of one of the entries.
pub open spec fn has_path(entries: Seq<ElementView>, path: Seq<char>) -> bool {
    exists|i: int| 0 <= i < entries.len() && (#[trigger] entries[i]).path == path
}

/// The keys of the paths of the entries.
pub open spec fn path_keys(entries: Seq<ElementView>) -> Seq<u64> {
    Seq::new(entries.len(), |i: int| text_key(entries[i].path))
}

/// The paths that no entry has, in their order.
pub open spec fn pending(entries: Seq<ElementView>, paths: Seq<Seq<char>>) -> Seq<Seq<char>>
    decreases paths.len(),
{
    if paths.len() == 0 {
        Seq::empty()
    } else if has_path(entries, paths.last()) {
        pending(entries, paths.drop_last())
    } else {
        pending(entries, paths.drop_last()).push(paths.last())
    }
}

/// The entries of a list and its fold, set aside.
#[derive(Debug)]
pub struct ListSnapshot {
    element_list: Vec<EDElement>,
    xor_checksum: Checksum,
}

impl ListSnapshot {
    /// The entries that were set aside.
    pub closed spec fn entries(&self) -> Seq<ElementView> {
        element_views(self.element_list@)
    }

    /// The fold that was set aside.
    pub closed spec fn xor_checksum(&self) -> Seq<u8> {
        self.xor_checksum@
    }
}

/// Every path that no entry has is among the pending ones.
pub proof fn lemma_pending_holds(entries: Seq<ElementView>, paths: Seq<Seq<char>>, i: int)
    requires
        0 <= i < paths.len(),
        !has_path(entries, paths[i]),
    ensures
        pending(entries, paths).contains(paths[i]),
    decreases paths.len(),
{
    let all = pending(entries, paths);
    if i == paths.len() - 1 {
        assert(all[all.len() - 1] == paths[i]);
    } else {
        let init = paths.drop_last();
        assert(init[i] == paths[i]);
        lemma_pending_holds(entries, init, i);
        let k = choose|k: int| 0 <= k < pending(entries, init).len() && pending(entries, init)[k]
            == paths[i];
        assert(all[k] == paths[i]);
    }
}

impl EDList {
    /// Sets the entries and the fold aside, so that a plan which the
    /// operator turns down can be undone.
    pub fn snapshot(&self) -> (r: ListSnapshot)
        ensures
            r.entries() == self@.entries,
            r.xor_checksum() == self@.xor_checksum,
    {
        let mut element_list: Vec<EDElement> = Vec::new();
        let mut i: usize = 0;
        while i < self.element_list.len()
            invariant
                i <= self.element_list.len(),
                element_list.len() == i,
                forall|k: int| 0 <= k < i ==> element_list@[k]@ == self.element_list@[k]@,
            decreases self.element_list.len() - i,
        {
            element_list.push(self.element_list[i].clone());
            i = i + 1;
        }
        assert(element_views(element_list@) =~= element_views(self.element_list@));
        ListSnapshot { element_list, xor_checksum: self.xor_checksum }
    }

    /// Puts back the entries and the fold that were set aside.
    pub fn restore(&mut self, snapshot: ListSnapshot)
        ensures
            final(self)@.entries == snapshot.entries(),
            final(self)@.xor_checksum == snapshot.xor_checksum(),
            final(self)@.root_path == old(self)@.root_path,
            final(self).banlist_view() == old(self).banlist_view(),
    {
        self.element_list = snapshot.element_list;
        self.xor_checksum = snapshot.xor_checksum;
    }

    /// The entries of the list, in their order.
    pub fn get_elements(&self) -> (r: &Vec<EDElement>)
        ensures
            element_views(r@) == self@.entries,
    {
        &self.element_list
    }

    /// The banlist that the list was opened with.
    pub fn get_banlist(&self) -> (r: &PathBanlist)
        ensures
            *r == self.banlist_view(),
    {
        &self.banlist
    }

    /// The XOR fold that the list carries: that of the digests of its
    /// entries.
    pub fn get_xor_checksum(&self) -> (r: &Checksum)
        ensures
            r@ == self@.xor_checksum,
            self.wf() ==> r@ == xor_fold(self@.entries),
    {
        &self.xor_checksum
    }

    /// The directory below which the paths of the entries lie.
    pub fn get_root_path(&self) -> (r: &str)
        ensures
            r@ == self@.root_path,
    {
        self.root_path.as_str()
    }

    /// The positions of the entries that a verification looks at: those
    /// whose path starts with `prefix`, or all where there is none.
    pub fn verify_selection(&self, prefix: Option<&str>) -> (r: Vec<usize>)
        ensures
            r@ == selection(
                self@.entries,
                match prefix {
                    Some(prefix) => Some(prefix@),
                    None => None,
                },
                self@.entries.len(),
            ),
            forall|k: int| 0 <= k < r.len() ==> r[k] < self@.entries.len(),
    {
        let ghost entries = self@.entries;
        let ghost wanted = match prefix {
            Some(prefix) => Some(prefix@),
            None => None,
        };
        let mut r: Vec<usize> = Vec::new();
        let mut i: usize = 0;
        while i < self.element_list.len()
            invariant
                i <= self.element_list.len(),
                entries == element_views(self.element_list@),
                wanted == match prefix {
                    Some(prefix) => Some(prefix@),
                    None => None,
                },
                r@ == selection(entries, wanted, i as nat),
                forall|k: int| 0 <= k < r.len() ==> r[k] < i,
            decreases self.element_list.len() - i,
        {
            let chosen = match prefix {
                Some(prefix) => prefix_split(prefix, self.element_list[i].get_path()).is_some(),
                None => true,
            };
            if chosen {
                r.push(i);
            }
            i = i + 1;
        }
        r
    }

    /// The positions of the entries that are symbolic links.
    pub fn verify_links_selection(&self) -> (r: Vec<usize>)
        ensures
            r@ == link_selection(self@.entries, self@.entries.len()),
            forall|k: int| 0 <= k < r.len() ==> r[k] < self@.entries.len(),
    {
        let ghost entries = self@.entries;
        let mut r: Vec<usize> = Vec::new();
        let mut i: usize = 0;
        while i < self.element_list.len()
            invariant
                i <= self.element_list.len(),
                entries == element_views(self.element_list@),
                r@ == link_selection(entries, i as nat),
                forall|k: int| 0 <= k < r.len() ==> r[k] < i,
            decreases self.element_list.len() - i,
        {
            if self.element_list[i].get_variant().is_link() {
                r.push(i);
            }
            i = i + 1;
        }
        r
    }

    /// Tests the entries whose path starts with `prefix`, or all of them
    /// where there is none, each against the probe at the same place among
    /// `probes`, and reports every mismatch and every banned path.
    pub fn verify(&self, prefix: Option<&str>, probes: Vec<PathProbe>) -> (r: Vec<VerifyError>)
        requires
            probes_fit(
                self@.entries,
                selection(
                    self@.entries,
                    match prefix {
                        Some(prefix) => Some(prefix@),
                        None => None,
                    },
                    self@.entries.len(),
                ),
                probe_views(probes@),
            ),
        ensures
            finding_views(r@) == findings(
                self@.entries,
                self.banlist_view(),
                selection(
                    self@.entries,
                    match prefix {
                        Some(prefix) => Some(prefix@),
                        None => None,
                    },
                    self@.entries.len(),
                ),
                probe_views(probes@),
            ),
    {
        let positions = self.verify_selection(prefix);
        self.verify_loop(&positions, probes)
    }

    /// Tests the entries that are symbolic links, each against the probe at
    /// the same place among `probes`.
    pub fn verify_links(&self, probes: Vec<PathProbe>) -> (r: Vec<VerifyError>)
        requires
            probes_fit(
                self@.entries,
                link_selection(self@.entries, self@.entries.len()),
                probe_views(probes@),
            ),
        ensures
            finding_views(r@) == findings(
                self@.entries,
                self.banlist_view(),
                link_selection(self@.entries, self@.entries.len()),
                probe_views(probes@),
            ),
    {
        let positions = self.verify_links_selection();
        self.verify_loop(&positions, probes)
    }

    /// Tests the entries at the given positions, each against the probe at
    /// the same place, and reports every mismatch and every banned path. No
    /// finding ends the test.
    pub fn verify_loop(&self, positions: &Vec<usize>, probes: Vec<PathProbe>) -> (r: Vec<
        VerifyError,
    >)
        requires
            probes_fit(self@.entries, positions@, probe_views(probes@)),
        ensures
            finding_views(r@) == findings(
                self@.entries,
                self.banlist_view(),
                positions@,
                probe_views(probes@),
            ),
    {
        let ghost entries = self@.entries;
        let ghost views = probe_views(probes@);
        let mut error_list: Vec<VerifyError> = Vec::new();
        proof {
            assert(positions@.take(0) =~= Seq::<usize>::empty());
            assert(finding_views(error_list@) =~= Seq::<VerifyFinding>::empty());
        }
        let mut n: usize = 0;
        for probe in it: probes.into_iter()
            invariant
                n == it.index(),
                it.seq() == probes@,
                views == probe_views(probes@),
                entries == self@.entries,
                entries == element_views(self.element_list@),
                probes_fit(entries, positions@, views),
                finding_views(error_list@) == findings(
                    entries,
                    self.banlist_view(),
                    positions@.take(it.index() as int),
                    views,
                ),
        {
            let ghost k = it.index() as int;
            assert(k < positions.len());
            let position = positions[n];
            assert(positions@[k] < entries.len());
            let e_d_element = &self.element_list[position];
            let path = e_d_element.get_path();
            proof {
                assert(positions@.take(k + 1).drop_last() =~= positions@.take(k));
                assert(positions@.take(k + 1).last() == position);
                assert(views[k] == probe@);
                assert(entries[position as int] == e_d_element@);
            }
            let ghost before = finding_views(error_list@);
            let ghost mut middle = before;
            if let Err(err) = e_d_element.test_integrity(probe) {
                error_list.push(VerifyError::EDElementError(err));
                proof {
                    middle = finding_views(error_list@);
                    assert(middle =~= before.push(VerifyFinding::EDElementError(err@)));
                }
            }
            if self.banlist.is_in_banlist(path) {
                error_list.push(VerifyError::PathInBanlist(path.to_owned()));
                proof {
                    assert(finding_views(error_list@) =~= middle.push(
                        VerifyFinding::PathInBanlist(path@),
                    ));
                }
            }
            proof {
                let added = findings_of(
                    e_d_element@,
                    self.banlist_view().bans(e_d_element@.path),
                    probe@,
                );
                assert(finding_views(error_list@) =~= before + added);
            }
            n = n + 1;
        }
        assert(positions@.take(positions@.len() as int) =~= positions@);
        error_list
    }

    /// Why each entry is proposed for deletion, if it is, from the metadata
    /// found at its path: one reason or none for each entry, in the order
    /// of the list.
    pub fn delete_candidates(&self, metadata: Vec<Result<PathMetadata, std::io::Error>>) -> (r: Vec<
        Option<DeleteReason>,
    >)
        requires
            metadata.len() == self@.entries.len(),
        ensures
            r.len() == self@.entries.len(),
            forall|i: int|
                0 <= i < r.len() ==> match delete_reason(
                    self@.entries[i],
                    self.banlist_view().bans(self@.entries[i].path),
                    metadata_view(metadata[i]),
                ) {
                    Some(reason) => (#[trigger] r[i]) matches Some(given) && given@ == reason,
                    None => r[i] is None,
                },
    {
        let ghost entries = self@.entries;
        let mut reasons: Vec<Option<DeleteReason>> = Vec::new();
        let mut n: usize = 0;
        for found in it: metadata.into_iter()
            invariant
                n == it.index(),
                it.seq() == metadata@,
                metadata.len() == self.element_list.len(),
                entries == element_views(self.element_list@),
                reasons.len() == it.index(),
                forall|i: int|
                    0 <= i < reasons.len() ==> match delete_reason(
                        entries[i],
                        self.banlist_view().bans(entries[i].path),
                        metadata_view(metadata[i]),
                    ) {
                        Some(reason) => (#[trigger] reasons[i]) matches Some(given) && given@
                            == reason,
                        None => reasons[i] is None,
                    },
        {
            let e_d_element = &self.element_list[n];
            assert(entries[n as int] == e_d_element@);
            let reason = if self.banlist.is_in_banlist(e_d_element.get_path()) {
                Some(DeleteReason::InBanlist(e_d_element.get_path().to_owned()))
            } else {
                match e_d_element.test_metadata(found) {
                    Ok(()) => None,
                    Err(err) => Some(DeleteReason::Failed(err)),
                }
            };
            reasons.push(reason);
            n = n + 1;
        }
        reasons
    }

    /// Takes the entries marked in `doomed` out of the list, and their
    /// digests out of the fold. Returns the paths of the entries taken out,
    /// in their order.
    pub fn delete(&mut self, doomed: &Vec<bool>) -> (r: Vec<String>)
        requires
            old(self).wf(),
            doomed.len() == old(self)@.entries.len(),
        ensures
            final(self).wf(),
            final(self)@.entries == retained(old(self)@.entries, doomed@),
            final(self)@.root_path == old(self)@.root_path,
            final(self).banlist_view() == old(self).banlist_view(),
            texts(r@) == deleted_paths(old(self)@.entries, doomed@),
    {
        let ghost entries = self@.entries;
        let mut old_list: Vec<EDElement> = Vec::new();
        std::mem::swap(&mut self.element_list, &mut old_list);
        let mut deleted: Vec<String> = Vec::new();
        proof {
            assert(entries.take(0) =~= Seq::<ElementView>::empty());
            assert(retained(entries.take(0), doomed@) + entries.skip(0) =~= entries);
            assert(element_views(self.element_list@) =~= retained(entries.take(0), doomed@));
            assert(texts(deleted@) =~= deleted_paths(
                entries.take(0),
                doomed@,
            ));
        }
        let mut n: usize = 0;
        for e_d_element in it: old_list.into_iter()
            invariant
                n == it.index(),
                it.seq() == old_list@,
                entries == element_views(old_list@),
                doomed.len() == entries.len(),
                element_views(self.element_list@) == retained(
                    entries.take(it.index() as int),
                    doomed@,
                ),
                texts(deleted@) == deleted_paths(
                    entries.take(it.index() as int),
                    doomed@,
                ),
                self.xor_checksum@ == xor_fold(
                    retained(entries.take(it.index() as int), doomed@) + entries.skip(
                        it.index() as int,
                    ),
                ),
                self@.root_path == old(self)@.root_path,
                self.banlist_view() == old(self).banlist_view(),
        {
            let ghost i = it.index() as int;
            let ghost kept = retained(entries.take(i), doomed@);
            proof {
                assert(entries.take(i + 1).drop_last() =~= entries.take(i));
                assert(entries.take(i + 1).last() == e_d_element@);
                assert(entries[i] == e_d_element@);
            }
            let goes = doomed[n];
            n = n + 1;
            if goes {
                proof {
                    let now = kept + entries.skip(i);
                    lemma_xor_fold_remove(now, kept.len() as int);
                    assert(now.remove(kept.len() as int) =~= kept + entries.skip(i + 1));
                    assert(now[kept.len() as int] == e_d_element@);
                }
                self.xor_checksum.bitxor_assign(e_d_element.get_hash());
                let ghost before = texts(deleted@);
                deleted.push(e_d_element.take_path());
                proof {
                    assert(texts(deleted@) =~= before.push(
                        e_d_element@.path,
                    ));
                }
            } else {
                let ghost before = element_views(self.element_list@);
                self.element_list.push(e_d_element);
                proof {
                    assert(element_views(self.element_list@) =~= before.push(e_d_element@));
                    assert(kept.push(e_d_element@) + entries.skip(i + 1) =~= kept + entries.skip(
                        i,
                    ));
                }
            }
        }
        proof {
            assert(entries.take(entries.len() as int) =~= entries);
            assert(retained(entries, doomed@) + entries.skip(entries.len() as int) =~= retained(
                entries,
                doomed@,
            ));
        }
        deleted
    }

    /// The positions of the entries, by the keys of their paths.
    fn path_index(&self) -> (r: KeyIndex)
        ensures
            r.wf(),
            r.keys() == path_keys(self@.entries),
    {
        let ghost entries = self@.entries;
        let mut index = KeyIndex::new();
        let mut i: usize = 0;
        assert(path_keys(entries.take(0)) =~= Seq::<u64>::empty());
        while i < self.element_list.len()
            invariant
                i <= self.element_list.len(),
                entries == element_views(self.element_list@),
                index.wf(),
                index.keys() == path_keys(entries.take(i as int)),
            decreases self.element_list.len() - i,
        {
            let key = key_of_text(self.element_list[i].get_path());
            proof {
                assert(path_keys(entries.take(i + 1)) =~= path_keys(entries.take(i as int)).push(
                    key,
                ));
            }
            index.push(key);
            i = i + 1;
        }
        assert(entries.take(i as int) =~= entries);
        index
    }

    /// Whether an entry of the list has the path `path`.
    fn holds_path(&self, index: &KeyIndex, path: &str) -> (r: bool)
        requires
            index.wf(),
            index.keys() == path_keys(self@.entries),
        ensures
            r == has_path(self@.entries, path@),
    {
        let ghost entries = self@.entries;
        let key = key_of_text(path);
        proof {
            assert(entries.len() == self.element_list.len());
            lemma_positions_with(path_keys(entries), key);
        }
        let ghost positions = positions_with(path_keys(entries), key);
        match index.positions(key) {
            None => {
                proof {
                    if has_path(entries, path@) {
                        let i = choose|i: int|
                            0 <= i < entries.len() && (#[trigger] entries[i]).path == path@;
                        assert(path_keys(entries)[i] == key);
                        assert(positions.contains(i as usize));
                    }
                }
                false
            },
            Some(bucket) => {
                let mut j: usize = 0;
                while j < bucket.len()
                    invariant
                        j <= bucket.len(),
                        bucket@ == positions,
                        entries == element_views(self.element_list@),
                        forall|k: int|
                            0 <= k < positions.len() ==> (#[trigger] positions[k]) < entries.len(),
                        forall|k: int|
                            0 <= k < j ==> entries[(#[trigger] positions[k]) as int].path
                                != path@,
                    decreases bucket.len() - j,
                {
                    let position = bucket[j];
                    assert(position == positions[j as int]);
                    if same_text(self.element_list[position].get_path(), path) {
                        assert(entries[position as int].path == path@);
                        return true;
                    }
                    j = j + 1;
                }
                proof {
                    if has_path(entries, path@) {
                        let i = choose|i: int|
                            0 <= i < entries.len() && (#[trigger] entries[i]).path == path@;
                        assert(path_keys(entries)[i] == key);
                        assert(positions.contains(i as usize));
                        let k = choose|k: int| 0 <= k < positions.len() && positions[k] == i as usize;
                        assert(entries[positions[k] as int].path != path@);
                    }
                }
                false
            },
        }
    }

    /// The paths among `indexed` that no entry of the list has yet, in
    /// their order.
    pub fn pending_paths(&self, indexed: Vec<String>) -> (r: Vec<String>)
        ensures
            texts(r@) == pending(
                self@.entries,
                texts(indexed@),
            ),
    {
        let ghost entries = self@.entries;
        let ghost paths = texts(indexed@);
        let existing_paths = self.path_index();
        let mut pending_hashing: Vec<String> = Vec::new();
        proof {
            assert(paths.take(0) =~= Seq::<Seq<char>>::empty());
            assert(texts(pending_hashing@) =~= Seq::<Seq<char>>::empty());
        }
        for string in it: indexed.into_iter()
            invariant
                it.seq() == indexed@,
                paths == texts(indexed@),
                entries == self@.entries,
                existing_paths.wf(),
                existing_paths.keys() == path_keys(entries),
                texts(pending_hashing@) == pending(
                    entries,
                    paths.take(it.index() as int),
                ),
        {
            proof {
                assert(paths.take(it.index() + 1).drop_last() =~= paths.take(it.index() as int));
                assert(paths.take(it.index() + 1).last() == string@);
            }
            let known = self.holds_path(&existing_paths, string.as_str());
            if !known {
                let ghost before = texts(pending_hashing@);
                pending_hashing.push(string);
                proof {
                    assert(texts(pending_hashing@) =~= before.push(string@));
                }
            }
        }
        assert(paths.take(paths.len() as int) =~= paths);
        pending_hashing
    }

    /// Adds an entry for each path that gives one, from what was found at
    /// the path, and returns the failures of the others. No failure ends the
    /// run.
    pub fn create(&mut self, found: Vec<(String, PathProbe)>) -> (r: Vec<CreateError>)
        requires
            old(self).wf(),
        ensures
            final(self).wf(),
            final(self)@.entries == old(self)@.entries + created(found_views(found@)),
            final(self)@.root_path == old(self)@.root_path,
            final(self).banlist_view() == old(self).banlist_view(),
            failure_views(r@) == create_failures(found_views(found@)).map_values(
                |failure: ElementFailure| Some(failure),
            ),
    {
        let ghost views = found_views(found@);
        let mut errors: Vec<CreateError> = Vec::new();
        let ghost wrap = |failure: ElementFailure| Some(failure);
        proof {
            assert(views.take(0) =~= Seq::<(Seq<char>, ProbeView)>::empty());
            assert(self@.entries + created(views.take(0)) =~= self@.entries);
            assert(failure_views(errors@) =~= create_failures(views.take(0)).map_values(wrap));
        }
        for pair in it: found.into_iter()
            invariant
                it.seq() == found@,
                views == found_views(found@),
                wrap == |failure: ElementFailure| Some(failure),
                self.wf(),
                self@.entries == old(self)@.entries + created(views.take(it.index() as int)),
                self@.root_path == old(self)@.root_path,
                self.banlist_view() == old(self).banlist_view(),
                failure_views(errors@) == create_failures(
                    views.take(it.index() as int),
                ).map_values(wrap),
        {
            let ghost i = it.index() as int;
            let ghost seen = views.take(i);
            proof {
                assert(views.take(i + 1).drop_last() =~= seen);
                assert(views.take(i + 1).last() == (pair.0@, pair.1@));
            }
            let (string, probe) = pair;
            match EDElement::from_path(string, probe) {
                Ok(new_element) => {
                    proof {
                        assert((old(self)@.entries + created(seen)).push(new_element@) =~= old(
                            self,
                        )@.entries + created(seen).push(new_element@));
                    }
                    self.add_e_d_element(new_element);
                },
                Err(err) => {
                    let ghost before = failure_views(errors@);
                    errors.push(CreateError::EDElementError(err));
                    proof {
                        assert(failure_views(errors@) =~= before.push(Some(err@)));
                        assert(create_failures(seen).push(err@).map_values(wrap)
                            =~= create_failures(seen).map_values(wrap).push(Some(err@)));
                    }
                },
            }
        }
        assert(views.take(views.len() as int) =~= views);
        errors
    }

    /// What the walk of the directory tree does with the entry `file_path`
    /// of a directory, an object of the given kind.
    pub fn index_entry(&self, file_path: &str, kind: PathKind) -> (r: IndexAction)
        ensures
            r == if self.banlist_view().bans(file_path@) {
                IndexAction::Skip
            } else {
                match kind {
                    PathKind::Directory => IndexAction::Descend,
                    PathKind::File => IndexAction::Emit,
                    PathKind::Link => IndexAction::Emit,
                    PathKind::Other => IndexAction::Report,
                }
            },
    {
        if self.banlist.is_in_banlist(file_path) {
            IndexAction::Skip
        } else {
            match kind {
                PathKind::Directory => IndexAction::Descend,
                PathKind::File => IndexAction::Emit,
                PathKind::Link => IndexAction::Emit,
                PathKind::Other => IndexAction::Report,
            }
        }
    }
}

} // verus!
