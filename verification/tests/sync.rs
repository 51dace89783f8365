use file_hasher_core::e_d_list::e_d_element::probe::{LinkProbe, PathProbe};
use file_hasher_core::e_d_list::e_d_element::{EDElement, EDVariantFields};
use file_hasher_core::e_d_list::sync::{side_of, FileOperation, SyncPlan};
use file_hasher_core::e_d_list::EDList;
use file_hasher_core::path_banlist::PathBanlist;
use file_hasher_core::shared::checksum::Checksum;
use file_hasher_core::shared::constants::TMPCOPYDIR;
use file_hasher_core::shared::functions::{blake2_to_checksum, Hasher};
use file_hasher_core::shared::interfacer::YesNo;
use itertools::Either;
use std::ops::BitXorAssign;

fn digest_of(data: &[u8]) -> Checksum {
    let mut hasher = Hasher::new();
    hasher.update(data);
    blake2_to_checksum(hasher)
}

fn file(path: &str, modified_time: u64, content: &[u8]) -> (String, PathProbe) {
    (path.to_string(), PathProbe::File { modified_time, content: Ok(digest_of(content)) })
}

fn link(path: &str, modified_time: u64, target: &str) -> (String, PathProbe) {
    (
        path.to_string(),
        PathProbe::Link {
            modified_time,
            link: LinkProbe::Target { target: target.to_string(), reachable: Ok(()) },
        },
    )
}

fn list_of(found: Vec<(String, PathProbe)>) -> EDList {
    let mut list = EDList::open_missing(".", YesNo::Yes, PathBanlist::new_dummy()).unwrap();
    assert!(list.create(found).is_empty());
    list
}

fn paths(list: &EDList) -> Vec<String> {
    list.get_elements().iter().map(|element| element.get_path().to_string()).collect()
}

fn fold_of(list: &EDList) -> Checksum {
    let mut fold = Checksum::default();
    for element in list.get_elements() {
        fold.bitxor_assign(element.get_hash());
    }
    fold
}

fn shown(operations: &[FileOperation]) -> Vec<String> {
    operations
        .iter()
        .map(|operation| match operation {
            FileOperation::Delete(path) => format!("delete {}", path),
            FileOperation::Move { from, to } => format!("move {} -> {}", from, to),
            FileOperation::Copy { from, to } => format!("copy {} -> {}", from, to),
        })
        .collect()
}

fn planned(target: &mut EDList, source: &EDList) -> SyncPlan {
    let relative = source.internal_relative_checksum("sub/", true).unwrap();
    let negated = target.internal_negated_relative_checksum("mirror/");
    let plan = target.sync(source, "/src/", "sub/", "mirror/").unwrap();
    assert_eq!(target.internal_relative_checksum("mirror/", true).unwrap(), relative);
    assert_eq!(target.internal_negated_relative_checksum("mirror/"), negated);
    assert_eq!(*target.get_xor_checksum(), fold_of(target));
    plan
}

fn none() -> Vec<String> {
    Vec::new()
}

#[test]
fn what_the_target_lacks_is_copied() {
    let source = list_of(vec![file("sub/x", 5, b"x"), link("sub/y", 6, "x")]);
    let mut target = list_of(vec![file("keep/z", 7, b"z")]);
    let kept = target.get_elements()[0].clone();
    let plan = planned(&mut target, &source);
    assert_eq!(paths(&target), vec!["keep/z", "mirror/x", "mirror/y"]);
    assert_eq!(shown(&plan.pre_file_operations), none());
    assert_eq!(
        shown(&plan.post_file_operations),
        vec!["copy /src/sub/x -> mirror/x", "copy /src/sub/y -> mirror/y"]
    );
    assert!(!plan.files_moved);
    assert_eq!(target.get_elements()[0].get_hash(), kept.get_hash());
    let copied = &target.get_elements()[1];
    assert_eq!(copied.get_modified_time(), 5);
    assert_eq!(copied.get_variant(), &EDVariantFields::File { checksum: digest_of(b"x") });
    assert_eq!(
        copied.get_hash(),
        EDElement::from_internal(
            "mirror/x".to_string(),
            5,
            EDVariantFields::File { checksum: digest_of(b"x") }
        )
        .get_hash()
    );
    assert_eq!(
        target.get_elements()[2].get_variant(),
        &EDVariantFields::Link { target: "x".to_string() }
    );
}

#[test]
fn what_is_in_place_already_stays() {
    let source = list_of(vec![file("sub/x", 5, b"x"), link("sub/deep/y", 6, "x")]);
    let mut target = list_of(vec![
        link("mirror/deep/y", 6, "x"),
        file("keep/z", 7, b"z"),
        file("mirror/x", 5, b"x"),
    ]);
    let plan = planned(&mut target, &source);
    assert_eq!(paths(&target), vec!["keep/z", "mirror/x", "mirror/deep/y"]);
    assert_eq!(shown(&plan.pre_file_operations), none());
    assert_eq!(shown(&plan.post_file_operations), none());
    assert!(!plan.files_moved);
}

#[test]
fn what_lies_elsewhere_below_the_target_is_renamed() {
    let source = list_of(vec![file("sub/new/x", 5, b"x")]);
    let mut target = list_of(vec![file("mirror/old/x", 5, b"x"), file("keep/z", 7, b"z")]);
    let plan = planned(&mut target, &source);
    assert_eq!(paths(&target), vec!["keep/z", "mirror/new/x"]);
    assert_eq!(
        shown(&plan.pre_file_operations),
        vec![format!("move mirror/old/x -> {}new/x", TMPCOPYDIR)]
    );
    assert_eq!(
        shown(&plan.post_file_operations),
        vec![format!("move {}new/x -> mirror/new/x", TMPCOPYDIR)]
    );
    assert!(plan.files_moved);
}

#[test]
fn another_time_or_content_is_no_match() {
    let source = list_of(vec![file("sub/x", 5, b"x")]);
    let mut target = list_of(vec![
        file("mirror/a", 6, b"x"),
        file("mirror/b", 5, b"y"),
        link("mirror/c", 5, "x"),
    ]);
    let plan = planned(&mut target, &source);
    assert_eq!(paths(&target), vec!["mirror/x"]);
    assert_eq!(
        shown(&plan.pre_file_operations),
        vec!["delete mirror/a", "delete mirror/b", "delete mirror/c"]
    );
    assert_eq!(shown(&plan.post_file_operations), vec!["copy /src/sub/x -> mirror/x"]);
    assert!(!plan.files_moved);
}

#[test]
fn what_the_source_lacks_is_deleted() {
    let source = list_of(vec![file("other/x", 5, b"x")]);
    let mut target = list_of(vec![
        file("mirror/a", 1, b"a"),
        file("keep/z", 7, b"z"),
        link("mirror/b", 2, "a"),
    ]);
    let plan = planned(&mut target, &source);
    assert_eq!(paths(&target), vec!["keep/z"]);
    assert_eq!(shown(&plan.pre_file_operations), vec!["delete mirror/a", "delete mirror/b"]);
    assert_eq!(shown(&plan.post_file_operations), none());
}

#[test]
fn an_exact_match_goes_before_a_rename() {
    let source = list_of(vec![file("sub/one", 5, b"x"), file("sub/two", 5, b"x")]);
    let mut target = list_of(vec![
        file("mirror/three", 5, b"x"),
        file("mirror/two", 5, b"x"),
        file("mirror/four", 5, b"x"),
    ]);
    let plan = planned(&mut target, &source);
    assert_eq!(paths(&target), vec!["mirror/one", "mirror/two"]);
    assert_eq!(
        shown(&plan.pre_file_operations),
        vec![format!("move mirror/four -> {}one", TMPCOPYDIR), "delete mirror/three".to_string()]
    );
    assert_eq!(
        shown(&plan.post_file_operations),
        vec![format!("move {}one -> mirror/one", TMPCOPYDIR)]
    );
    assert!(plan.files_moved);
}

#[test]
fn a_rename_takes_the_last_entry_with_the_content() {
    let source = list_of(vec![file("sub/n1", 5, b"x"), file("sub/n2", 5, b"x")]);
    let mut target = list_of(vec![
        file("mirror/o1", 5, b"x"),
        file("mirror/o2", 5, b"x"),
        file("mirror/o3", 5, b"x"),
    ]);
    let plan = planned(&mut target, &source);
    assert_eq!(
        shown(&plan.pre_file_operations),
        vec![
            format!("move mirror/o3 -> {}n1", TMPCOPYDIR),
            format!("move mirror/o2 -> {}n2", TMPCOPYDIR),
            "delete mirror/o1".to_string(),
        ]
    );
    assert_eq!(paths(&target), vec!["mirror/n1", "mirror/n2"]);
}

#[test]
fn renames_copies_and_deletions_go_together() {
    let source = list_of(vec![
        file("sub/stay", 1, b"s"),
        file("outside", 9, b"o"),
        file("sub/moved", 2, b"m"),
        link("sub/fresh", 3, "stay"),
    ]);
    let mut target = list_of(vec![
        file("mirror/gone", 8, b"g"),
        file("keep/z", 7, b"z"),
        file("mirror/was", 2, b"m"),
        file("mirror/stay", 1, b"s"),
    ]);
    let plan = planned(&mut target, &source);
    assert_eq!(paths(&target), vec!["keep/z", "mirror/stay", "mirror/moved", "mirror/fresh"]);
    assert_eq!(
        shown(&plan.pre_file_operations),
        vec![format!("move mirror/was -> {}moved", TMPCOPYDIR), "delete mirror/gone".to_string()]
    );
    assert_eq!(
        shown(&plan.post_file_operations),
        vec![
            format!("move {}moved -> mirror/moved", TMPCOPYDIR),
            "copy /src/sub/fresh -> mirror/fresh".to_string(),
        ]
    );
    assert!(plan.files_moved);
}

#[test]
fn an_empty_source_empties_the_target_prefix() {
    let source = list_of(Vec::new());
    let mut target = list_of(vec![file("mirror/a", 1, b"a")]);
    let plan = planned(&mut target, &source);
    assert!(target.get_elements().is_empty());
    assert_eq!(*target.get_xor_checksum(), Checksum::default());
    assert_eq!(shown(&plan.pre_file_operations), vec!["delete mirror/a"]);
}

#[test]
fn the_source_is_left_as_it_was() {
    let source = list_of(vec![file("sub/x", 5, b"x")]);
    let text = source.file_text();
    let mut target = list_of(Vec::new());
    planned(&mut target, &source);
    assert_eq!(source.file_text(), text);
}

#[test]
fn a_plan_that_is_turned_down_is_undone() {
    let source = list_of(vec![file("sub/x", 5, b"x")]);
    let mut target = list_of(vec![file("mirror/a", 1, b"a"), file("keep/z", 7, b"z")]);
    let text = target.file_text();
    let snapshot = target.snapshot();
    planned(&mut target, &source);
    assert_ne!(target.file_text(), text);
    target.restore(snapshot);
    assert_eq!(target.file_text(), text);
}

#[test]
fn an_entry_falls_on_one_side_of_a_prefix() {
    let below = EDElement::from_internal(
        "mirror/x".to_string(),
        1,
        EDVariantFields::Link { target: "t".to_string() },
    );
    let outside = EDElement::from_internal(
        "mirro/x".to_string(),
        1,
        EDVariantFields::Link { target: "t".to_string() },
    );
    assert!(matches!(side_of(below, "mirror/"), Either::Right(element) if element.get_path() == "mirror/x"));
    assert!(matches!(side_of(outside, "mirror/"), Either::Left(element) if element.get_path() == "mirro/x"));
}
