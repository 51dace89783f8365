use file_hasher_core::e_d_list::e_d_element::errors::{
    EDElementError, EDElementVerifyError, FileHashingError, VerifyLinkPathError,
};
use file_hasher_core::e_d_list::e_d_element::probe::{
    FileReadError, LinkProbe, PathKind, PathMetadata, PathProbe,
};
use file_hasher_core::e_d_list::e_d_element::{EDElement, EDVariantFields};
use file_hasher_core::e_d_list::errors::{CreateError, VerifyError};
use file_hasher_core::e_d_list::upkeep::{DeleteReason, IndexAction};
use file_hasher_core::e_d_list::EDList;
use file_hasher_core::path_banlist::PathBanlist;
use file_hasher_core::shared::checksum::Checksum;
use file_hasher_core::shared::functions::{blake2_to_checksum, Hasher};
use file_hasher_core::shared::interfacer::YesNo;
use std::io::{Error, ErrorKind};
use std::ops::BitXorAssign;

const HELLO: &str = "324DCF027DD4A30A932C441F365A25E86B173DEFA4B8E58948253471B81B72CF";
const XOR: &str = "39400B8DF8DBCC2B4FE28B1742C869CCD7F028DD882538619FD4B15E8E02C0FF";
const FIN: &str = "12BC78048844EC2F30B0753E6E7035E1F50B76C7EED7F15B149D936736AEEFEC";

fn digest_of(data: &[u8]) -> Checksum {
    let mut hasher = Hasher::new();
    hasher.update(data);
    blake2_to_checksum(hasher)
}

fn gone() -> Error {
    Error::new(ErrorKind::NotFound, "gone")
}

fn file_with(modified_time: u64, content: &[u8]) -> PathProbe {
    PathProbe::File { modified_time, content: Ok(digest_of(content)) }
}

fn link_to(modified_time: u64, target: &str) -> PathProbe {
    PathProbe::Link {
        modified_time,
        link: LinkProbe::Target { target: target.to_string(), reachable: Ok(()) },
    }
}

fn dangling(modified_time: u64, path: &str, target: &str) -> PathProbe {
    PathProbe::Link {
        modified_time,
        link: LinkProbe::Target {
            target: target.to_string(),
            reachable: Err(VerifyLinkPathError::UnableToOpenLinkTarget(
                path.to_string(),
                target.to_string(),
                gone(),
            )),
        },
    }
}

fn found(metadata: PathKind, modified_time: u64) -> Result<PathMetadata, Error> {
    Ok(PathMetadata { kind: metadata, modified_time })
}

fn empty(banned: &[&str]) -> EDList {
    let mut banlist = PathBanlist::new_dummy();
    for prefix in banned {
        banlist.insert(prefix);
    }
    EDList::open_missing(".", YesNo::Yes, banlist).unwrap()
}

fn populated(banned: &[&str]) -> EDList {
    let mut list = empty(banned);
    let errors = list.create(vec![
        ("./a.txt".to_string(), file_with(1000, b"hello")),
        ("./b".to_string(), link_to(1000, "a.txt")),
    ]);
    assert!(errors.is_empty());
    list
}

fn paths(list: &EDList) -> Vec<String> {
    list.get_elements().iter().map(|element| element.get_path().to_string()).collect()
}

fn fold_of(list: &EDList) -> Checksum {
    let mut fold = Checksum::default();
    for element in list.get_elements() {
        fold.bitxor_assign(element.get_hash());
    }
    fold
}

fn file_entry() -> EDElement {
    EDElement::from_path("./a.txt".to_string(), file_with(1000, b"hello")).unwrap()
}

fn link_entry() -> EDElement {
    EDElement::from_path("./b".to_string(), link_to(1000, "a.txt")).unwrap()
}

fn verify_failure(result: Result<(), EDElementError>) -> EDElementVerifyError {
    match result {
        Err(EDElementError::VerifyError(err)) => err,
        other => panic!("{:?}", other),
    }
}

#[test]
fn a_created_manifest_holds_the_file_and_the_link() {
    let list = populated(&[]);
    assert_eq!(paths(&list), vec!["./a.txt", "./b"]);
    assert_eq!(
        list.file_text(),
        format!(
            "LISTVERSION = 1.1\nXORCHECKSUM = {}\nCHECKSUM = {}\n[./a.txt,1000,file({})]\n[./b,1000,link(a.txt)]\n",
            XOR, FIN, HELLO
        )
    );
}

#[test]
fn the_fold_follows_every_entry_that_is_added() {
    let mut list = empty(&[]);
    assert_eq!(*list.get_xor_checksum(), Checksum::default());
    list.create(vec![("./a.txt".to_string(), file_with(1000, b"hello"))]);
    assert_eq!(list.get_xor_checksum(), list.get_elements()[0].get_hash());
    list.create(vec![("./b".to_string(), link_to(1000, "a.txt"))]);
    assert_eq!(list.get_xor_checksum().to_string(), XOR);
    assert_eq!(*list.get_xor_checksum(), fold_of(&list));
}

#[test]
fn an_entry_is_made_from_a_file() {
    let element = file_entry();
    assert_eq!(element.get_path(), "./a.txt");
    assert_eq!(element.get_modified_time(), 1000);
    assert_eq!(element.get_variant(), &EDVariantFields::File { checksum: digest_of(b"hello") });
    assert_eq!(element.to_string(), format!("[./a.txt,1000,file({})]", HELLO));
}

#[test]
fn an_entry_is_made_from_a_link_whose_target_opens() {
    let element = link_entry();
    assert_eq!(element.get_variant(), &EDVariantFields::Link { target: "a.txt".to_string() });
    assert_eq!(element.get_modified_time(), 1000);
}

#[test]
fn no_entry_is_made_without_metadata() {
    match EDElement::from_path("./p".to_string(), PathProbe::MetadataFailed(gone())) {
        Err(EDElementError::GetMetaDataError(path, err)) => {
            assert_eq!(path, "./p");
            assert_eq!(err.kind(), ErrorKind::NotFound);
        }
        other => panic!("{:?}", other),
    }
}

#[test]
fn no_entry_is_made_from_a_file_that_cannot_be_read() {
    let closed = PathProbe::File { modified_time: 1, content: Err(FileReadError::Open(gone())) };
    assert!(matches!(
        EDElement::from_path("./p".to_string(), closed),
        Err(EDElementError::OpenFileError(path, _)) if path == "./p"
    ));
    let broken = PathProbe::File {
        modified_time: 1,
        content: Err(FileReadError::Hash(FileHashingError::from(gone()))),
    };
    assert!(matches!(
        EDElement::from_path("./p".to_string(), broken),
        Err(EDElementError::FileHashingError(path, _)) if path == "./p"
    ));
}

#[test]
fn no_entry_is_made_from_a_link_that_cannot_be_followed() {
    let not_utf8 = PathProbe::Link { modified_time: 1, link: LinkProbe::NotUtf8 };
    assert!(matches!(
        EDElement::from_path("./l".to_string(), not_utf8),
        Err(EDElementError::InvalidUtf8Link(path)) if path == "./l"
    ));
    assert!(matches!(
        EDElement::from_path("./l".to_string(), dangling(1, "./l", "nowhere")),
        Err(EDElementError::VerifyLinkPathError(VerifyLinkPathError::UnableToOpenLinkTarget(
            path,
            target,
            _,
        ))) if path == "./l" && target == "nowhere"
    ));
    let no_parent = PathProbe::Link {
        modified_time: 1,
        link: LinkProbe::Target {
            target: "t".to_string(),
            reachable: Err(VerifyLinkPathError::LinkFileNoParentError(
                "".to_string(),
                "t".to_string(),
            )),
        },
    };
    assert!(matches!(
        EDElement::from_path("".to_string(), no_parent),
        Err(EDElementError::VerifyLinkPathError(VerifyLinkPathError::LinkFileNoParentError(_, _)))
    ));
}

#[test]
fn no_entry_is_made_from_a_directory_or_a_device() {
    assert!(matches!(
        EDElement::from_path("./d".to_string(), PathProbe::Directory { modified_time: 1 }),
        Err(EDElementError::PathNotRegular(path)) if path == "./d"
    ));
    assert!(matches!(
        EDElement::from_path("./dev".to_string(), PathProbe::Other { modified_time: 1 }),
        Err(EDElementError::PathNotRegular(path)) if path == "./dev"
    ));
}

#[test]
fn metadata_that_matches_passes() {
    assert!(file_entry().test_metadata(found(PathKind::File, 1000)).is_ok());
    assert!(file_entry().test_metadata(found(PathKind::Link, 1000)).is_ok());
    assert!(link_entry().test_metadata(found(PathKind::Other, 1000)).is_ok());
}

#[test]
fn a_path_that_is_gone_fails_the_metadata_test() {
    assert!(matches!(
        file_entry().test_metadata(Err(gone())),
        Err(EDElementError::GetMetaDataError(path, _)) if path == "./a.txt"
    ));
}

#[test]
fn a_directory_fails_the_metadata_test() {
    assert!(matches!(
        verify_failure(file_entry().test_metadata(found(PathKind::Directory, 1000))),
        EDElementVerifyError::PathIsDirectory(path) if path == "./a.txt"
    ));
    assert!(matches!(
        verify_failure(file_entry().test_metadata(found(PathKind::Directory, 1))),
        EDElementVerifyError::PathIsDirectory(_)
    ));
}

#[test]
fn another_modification_time_fails_the_metadata_test() {
    assert!(matches!(
        verify_failure(file_entry().test_metadata(found(PathKind::File, 1001))),
        EDElementVerifyError::TimeChanged(path) if path == "./a.txt"
    ));
}

#[test]
fn an_unchanged_file_passes() {
    assert!(file_entry().test_integrity(file_with(1000, b"hello")).is_ok());
}

#[test]
fn changed_content_with_the_old_time_is_reported() {
    assert!(matches!(
        verify_failure(file_entry().test_integrity(file_with(1000, b"world"))),
        EDElementVerifyError::InvalidChecksum(path) if path == "./a.txt"
    ));
}

#[test]
fn a_changed_time_with_the_old_content_is_reported() {
    assert!(matches!(
        verify_failure(file_entry().test_integrity(file_with(2000, b"hello"))),
        EDElementVerifyError::TimeChangedButFileCorrectError(path) if path == "./a.txt"
    ));
}

#[test]
fn changed_content_with_a_changed_time_is_reported() {
    assert!(matches!(
        verify_failure(file_entry().test_integrity(file_with(2000, b"world"))),
        EDElementVerifyError::TimeChangedAndFileChanged(path) if path == "./a.txt"
    ));
}

#[test]
fn a_file_that_cannot_be_read_is_reported() {
    assert!(matches!(
        file_entry().test_integrity(PathProbe::MetadataFailed(gone())),
        Err(EDElementError::GetMetaDataError(path, _)) if path == "./a.txt"
    ));
    let closed = PathProbe::File { modified_time: 1000, content: Err(FileReadError::Open(gone())) };
    assert!(matches!(
        file_entry().test_integrity(closed),
        Err(EDElementError::OpenFileError(path, _)) if path == "./a.txt"
    ));
    let broken = PathProbe::File {
        modified_time: 1000,
        content: Err(FileReadError::Hash(FileHashingError::from(gone()))),
    };
    assert!(matches!(
        file_entry().test_integrity(broken),
        Err(EDElementError::FileHashingError(path, _)) if path == "./a.txt"
    ));
}

#[test]
fn an_unchanged_link_passes() {
    assert!(link_entry().test_integrity(link_to(1000, "a.txt")).is_ok());
}

#[test]
fn a_changed_link_is_reported() {
    assert!(matches!(
        verify_failure(link_entry().test_integrity(link_to(1000, "other"))),
        EDElementVerifyError::LinkTargetInvalid(path) if path == "./b"
    ));
    assert!(matches!(
        verify_failure(link_entry().test_integrity(link_to(1, "a.txt"))),
        EDElementVerifyError::LinkTargetValidTimeChanged(path) if path == "./b"
    ));
    assert!(matches!(
        verify_failure(link_entry().test_integrity(link_to(1, "other"))),
        EDElementVerifyError::LinkTargetInvalidTimeChanged(path) if path == "./b"
    ));
}

#[test]
fn a_link_that_leads_nowhere_is_reported() {
    assert!(matches!(
        link_entry().test_integrity(dangling(1000, "./b", "a.txt")),
        Err(EDElementError::VerifyLinkPathError(VerifyLinkPathError::UnableToOpenLinkTarget(
            ..
        )))
    ));
    assert!(matches!(
        verify_failure(link_entry().test_integrity(dangling(1, "./b", "a.txt"))),
        EDElementVerifyError::LinkTargetValidTimeChanged(_)
    ));
    let not_utf8 = PathProbe::Link { modified_time: 1000, link: LinkProbe::NotUtf8 };
    assert!(matches!(
        link_entry().test_integrity(not_utf8),
        Err(EDElementError::LinkTargetInvalidUtf8(path)) if path == "./b"
    ));
}

#[test]
fn verification_passes_an_untouched_tree() {
    let list = populated(&[]);
    let errors = list.verify(None, vec![file_with(1000, b"hello"), link_to(1000, "a.txt")]);
    assert!(errors.is_empty());
}

#[test]
fn verification_finds_overwritten_content() {
    let list = populated(&[]);
    let errors = list.verify(None, vec![file_with(1000, b"world"), link_to(1000, "a.txt")]);
    assert_eq!(errors.len(), 1);
    assert!(matches!(
        &errors[0],
        VerifyError::EDElementError(EDElementError::VerifyError(
            EDElementVerifyError::InvalidChecksum(path)
        )) if path == "./a.txt"
    ));
}

#[test]
fn verification_finds_a_touched_file() {
    let list = populated(&[]);
    let errors = list.verify(None, vec![file_with(1234, b"hello"), link_to(1000, "a.txt")]);
    assert_eq!(errors.len(), 1);
    assert!(matches!(
        &errors[0],
        VerifyError::EDElementError(EDElementError::VerifyError(
            EDElementVerifyError::TimeChangedButFileCorrectError(path)
        )) if path == "./a.txt"
    ));
}

#[test]
fn verification_goes_on_after_a_finding() {
    let list = populated(&["./b"]);
    let errors = list.verify(
        None,
        vec![PathProbe::MetadataFailed(gone()), link_to(1000, "elsewhere")],
    );
    assert_eq!(errors.len(), 3);
    assert!(matches!(
        &errors[0],
        VerifyError::EDElementError(EDElementError::GetMetaDataError(path, _)) if path == "./a.txt"
    ));
    assert!(matches!(
        &errors[1],
        VerifyError::EDElementError(EDElementError::VerifyError(
            EDElementVerifyError::LinkTargetInvalid(path)
        )) if path == "./b"
    ));
    assert!(matches!(&errors[2], VerifyError::PathInBanlist(path) if path == "./b"));
}

#[test]
fn verification_reports_a_banned_path_that_is_sound() {
    let list = populated(&["./a"]);
    let errors = list.verify(None, vec![file_with(1000, b"hello"), link_to(1000, "a.txt")]);
    assert_eq!(errors.len(), 1);
    assert!(matches!(&errors[0], VerifyError::PathInBanlist(path) if path == "./a.txt"));
}

#[test]
fn verification_under_a_prefix_looks_at_that_prefix_only() {
    let mut list = populated(&[]);
    list.create(vec![("sub/c".to_string(), file_with(5, b"c"))]);
    assert_eq!(list.verify_selection(None), vec![0, 1, 2]);
    assert_eq!(list.verify_selection(Some("./")), vec![0, 1]);
    assert_eq!(list.verify_selection(Some("sub/")), vec![2]);
    assert_eq!(list.verify_selection(Some("nothing")), Vec::<usize>::new());
    assert_eq!(list.verify_selection(Some("")), vec![0, 1, 2]);
    let errors = list.verify(Some("sub/"), vec![file_with(5, b"changed")]);
    assert_eq!(errors.len(), 1);
    assert!(matches!(
        &errors[0],
        VerifyError::EDElementError(EDElementError::VerifyError(
            EDElementVerifyError::InvalidChecksum(path)
        )) if path == "sub/c"
    ));
}

#[test]
fn verification_of_links_looks_at_links_only() {
    let list = populated(&[]);
    assert_eq!(list.verify_links_selection(), vec![1]);
    assert!(list.verify_links(vec![link_to(1000, "a.txt")]).is_empty());
    let errors = list.verify_links(vec![link_to(1000, "b.txt")]);
    assert_eq!(errors.len(), 1);
}

#[test]
fn deletion_is_proposed_for_banned_and_for_failing_paths() {
    let mut list = populated(&["./b"]);
    list.create(vec![("./c".to_string(), file_with(7, b"c"))]);
    let reasons = list.delete_candidates(vec![
        found(PathKind::File, 1000),
        Err(gone()),
        found(PathKind::File, 8),
    ]);
    assert_eq!(reasons.len(), 3);
    assert!(reasons[0].is_none());
    assert!(matches!(&reasons[1], Some(DeleteReason::InBanlist(path)) if path == "./b"));
    assert!(matches!(
        &reasons[2],
        Some(DeleteReason::Failed(EDElementError::VerifyError(
            EDElementVerifyError::TimeChanged(path)
        ))) if path == "./c"
    ));
    let reasons = list.delete_candidates(vec![
        Err(gone()),
        found(PathKind::Link, 1000),
        found(PathKind::Directory, 7),
    ]);
    assert!(matches!(
        &reasons[0],
        Some(DeleteReason::Failed(EDElementError::GetMetaDataError(path, _))) if path == "./a.txt"
    ));
    assert!(matches!(&reasons[1], Some(DeleteReason::InBanlist(_))));
    assert!(matches!(
        &reasons[2],
        Some(DeleteReason::Failed(EDElementError::VerifyError(
            EDElementVerifyError::PathIsDirectory(_)
        )))
    ));
}

#[test]
fn deleted_entries_leave_the_list_and_the_fold() {
    let mut list = populated(&[]);
    list.create(vec![("./c".to_string(), file_with(7, b"c"))]);
    let deleted = list.delete(&vec![true, false, true]);
    assert_eq!(deleted, vec!["./a.txt", "./c"]);
    assert_eq!(paths(&list), vec!["./b"]);
    assert_eq!(list.get_xor_checksum(), list.get_elements()[0].get_hash());
    assert_eq!(list.delete(&vec![false]), Vec::<String>::new());
    assert_eq!(list.delete(&vec![true]), vec!["./b"]);
    assert_eq!(*list.get_xor_checksum(), Checksum::default());
    assert_eq!(list.delete(&Vec::new()), Vec::<String>::new());
}

#[test]
fn what_stays_after_an_agreed_deletion_is_sound() {
    let mut list = populated(&["./b"]);
    list.create(vec![
        ("./c".to_string(), file_with(7, b"c")),
        ("./d".to_string(), file_with(8, b"d")),
    ]);
    let metadata = || {
        vec![
            found(PathKind::File, 1000),
            found(PathKind::Link, 1000),
            Err(gone()),
            found(PathKind::File, 8),
        ]
    };
    let doomed: Vec<bool> =
        list.delete_candidates(metadata()).iter().map(|reason| reason.is_some()).collect();
    assert_eq!(doomed, vec![false, true, true, false]);
    assert_eq!(list.delete(&doomed), vec!["./b", "./c"]);
    assert_eq!(paths(&list), vec!["./a.txt", "./d"]);
    let again = list.delete_candidates(vec![found(PathKind::File, 1000), found(PathKind::File, 8)]);
    assert!(again.iter().all(|reason| reason.is_none()));
    assert_eq!(*list.get_xor_checksum(), fold_of(&list));
}

#[test]
fn only_paths_that_are_new_are_pending() {
    let list = populated(&[]);
    let indexed = vec!["./b", "./c", "./a.txt", "./a.txt2", "./c"];
    let pending = list.pending_paths(indexed.iter().map(|path| path.to_string()).collect());
    assert_eq!(pending, vec!["./c", "./a.txt2", "./c"]);
    assert_eq!(empty(&[]).pending_paths(vec!["x".to_string()]), vec!["x"]);
    assert_eq!(list.pending_paths(Vec::new()), Vec::<String>::new());
}

#[test]
fn creation_adds_what_can_be_hashed_and_reports_the_rest() {
    let mut list = populated(&[]);
    let errors = list.create(vec![
        ("./c".to_string(), file_with(1, b"c")),
        ("./gone".to_string(), PathProbe::MetadataFailed(gone())),
        ("./d".to_string(), link_to(2, "c")),
        ("./dir".to_string(), PathProbe::Directory { modified_time: 3 }),
        ("./e".to_string(), file_with(3, b"e")),
    ]);
    assert_eq!(paths(&list), vec!["./a.txt", "./b", "./c", "./d", "./e"]);
    assert_eq!(errors.len(), 2);
    assert!(matches!(
        &errors[0],
        CreateError::EDElementError(EDElementError::GetMetaDataError(path, _)) if path == "./gone"
    ));
    assert!(matches!(
        &errors[1],
        CreateError::EDElementError(EDElementError::PathNotRegular(path)) if path == "./dir"
    ));
    assert_eq!(*list.get_xor_checksum(), fold_of(&list));
}

#[test]
fn the_walk_leaves_banned_paths_out() {
    let list = empty(&["./logs"]);
    assert_eq!(list.index_entry("./logs-backup", PathKind::Directory), IndexAction::Skip);
    assert_eq!(list.index_entry("./logs-backup/x", PathKind::File), IndexAction::Skip);
    assert_eq!(list.index_entry("./logs2/y", PathKind::File), IndexAction::Skip);
    assert_eq!(list.index_entry("./logs", PathKind::Directory), IndexAction::Skip);
    assert_eq!(list.index_entry("./log", PathKind::File), IndexAction::Emit);
    let strict = empty(&["./logs/"]);
    assert_eq!(strict.index_entry("./logs-backup", PathKind::Directory), IndexAction::Descend);
    assert_eq!(strict.index_entry("./logs-backup/x", PathKind::File), IndexAction::Emit);
    assert_eq!(strict.index_entry("./logs2/y", PathKind::File), IndexAction::Emit);
    assert_eq!(strict.index_entry("./logs/x", PathKind::File), IndexAction::Skip);
}

#[test]
fn the_walk_goes_by_the_kind_of_what_it_meets() {
    let list = empty(&[]);
    assert_eq!(list.index_entry("./d", PathKind::Directory), IndexAction::Descend);
    assert_eq!(list.index_entry("./f", PathKind::File), IndexAction::Emit);
    assert_eq!(list.index_entry("./l", PathKind::Link), IndexAction::Emit);
    assert_eq!(list.index_entry("./s", PathKind::Other), IndexAction::Report);
}

#[test]
fn a_probe_of_another_kind_never_matches() {
    assert!(matches!(
        verify_failure(file_entry().test_integrity(link_to(1000, "a.txt"))),
        EDElementVerifyError::LinkTargetInvalid(path) if path == "./a.txt"
    ));
    assert!(matches!(
        verify_failure(link_entry().test_integrity(file_with(1000, b"hello"))),
        EDElementVerifyError::InvalidChecksum(path) if path == "./b"
    ));
    assert!(matches!(
        verify_failure(link_entry().test_integrity(file_with(1, b"hello"))),
        EDElementVerifyError::TimeChangedAndFileChanged(_)
    ));
    assert!(matches!(
        file_entry().test_integrity(PathProbe::Directory { modified_time: 1000 }),
        Err(EDElementError::PathNotRegular(path)) if path == "./a.txt"
    ));
    assert!(matches!(
        link_entry().test_integrity(PathProbe::Other { modified_time: 1000 }),
        Err(EDElementError::PathNotRegular(path)) if path == "./b"
    ));
}
