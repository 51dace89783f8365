use file_hasher_core::path_banlist::errors::OpenPathBanlistError;
use file_hasher_core::path_banlist::{LineType, PathBanlist};
use file_hasher_core::shared::lines::lines_of;

const DEFAULT_CHECKSUM: &str =
    "2BFE174E8FBC12AE324D922306C1994F3E65F28A9D4E1C94E0C6D216F8C5BF3D";
const LOGS_CHECKSUM: &str = "015539B239303E892E9E1E9D2A06F1D294F80DD1842F3332BC08552488254DAA";

fn banning(prefixes: &[&str]) -> PathBanlist {
    let mut banlist = PathBanlist::new_dummy();
    for prefix in prefixes {
        banlist.insert(prefix);
    }
    banlist
}

fn lines(text: &[&str]) -> Vec<String> {
    text.iter().map(|line| line.to_string()).collect()
}

#[test]
fn a_dummy_bans_nothing() {
    let banlist = PathBanlist::new_dummy();
    assert!(!banlist.is_in_banlist(""));
    assert!(!banlist.is_in_banlist("./lost+found"));
}

#[test]
fn a_prefix_bans_itself_and_what_starts_with_it() {
    let banlist = banning(&["./logs"]);
    assert!(banlist.is_in_banlist("./logs"));
    assert!(banlist.is_in_banlist("./logs/today"));
    assert!(!banlist.is_in_banlist("./log"));
    assert!(!banlist.is_in_banlist("./"));
    assert!(!banlist.is_in_banlist(""));
    assert!(!banlist.is_in_banlist("x./logs"));
}

#[test]
fn banning_goes_by_characters_not_by_components() {
    let banlist = banning(&["./logs"]);
    assert!(banlist.is_in_banlist("./logs-backup/x"));
    assert!(banlist.is_in_banlist("./logs2/y"));
    let strict = banning(&["./logs/"]);
    assert!(!strict.is_in_banlist("./logs-backup/x"));
    assert!(!strict.is_in_banlist("./logs2/y"));
    assert!(!strict.is_in_banlist("./logs"));
    assert!(strict.is_in_banlist("./logs/x"));
}

#[test]
fn whatever_is_banned_stays_banned_with_a_suffix() {
    let banlist = banning(&["a", "bc/", "\u{e9}t\u{e9}"]);
    for path in ["a", "bc/", "bc/d", "\u{e9}t\u{e9}", "abc"] {
        assert!(banlist.is_in_banlist(path));
        for suffix in ["", "/", "x", "\u{1f600}", "/deep/down"] {
            assert!(banlist.is_in_banlist(&format!("{}{}", path, suffix)));
        }
    }
}

#[test]
fn a_shorter_prefix_takes_the_place_of_a_longer_one() {
    let banlist = banning(&["abc", "ab"]);
    assert!(banlist.is_in_banlist("abc"));
    assert!(banlist.is_in_banlist("abd"));
    assert!(banlist.is_in_banlist("ab"));
    assert!(!banlist.is_in_banlist("a"));
}

#[test]
fn a_longer_prefix_adds_nothing_to_a_shorter_one() {
    let banlist = banning(&["ab", "abc"]);
    assert!(banlist.is_in_banlist("ab"));
    assert!(banlist.is_in_banlist("abd"));
    assert!(!banlist.is_in_banlist("a"));
}

#[test]
fn prefixes_may_share_their_beginning() {
    let banlist = banning(&["abc", "abd", "x"]);
    assert!(banlist.is_in_banlist("abc1"));
    assert!(banlist.is_in_banlist("abd"));
    assert!(!banlist.is_in_banlist("abe"));
    assert!(!banlist.is_in_banlist("ab"));
    assert!(banlist.is_in_banlist("xyz"));
}

#[test]
fn an_empty_prefix_bans_nothing() {
    let banlist = banning(&[""]);
    assert!(!banlist.is_in_banlist(""));
    assert!(!banlist.is_in_banlist("a"));
}

#[test]
fn lines_are_comments_checksums_or_prefixes() {
    assert!(matches!(PathBanlist::identify_line(""), LineType::Comment));
    assert!(matches!(PathBanlist::identify_line("# CHECKSUM = 1"), LineType::Comment));
    assert!(matches!(PathBanlist::identify_line("CHECKSUM = AB"), LineType::Checksum("AB")));
    assert!(matches!(PathBanlist::identify_line("CHECKSUM = "), LineType::Checksum("")));
    assert!(matches!(PathBanlist::identify_line("CHECKSUM ="), LineType::BannedPath("CHECKSUM =")));
    assert!(matches!(PathBanlist::identify_line(" #x"), LineType::BannedPath(" #x")));
    assert!(matches!(PathBanlist::identify_line("./a"), LineType::BannedPath("./a")));
}

#[test]
fn a_file_with_the_right_checksum_opens() {
    let checksum = format!("CHECKSUM = {}", LOGS_CHECKSUM);
    let banlist = PathBanlist::open(&lines(&["# what to leave out", "", "./logs", &checksum]))
        .unwrap();
    assert!(banlist.is_in_banlist("./logs-backup/x"));
    assert!(!banlist.is_in_banlist("./keep"));
    assert!(!banlist.is_in_banlist("# what to leave out"));
    assert!(!banlist.is_in_banlist("CHECKSUM = "));
}

#[test]
fn the_checksum_covers_the_prefixes_in_their_order() {
    let checksum = format!("CHECKSUM = {}", DEFAULT_CHECKSUM);
    let right = lines(&["./lost+found", &checksum, "./.Trash-1000/", "./file_hasher_files/"]);
    assert!(PathBanlist::open(&right).is_ok());
    let swapped = lines(&["./.Trash-1000/", "./lost+found", "./file_hasher_files/", &checksum]);
    assert!(matches!(
        PathBanlist::open(&swapped),
        Err(OpenPathBanlistError::InvalidChecksum(_))
    ));
}

#[test]
fn a_wrong_checksum_is_answered_with_the_right_one() {
    let wrong = format!("CHECKSUM = {}", DEFAULT_CHECKSUM);
    match PathBanlist::open(&lines(&["./logs", &wrong])) {
        Err(OpenPathBanlistError::InvalidChecksum(expected)) => assert_eq!(expected, LOGS_CHECKSUM),
        other => panic!("{:?}", other),
    }
    let lower = format!("CHECKSUM = {}", LOGS_CHECKSUM.to_lowercase());
    assert!(matches!(
        PathBanlist::open(&lines(&["./logs", &lower])),
        Err(OpenPathBanlistError::InvalidChecksum(_))
    ));
}

#[test]
fn a_missing_checksum_is_answered_with_the_right_one() {
    match PathBanlist::open(&lines(&["./logs", "# no checksum"])) {
        Err(OpenPathBanlistError::MissingChecksum(expected)) => assert_eq!(expected, LOGS_CHECKSUM),
        other => panic!("{:?}", other),
    }
    assert!(matches!(
        PathBanlist::open(&Vec::new()),
        Err(OpenPathBanlistError::MissingChecksum(_))
    ));
}

#[test]
fn a_second_checksum_is_refused() {
    let checksum = format!("CHECKSUM = {}", LOGS_CHECKSUM);
    assert!(matches!(
        PathBanlist::open(&lines(&["./logs", &checksum, &checksum])),
        Err(OpenPathBanlistError::DuplicateChecksum)
    ));
    assert!(matches!(
        PathBanlist::open(&lines(&["CHECKSUM = 1", "CHECKSUM = 2", "./logs"])),
        Err(OpenPathBanlistError::DuplicateChecksum)
    ));
}

#[test]
fn a_new_banlist_holds_the_defaults_and_their_checksum() {
    let text = PathBanlist::create();
    assert_eq!(
        text,
        format!(
            "./lost+found\n./.Trash-1000/\n./file_hasher_files/\nCHECKSUM = {}",
            DEFAULT_CHECKSUM
        )
    );
}

#[test]
fn a_new_banlist_opens() {
    let banlist = PathBanlist::open(&lines_of(&PathBanlist::create())).unwrap();
    assert!(banlist.is_in_banlist("./lost+found"));
    assert!(banlist.is_in_banlist("./lost+found_archive"));
    assert!(banlist.is_in_banlist("./.Trash-1000/x"));
    assert!(!banlist.is_in_banlist("./.Trash-1000"));
    assert!(banlist.is_in_banlist("./file_hasher_files/file_hashes"));
    assert!(!banlist.is_in_banlist("./home"));
}

#[test]
fn a_folder_is_banned_with_its_slash() {
    let banlist = banning(&["./logs/", "./tmp"]);
    assert!(banlist.is_folder_in_banlist("./logs"));
    assert!(banlist.is_folder_in_banlist("./logs/old"));
    assert!(!banlist.is_folder_in_banlist("./log"));
    assert!(banlist.is_folder_in_banlist("./tmp"));
    assert!(banlist.is_folder_in_banlist("./tmp2"));
    assert!(!banlist.is_folder_in_banlist("./keep"));
}
