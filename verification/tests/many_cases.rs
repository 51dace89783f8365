use file_hasher_core::e_d_list::e_d_element::{EDElement, EDVariantFields};
use file_hasher_core::e_d_list::ordering::{order_paths, PathOrder};
use file_hasher_core::e_d_list::EDList;
use file_hasher_core::path_banlist::PathBanlist;
use file_hasher_core::shared::interfacer::YesNo;
use file_hasher_core::shared::lines::lines_of;
use file_hasher_core::shared::text::same_text;
use std::cmp::Ordering;
use std::io::BufRead;

/// Every text of at most `length` characters over `alphabet`.
fn texts_over(alphabet: &[char], length: usize) -> Vec<String> {
    let mut all = vec![String::new()];
    let mut last = vec![String::new()];
    for _ in 0..length {
        let mut next = Vec::new();
        for text in &last {
            for c in alphabet {
                let mut longer = text.clone();
                longer.push(*c);
                next.push(longer);
            }
        }
        all.extend(next.iter().cloned());
        last = next;
    }
    all
}

fn by_components(a: &str, b: &str) -> Ordering {
    a.split('/').cmp(b.split('/'))
}

fn as_ordering(order: PathOrder) -> Ordering {
    match order {
        PathOrder::Less => Ordering::Less,
        PathOrder::Equal => Ordering::Equal,
        PathOrder::Greater => Ordering::Greater,
    }
}

#[test]
fn paths_compare_as_their_lists_of_components() {
    let paths = texts_over(&['a', 'b', '/', '-', '\u{e9}'], 4);
    for a in &paths {
        for b in &paths {
            assert_eq!(as_ordering(order_paths(a, b)), by_components(a, b), "{:?} {:?}", a, b);
        }
    }
}

#[test]
fn sorting_agrees_with_sorting_by_components() {
    let mut wanted = texts_over(&['b', '/', 'a', '.'], 4);
    wanted.reverse();
    let mut list = EDList::open_missing(".", YesNo::Yes, PathBanlist::new_dummy()).unwrap();
    let found = wanted
        .iter()
        .map(|path| {
            (
                path.clone(),
                file_hasher_core::e_d_list::e_d_element::probe::PathProbe::Link {
                    modified_time: 1,
                    link: file_hasher_core::e_d_list::e_d_element::probe::LinkProbe::Target {
                        target: "t".to_string(),
                        reachable: Ok(()),
                    },
                },
            )
        })
        .collect();
    assert!(list.create(found).is_empty());
    list.sort();
    wanted.sort_by(|a, b| by_components(a, b));
    let sorted: Vec<&str> = list.get_elements().iter().map(|element| element.get_path()).collect();
    assert_eq!(sorted, wanted);
}

#[test]
fn every_entry_is_read_back_from_its_line() {
    let texts = texts_over(&['a', ',', '\\', ')', ']', '\u{e9}'], 3);
    for (i, text) in texts.iter().enumerate() {
        let element = EDElement::from_internal(
            text.clone(),
            i as u64 * 1_000_000_007,
            EDVariantFields::Link { target: texts[texts.len() - 1 - i].clone() },
        );
        let read = EDElement::from_str(&element.to_string()).unwrap();
        assert_eq!(read.get_path(), element.get_path());
        assert_eq!(read.get_modified_time(), element.get_modified_time());
        assert_eq!(read.get_variant(), element.get_variant());
        assert_eq!(read.get_hash(), element.get_hash());
    }
}

#[test]
fn a_path_is_banned_when_it_starts_with_a_banned_prefix() {
    let prefixes = ["ab", "b/", "", "\u{e9}", "aab", "ab/a"];
    let mut banlist = PathBanlist::new_dummy();
    for prefix in prefixes {
        banlist.insert(prefix);
    }
    for path in texts_over(&['a', 'b', '/', '\u{e9}'], 5) {
        let expected = prefixes.iter().any(|prefix| !prefix.is_empty() && path.starts_with(prefix));
        assert_eq!(banlist.is_in_banlist(&path), expected, "{:?}", path);
    }
}

#[test]
fn lines_are_those_of_the_standard_library() {
    for text in texts_over(&['a', '\n', '\r', '\u{e9}'], 6) {
        let expected: Vec<String> = text.as_bytes().lines().map(|line| line.unwrap()).collect();
        assert_eq!(lines_of(&text), expected, "{:?}", text);
    }
}

#[test]
fn texts_are_the_same_when_they_are_equal() {
    let texts = texts_over(&['a', '\u{e9}', '\u{1f600}'], 3);
    for a in &texts {
        for b in &texts {
            assert_eq!(same_text(a, b), a == b);
        }
    }
}
