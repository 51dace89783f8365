use file_hasher_core::e_d_list::e_d_element::{key_of_variant, EDVariantFields};
use file_hasher_core::shared::checksum::Checksum;
use file_hasher_core::shared::key_index::{key_of_text, KeyIndex};

#[test]
fn the_key_of_the_empty_text_is_the_offset() {
    assert_eq!(key_of_text(""), 0xcbf2_9ce4_8422_2325);
}

#[test]
fn the_key_of_a_text_mixes_in_every_character() {
    let a = (0xcbf2_9ce4_8422_2325u64 ^ 0x61).wrapping_mul(0x100_0000_01b3);
    assert_eq!(key_of_text("a"), a);
    assert_eq!(key_of_text("a\u{e9}"), (a ^ 0xe9).wrapping_mul(0x100_0000_01b3));
    assert_ne!(key_of_text("ab"), key_of_text("ba"));
    assert_eq!(key_of_text("./some/path"), key_of_text("./some/path"));
}

#[test]
fn the_key_of_a_file_is_the_beginning_of_its_digest() {
    let mut bytes = [0u8; 32];
    for (i, byte) in bytes.iter_mut().enumerate() {
        *byte = i as u8 + 1;
    }
    let shared = EDVariantFields::File { checksum: Checksum::from_bytes(bytes) };
    assert_eq!(key_of_variant(&shared), 0x0807_0605_0403_0201);
}

#[test]
fn the_key_of_a_link_is_that_of_its_target() {
    let shared = EDVariantFields::Link { target: "a.txt".to_string() };
    assert_eq!(key_of_variant(&shared), key_of_text("a.txt"));
}

#[test]
fn an_index_lists_the_positions_of_a_key_in_rising_order() {
    let mut index = KeyIndex::new();
    assert!(index.positions(7).is_none());
    for key in [7, 3, 7, 7, 9, 3] {
        index.push(key);
    }
    assert_eq!(index.positions(7), Some(&vec![0, 2, 3]));
    assert_eq!(index.positions(3), Some(&vec![1, 5]));
    assert_eq!(index.positions(9), Some(&vec![4]));
    assert!(index.positions(8).is_none());
}
