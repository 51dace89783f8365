use file_hasher_core::shared::checksum::Checksum;
use file_hasher_core::shared::functions::{blake2_to_checksum, blake2_to_string, Hasher};
use file_hasher_core::shared::lines::lines_of;
use file_hasher_core::shared::text::{prefix_split, same_text, to_chars};
use std::ops::BitXorAssign;

const HELLO: &str = "324DCF027DD4A30A932C441F365A25E86B173DEFA4B8E58948253471B81B72CF";
const EMPTY: &str = "0E5751C026E543B2E8AB2EB06099DAA1D1E5DF47778F7787FAAB45CDF12FE3A8";

fn digest_of(data: &[u8]) -> Checksum {
    let mut hasher = Hasher::new();
    hasher.update(data);
    blake2_to_checksum(hasher)
}

#[test]
fn blake2b_of_hello_has_the_known_value() {
    assert_eq!(digest_of(b"hello").to_string(), HELLO);
}

#[test]
fn blake2b_of_nothing_has_the_known_value() {
    assert_eq!(blake2_to_string(Hasher::new()), EMPTY);
}

#[test]
fn hasher_takes_its_input_in_pieces() {
    let mut hasher = Hasher::new();
    hasher.update(b"he");
    hasher.update(b"");
    hasher.update(b"llo");
    assert_eq!(blake2_to_string(hasher), HELLO);
}

#[test]
fn digest_differs_from_its_input() {
    let input = [7u8; 32];
    let digest = digest_of(&input);
    assert_ne!(digest.as_ref(), &input);
}

#[test]
fn default_checksum_is_zero() {
    assert_eq!(Checksum::default().as_ref(), &[0u8; 32]);
}

#[test]
fn xor_is_bytewise() {
    let mut a = Checksum::from_bytes([0b1100u8; 32]);
    let b = Checksum::from_bytes([0b1010u8; 32]);
    a.bitxor_assign(&b);
    assert_eq!(a.as_ref(), &[0b0110u8; 32]);
}

#[test]
fn xor_twice_gives_back_the_first() {
    let first = digest_of(b"one");
    let second = digest_of(b"two");
    let mut folded = first;
    folded.bitxor_assign(&second);
    assert_ne!(folded, first);
    folded.bitxor_assign(&second);
    assert_eq!(folded, first);
}

#[test]
fn checksums_compare_by_their_bytes() {
    let mut bytes = [1u8; 32];
    let a = Checksum::from_bytes(bytes);
    bytes[31] = 2;
    let b = Checksum::from_bytes(bytes);
    assert!(a == a);
    assert!(a != b);
}

#[test]
fn a_checksum_is_written_in_upper_case_high_half_first() {
    let mut bytes = [0u8; 32];
    bytes[0] = 0x0f;
    bytes[1] = 0xa5;
    bytes[31] = 0xf0;
    assert_eq!(
        Checksum::from_bytes(bytes).to_string(),
        "0FA50000000000000000000000000000000000000000000000000000000000F0"
    );
    assert_eq!(
        Checksum::from_bytes([0xff; 32]).to_string(),
        "FFFFFFFFFFFFFFFFFFFFFFFFFFFFFFFFFFFFFFFFFFFFFFFFFFFFFFFFFFFFFFFF"
    );
}

#[test]
fn prefix_split_returns_the_rest() {
    assert_eq!(prefix_split("sub/", "sub/x"), Some("x"));
    assert_eq!(prefix_split("sub/", "sub/"), Some(""));
    assert_eq!(prefix_split("", "sub"), Some("sub"));
    assert_eq!(prefix_split("sub/", "su"), None);
    assert_eq!(prefix_split("sub/", "keep/sub/x"), None);
}

#[test]
fn texts_are_compared_character_by_character() {
    assert!(same_text("1.1", "1.1"));
    assert!(!same_text("1.1", "1.0"));
    assert!(!same_text("1.1", "1.10"));
    assert!(same_text("", ""));
}

#[test]
fn characters_of_a_text() {
    assert_eq!(to_chars("a\u{e9}\u{1f600}"), vec!['a', '\u{e9}', '\u{1f600}']);
    assert_eq!(to_chars(""), Vec::<char>::new());
}

#[test]
fn lines_end_at_line_feeds() {
    assert_eq!(lines_of("a\nb"), vec!["a", "b"]);
    assert_eq!(lines_of("a\nb\n"), vec!["a", "b"]);
    assert_eq!(lines_of(""), Vec::<String>::new());
    assert_eq!(lines_of("\n"), vec![""]);
    assert_eq!(lines_of("\n\nx"), vec!["", "", "x"]);
}

#[test]
fn a_carriage_return_goes_with_its_line_feed_only() {
    assert_eq!(lines_of("a\r\nb\r"), vec!["a", "b\r"]);
    assert_eq!(lines_of("a\r\r\n"), vec!["a\r"]);
    assert_eq!(lines_of("a\rb\n"), vec!["a\rb"]);
}
