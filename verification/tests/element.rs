use blake2::digest::{Update, VariableOutput};
use blake2::Blake2bVar;
use file_hasher_core::e_d_list::e_d_element::errors::EDElementParseError;
use file_hasher_core::e_d_list::e_d_element::{EDElement, EDVariantFields};
use file_hasher_core::shared::checksum::Checksum;

const HELLO: &str = "324DCF027DD4A30A932C441F365A25E86B173DEFA4B8E58948253471B81B72CF";

fn hello_digest() -> Checksum {
    let mut bytes = [0u8; 32];
    hex::decode_to_slice(HELLO, &mut bytes).unwrap();
    Checksum::from_bytes(bytes)
}

fn hello() -> Checksum {
    hello_digest()
}

fn file(path: &str, modified_time: u64) -> EDElement {
    EDElement::from_internal(
        path.to_string(),
        modified_time,
        EDVariantFields::File { checksum: hello() },
    )
}

fn link(path: &str, modified_time: u64, target: &str) -> EDElement {
    EDElement::from_internal(
        path.to_string(),
        modified_time,
        EDVariantFields::Link { target: target.to_string() },
    )
}

fn blake2b(parts: &[&[u8]]) -> [u8; 32] {
    let mut hasher = Blake2bVar::new(32).unwrap();
    for part in parts {
        hasher.update(part);
    }
    let mut out = [0u8; 32];
    hasher.finalize_variable(&mut out).unwrap();
    out
}

fn failure(line: &str) -> EDElementParseError {
    match EDElement::from_str(line) {
        Ok(element) => panic!("{:?} was read from {:?}", element, line),
        Err(err) => err,
    }
}

#[test]
fn digest_of_a_file_entry_binds_path_time_and_content() {
    let element = file("./a.txt", 1000);
    let expected = blake2b(&[b"./a.txt", &1000u64.to_le_bytes(), hello().as_ref()]);
    assert_eq!(element.get_hash().as_ref(), &expected);
    assert_eq!(
        element.get_hash().to_string(),
        "490AC03382455E377BE822331D3E8004790F11265D8EBD12593684108F08A834"
    );
}

#[test]
fn digest_of_a_link_entry_binds_path_time_and_target() {
    let element = link("./b", 1000, "a.txt");
    let expected = blake2b(&[b"./b", &1000u64.to_le_bytes(), b"a.txt"]);
    assert_eq!(element.get_hash().as_ref(), &expected);
    assert_eq!(
        element.get_hash().to_string(),
        "704ACBBE7A9E921C340AA9245FF6E9C8AEFF39FBD5AB8573C6E2354E010A68CB"
    );
}

#[test]
fn digest_takes_the_path_in_utf8() {
    let element = link("./\u{e9}", 1, "\u{1f600}");
    let expected = blake2b(&[
        "./\u{e9}".as_bytes(),
        &1u64.to_le_bytes(),
        "\u{1f600}".as_bytes(),
    ]);
    assert_eq!(element.get_hash().as_ref(), &expected);
}

#[test]
fn digest_changes_with_every_field() {
    let base = file("./a", 5);
    assert_ne!(base.get_hash(), file("./b", 5).get_hash());
    assert_ne!(base.get_hash(), file("./a", 6).get_hash());
    assert_ne!(base.get_hash(), link("./a", 5, "x").get_hash());
    assert_eq!(base.get_hash(), file("./a", 5).get_hash());
}

#[test]
fn update_path_binds_the_entry_anew() {
    let mut element = file("./old", 9);
    element.update_path("./new".to_string());
    assert_eq!(element.get_path(), "./new");
    assert_eq!(element.get_modified_time(), 9);
    assert_eq!(element.get_variant(), &EDVariantFields::File { checksum: hello() });
    assert_eq!(element.get_hash(), file("./new", 9).get_hash());
}

#[test]
fn getters_give_the_fields() {
    let element = link("./l", 77, "t");
    assert_eq!(element.get_path(), "./l");
    assert_eq!(element.get_modified_time(), 77);
    assert!(element.get_variant().is_link());
    assert!(!file("./f", 1).get_variant().is_link());
    assert_eq!(element.take_path(), "./l");
}

#[test]
fn clone_keeps_every_field() {
    let element = link("./l", 77, "t");
    let copy = element.clone();
    assert_eq!(copy.get_path(), element.get_path());
    assert_eq!(copy.get_modified_time(), element.get_modified_time());
    assert_eq!(copy.get_variant(), element.get_variant());
    assert_eq!(copy.get_hash(), element.get_hash());
}

#[test]
fn a_file_entry_is_written_with_its_digest_in_upper_case() {
    assert_eq!(file("./a.txt", 1000).to_string(), format!("[./a.txt,1000,file({})]", HELLO));
}

#[test]
fn a_link_entry_is_written_with_its_target() {
    assert_eq!(link("./b", 0, "a.txt").to_string(), "[./b,0,link(a.txt)]");
}

#[test]
fn commas_and_backslashes_are_escaped_in_the_path() {
    assert_eq!(link("a,b\\c)d", 1, "t").to_string(), "[a\\,b\\\\c)d,1,link(t)]");
}

#[test]
fn parentheses_and_backslashes_are_escaped_in_the_target() {
    assert_eq!(link("p", 1, "a)b\\c,d").to_string(), "[p,1,link(a\\)b\\\\c,d)]");
}

#[test]
fn a_written_entry_is_read_back() {
    let elements = vec![
        file("./a.txt", 1000),
        file("", 0),
        file("with,comma\\and]bracket[", u64::MAX),
        link("./b", 1000, "a.txt"),
        link("./\u{e9}\n", 3, "t)a\\r),get\u{1f600}"),
        link("x", 4, ""),
    ];
    for element in elements {
        let read = EDElement::from_str(&element.to_string()).unwrap();
        assert_eq!(read.get_path(), element.get_path());
        assert_eq!(read.get_modified_time(), element.get_modified_time());
        assert_eq!(read.get_variant(), element.get_variant());
        assert_eq!(read.get_hash(), element.get_hash());
    }
}

#[test]
fn reading_takes_any_escaped_character() {
    let read = EDElement::from_str("[\\a\\[\\\u{e9},+07,link(\\x\\))]").unwrap();
    assert_eq!(read.get_path(), "a[\u{e9}");
    assert_eq!(read.get_modified_time(), 7);
    assert_eq!(read.get_variant(), &EDVariantFields::Link { target: "x)".to_string() });
}

#[test]
fn reading_takes_a_digest_in_lower_case() {
    let read = EDElement::from_str(&format!("[p,1,file({})]", HELLO.to_lowercase())).unwrap();
    assert_eq!(read.get_variant(), &EDVariantFields::File { checksum: hello() });
}

#[test]
fn reading_ignores_what_follows_the_closing_bracket() {
    let read = EDElement::from_str("[p,1,link(t)] and more").unwrap();
    assert_eq!(read.get_path(), "p");
}

#[test]
fn reading_computes_the_digest_itself() {
    let read = EDElement::from_str("[./b,1000,link(a.txt)]").unwrap();
    assert_eq!(
        read.get_hash().to_string(),
        "704ACBBE7A9E921C340AA9245FF6E9C8AEFF39FBD5AB8573C6E2354E010A68CB"
    );
}

#[test]
fn a_line_must_start_with_a_bracket() {
    assert!(matches!(failure(""), EDElementParseError::NoStartBracket));
    assert!(matches!(failure("p,1,link(t)]"), EDElementParseError::NoStartBracket));
    assert!(matches!(failure(" [p,1,link(t)]"), EDElementParseError::NoStartBracket));
}

#[test]
fn an_escape_needs_a_character() {
    assert!(matches!(failure("[p\\"), EDElementParseError::EscapedCharacterMissing));
    assert!(matches!(failure("[p,1,link(t\\"), EDElementParseError::EscapedCharacterMissing));
}

#[test]
fn a_path_needs_its_comma() {
    assert!(matches!(failure("["), EDElementParseError::NoFilePathTerminator));
    assert!(matches!(failure("[path"), EDElementParseError::NoFilePathTerminator));
    assert!(matches!(failure("[path\\,1"), EDElementParseError::NoFilePathTerminator));
}

#[test]
fn a_time_needs_its_comma() {
    assert!(matches!(failure("[p,"), EDElementParseError::NoModifiedTimeTerminator));
    assert!(matches!(failure("[p,12"), EDElementParseError::NoModifiedTimeTerminator));
}

#[test]
fn a_time_must_be_a_number_of_64_bits() {
    for line in [
        "[p,,link(t)]",
        "[p,1x,link(t)]",
        "[p,-1,link(t)]",
        "[p, 1,link(t)]",
        "[p,18446744073709551616,link(t)]",
    ] {
        assert!(matches!(failure(line), EDElementParseError::ModifiedTimeCouldNotBeParsed(_)));
    }
}

#[test]
fn a_variant_needs_five_bytes() {
    assert!(matches!(failure("[p,1,"), EDElementParseError::NoVariantInformation));
    assert!(matches!(failure("[p,1,file"), EDElementParseError::NoVariantInformation));
    assert!(matches!(failure("[p,1,\u{e9}\u{e9}"), EDElementParseError::NoVariantInformation));
}

#[test]
fn a_variant_is_a_file_or_a_link() {
    assert!(matches!(failure("[p,1,files]"), EDElementParseError::InvalidVariantIdentifier));
    assert!(matches!(failure("[p,1,FILE(]"), EDElementParseError::InvalidVariantIdentifier));
    assert!(matches!(failure("[p,1,dir(x)]"), EDElementParseError::InvalidVariantIdentifier));
    assert!(matches!(
        failure("[p,1,\u{e9}\u{e9}\u{e9}"),
        EDElementParseError::InvalidVariantIdentifier
    ));
}

#[test]
fn a_file_needs_its_whole_digest() {
    assert!(matches!(failure("[p,1,file()]"), EDElementParseError::IncompleteFileHash));
    let short = format!("[p,1,file({}", &HELLO[..63]);
    assert!(matches!(failure(&short), EDElementParseError::IncompleteFileHash));
}

#[test]
fn a_digest_must_be_hexadecimal() {
    let bad = format!("[p,1,file({}G)]", &HELLO[..63]);
    assert!(matches!(failure(&bad), EDElementParseError::FileHashDecodeError(_)));
    let early_end = format!("[p,1,file({})]", &HELLO[..62]);
    assert!(matches!(failure(&early_end), EDElementParseError::FileHashDecodeError(_)));
    let wide = format!("[p,1,file({}\u{e9})]", &HELLO[..62]);
    assert!(matches!(failure(&wide), EDElementParseError::FileHashDecodeError(_)));
}

#[test]
fn a_variant_needs_its_parenthesis() {
    let open = format!("[p,1,file({}", HELLO);
    assert!(matches!(failure(&open), EDElementParseError::NoVariantTerminator));
    let other = format!("[p,1,file({}]", HELLO);
    assert!(matches!(failure(&other), EDElementParseError::NoVariantTerminator));
    assert!(matches!(failure("[p,1,link(target"), EDElementParseError::NoVariantTerminator));
    assert!(matches!(failure("[p,1,link(t\\)]"), EDElementParseError::NoVariantTerminator));
}

#[test]
fn a_line_needs_its_closing_bracket() {
    assert!(matches!(failure("[p,1,link(t)"), EDElementParseError::NoTerminatorBracket));
    assert!(matches!(failure("[p,1,link(t))"), EDElementParseError::NoTerminatorBracket));
    let file = format!("[p,1,file({})", HELLO);
    assert!(matches!(failure(&file), EDElementParseError::NoTerminatorBracket));
}

#[test]
fn a_line_converts_into_an_entry() {
    let element = EDElement::try_from("[./b,1000,link(a.txt)]").unwrap();
    assert_eq!(element.get_path(), "./b");
    assert_eq!(element.get_modified_time(), 1000);
    assert!(matches!(EDElement::try_from("./b"), Err(EDElementParseError::NoStartBracket)));
}
