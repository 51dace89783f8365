//! The text of one manifest entry:
//! `[<path>,<modification time>,file(<digest>)]` or
//! `[<path>,<modification time>,link(<target>)]`.
//!
//! In the path `\` and `,` are written with a `\` in front, in the link
//! target `\` and `)`. Reading accepts a `\` in front of any character.

use vstd::prelude::*;
use vstd::string::StringExecFns;
use vstd::utf8::{char_is_scalar, encode_scalar, encode_utf8};
use crate::shared::constants::HASH_OUTPUT_LENGTH;
use crate::shared::hex_text::{
    decode_digest, encode_upper, hex_decode_digest, hex_upper, lemma_hex_round_trip,
};
use crate::shared::text::{
    decimal_repr, decimal_u64, is_digit, lemma_decimal_repr, lemma_decimal_round_trip, parse_u64,
    push_decimal, string_of, to_chars,
};
use super::errors::{EDElementParseError, ParseFailure};
use super::{EDVariantFields, ElementView, VariantView};

verus! {

/// The result of reading an escaped text up to its terminator.
pub enum Scan {
    /// The text without its escapes, and what follows the terminator.
    Done { text: Seq<char>, rest: Seq<char> },
    /// A `\` was the last character.
    EscapeMissing,
    /// The input ended before the terminator.
    Unterminated,
}

/// Puts `c` in front of the text that a scan has read.
pub open spec fn prepend(c: char, scan: Scan) -> Scan {
    match scan {
        Scan::Done { text, rest } => Scan::Done { text: seq![c] + text, rest },
        other => other,
    }
}

/// Reads `s` up to the first `terminator` that has no `\` in front. A `\`
/// makes the character after it part of the text, whatever it is.
pub open spec fn scan_escaped(s: Seq<char>, terminator: char) -> Scan
    decreases s.len(),
{
    if s.len() == 0 {
        Scan::Unterminated
    } else if s[0] == '\\' {
        if s.len() == 1 {
            Scan::EscapeMissing
        } else {
            prepend(s[1], scan_escaped(s.skip(2), terminator))
        }
    } else if s[0] == terminator {
        Scan::Done { text: Seq::empty(), rest: s.skip(1) }
    } else {
        prepend(s[0], scan_escaped(s.skip(1), terminator))
    }
}

/// Writes `text` with a `\` in front of every `\` and every `special`.
pub open spec fn escape(text: Seq<char>, special: char) -> Seq<char>
    decreases text.len(),
{
    if text.len() == 0 {
        Seq::empty()
    } else if text[0] == '\\' || text[0] == special {
        seq!['\\', text[0]] + escape(text.skip(1), special)
    } else {
        seq![text[0]] + escape(text.skip(1), special)
    }
}

/// The position of the first `c` in `s`.
pub open spec fn first_index(s: Seq<char>, c: char) -> Option<int>
    decreases s.len(),
{
    if s.len() == 0 {
        None
    } else if s[0] == c {
        Some(0)
    } else {
        match first_index(s.skip(1), c) {
            Some(i) => Some(i + 1),
            None => None,
        }
    }
}

/// The number of bytes that a character takes in UTF-8.
pub open spec fn utf8_width(c: char) -> nat {
    if (c as u32) < 0x80 {
        1
    } else if (c as u32) < 0x800 {
        2
    } else if (c as u32) < 0x10000 {
        3
    } else {
        4
    }
}

/// The number of bytes that a text takes in UTF-8.
pub open spec fn utf8_len(s: Seq<char>) -> nat
    decreases s.len(),
{
    if s.len() == 0 {
        0
    } else {
        utf8_len(s.drop_last()) + utf8_width(s.last())
    }
}

/// `file(`
pub open spec fn file_tag() -> Seq<char> {
    seq!['f', 'i', 'l', 'e', '(']
}

/// `link(`
pub open spec fn link_tag() -> Seq<char> {
    seq!['l', 'i', 'n', 'k', '(']
}

/// Reads the variant of an entry from the text behind the modification
/// time: the variant and what follows its `)`.
pub open spec fn parse_variant(r: Seq<char>) -> Result<(VariantView, Seq<char>), ParseFailure> {
    if utf8_len(r) < 5 {
        Err(ParseFailure::NoVariantInformation)
    } else if file_tag().is_prefix_of(r) {
        if utf8_len(r) < 5 + 2 * HASH_OUTPUT_LENGTH {
            Err(ParseFailure::IncompleteFileHash)
        } else {
            let end = if r.len() < 5 + 2 * HASH_OUTPUT_LENGTH {
                r.len() as int
            } else {
                5 + 2 * HASH_OUTPUT_LENGTH
            };
            match hex_decode_digest(r.subrange(5, end)) {
                None => Err(ParseFailure::FileHashDecodeError),
                Some(checksum) => {
                    let after = r.skip(5 + 2 * HASH_OUTPUT_LENGTH);
                    if after.len() > 0 && after[0] == ')' {
                        Ok((VariantView::File { checksum }, after.skip(1)))
                    } else {
                        Err(ParseFailure::NoVariantTerminator)
                    }
                },
            }
        }
    } else if link_tag().is_prefix_of(r) {
        match scan_escaped(r.skip(5), ')') {
            Scan::Done { text, rest } => Ok((VariantView::Link { target: text }, rest)),
            Scan::EscapeMissing => Err(ParseFailure::EscapedCharacterMissing),
            Scan::Unterminated => Err(ParseFailure::NoVariantTerminator),
        }
    } else {
        Err(ParseFailure::InvalidVariantIdentifier)
    }
}

/// Reads the modification time and the variant from the text behind the
/// path.
pub open spec fn parse_after_path(path: Seq<char>, r: Seq<char>) -> Result<
    ElementView,
    ParseFailure,
> {
    match first_index(r, ',') {
        None => Err(ParseFailure::NoModifiedTimeTerminator),
        Some(comma) => match decimal_u64(r.take(comma)) {
            None => Err(ParseFailure::ModifiedTimeCouldNotBeParsed),
            Some(modified_time) => match parse_variant(r.skip(comma + 1)) {
                Err(failure) => Err(failure),
                Ok((variant, rest)) => if rest.len() > 0 && rest[0] == ']' {
                    Ok(ElementView { path, modified_time, variant })
                } else {
                    Err(ParseFailure::NoTerminatorBracket)
                },
            },
        },
    }
}

/// What a line denotes as a manifest entry. Anything behind the closing `]`
/// is ignored.
pub open spec fn parse_element(line: Seq<char>) -> Result<ElementView, ParseFailure> {
    if line.len() == 0 || line[0] != '[' {
        Err(ParseFailure::NoStartBracket)
    } else {
        match scan_escaped(line.skip(1), ',') {
            Scan::EscapeMissing => Err(ParseFailure::EscapedCharacterMissing),
            Scan::Unterminated => Err(ParseFailure::NoFilePathTerminator),
            Scan::Done { text, rest } => parse_after_path(text, rest),
        }
    }
}

/// The text of a variant.
pub open spec fn variant_text(variant: VariantView) -> Seq<char> {
    match variant {
        VariantView::File { checksum } => file_tag() + hex_upper(checksum) + seq![')'],
        VariantView::Link { target } => link_tag() + escape(target, ')') + seq![')'],
    }
}

/// The line that holds an entry.
pub open spec fn element_text(e: ElementView) -> Seq<char> {
    seq!['['] + escape(e.path, ',') + seq![','] + decimal_repr(e.modified_time as nat) + seq![
        ',',
    ] + variant_text(e.variant) + seq![']']
}


/// Puts `acc` in front of the text that a scan has read.
pub open spec fn prepend_all(acc: Seq<char>, scan: Scan) -> Scan {
    match scan {
        Scan::Done { text, rest } => Scan::Done { text: acc + text, rest },
        other => other,
    }
}

proof fn lemma_prepend_push(acc: Seq<char>, c: char, scan: Scan)
    ensures
        prepend_all(acc, prepend(c, scan)) == prepend_all(acc.push(c), scan),
{
    match scan {
        Scan::Done { text, rest } => {
            assert(acc + (seq![c] + text) =~= acc.push(c) + text);
        },
        _ => {},
    }
}

/// Why a scan did not reach its terminator.
enum ScanFailure {
    EscapeMissing,
    Unterminated,
}

/// Reads the escaped text that starts at `line[start]`: the text, and the
/// position behind its terminator.
fn scan_escaped_from(line: &Vec<char>, start: usize, terminator: char) -> (r: Result<
    (String, usize),
    ScanFailure,
>)
    requires
        start <= line.len(),
    ensures
        match scan_escaped(line@.skip(start as int), terminator) {
            Scan::Done { text, rest } => r matches Ok((t, next)) && t@ == text && next
                <= line.len() && line@.skip(next as int) == rest,
            Scan::EscapeMissing => r matches Err(ScanFailure::EscapeMissing),
            Scan::Unterminated => r matches Err(ScanFailure::Unterminated),
        },
{
    let mut text = String::new();
    let mut i: usize = start;
    assert(prepend_all(text@, scan_escaped(line@.skip(i as int), terminator)) == scan_escaped(
        line@.skip(start as int),
        terminator,
    )) by {
        match scan_escaped(line@.skip(i as int), terminator) {
            Scan::Done { text: t, rest } => {
                assert(text@ + t =~= t);
            },
            _ => {},
        }
    }
    loop
        invariant
            start <= i <= line.len(),
            scan_escaped(line@.skip(start as int), terminator) == prepend_all(
                text@,
                scan_escaped(line@.skip(i as int), terminator),
            ),
        decreases line.len() - i,
    {
        let ghost s = line@.skip(i as int);
        if i >= line.len() {
            return Err(ScanFailure::Unterminated);
        }
        let c = line[i];
        assert(s[0] == c);
        if c == '\\' {
            if line.len() - i < 2 {
                return Err(ScanFailure::EscapeMissing);
            }
            let escaped = line[i + 1];
            proof {
                assert(s[1] == escaped);
                assert(s.skip(2) =~= line@.skip(i + 2));
                lemma_prepend_push(text@, escaped, scan_escaped(s.skip(2), terminator));
            }
            text.push(escaped);
            i = i + 2;
        } else if c == terminator {
            proof {
                assert(s.skip(1) =~= line@.skip(i + 1));
                assert(text@ + Seq::<char>::empty() =~= text@);
            }
            return Ok((text, i + 1));
        } else {
            proof {
                assert(s.skip(1) =~= line@.skip(i + 1));
                lemma_prepend_push(text@, c, scan_escaped(s.skip(1), terminator));
            }
            text.push(c);
            i = i + 1;
        }
    }
}

/// Moves a position found in a suffix to the whole.
pub open spec fn shift(found: Option<int>, by: int) -> Option<int> {
    match found {
        Some(k) => Some(k + by),
        None => None,
    }
}

/// The position of the first `c` at or behind `line[start]`.
fn find_char(line: &Vec<char>, start: usize, c: char) -> (r: Option<usize>)
    requires
        start <= line.len(),
    ensures
        match r {
            Some(found) => start <= found < line.len() && first_index(
                line@.skip(start as int),
                c,
            ) == Some(found - start),
            None => first_index(line@.skip(start as int), c) is None,
        },
{
    let mut i: usize = start;
    while i < line.len()
        invariant
            start <= i <= line.len(),
            first_index(line@.skip(start as int), c) == shift(
                first_index(line@.skip(i as int), c),
                i - start,
            ),
        decreases line.len() - i,
    {
        let ghost s = line@.skip(i as int);
        assert(s[0] == line[i as int]);
        if line[i] == c {
            return Some(i);
        }
        assert(s.skip(1) =~= line@.skip(i + 1));
        i = i + 1;
    }
    None
}

/// The encoding of two texts, one after the other.
pub proof fn lemma_encode_utf8_concat(a: Seq<char>, b: Seq<char>)
    ensures
        encode_utf8(a + b) == encode_utf8(a) + encode_utf8(b),
    decreases a.len(),
{
    if a.len() == 0 {
        assert(a + b =~= b);
        assert(encode_utf8(a) + encode_utf8(b) =~= encode_utf8(b));
    } else {
        assert((a + b).drop_first() =~= a.drop_first() + b);
        assert((a + b)[0] == a[0]);
        lemma_encode_utf8_concat(a.drop_first(), b);
        assert(encode_scalar(a[0] as u32) + (encode_utf8(a.drop_first()) + encode_utf8(b)) =~= (
        encode_scalar(a[0] as u32) + encode_utf8(a.drop_first())) + encode_utf8(b));
    }
}

/// `utf8_len` is the length of the UTF-8 encoding.
pub proof fn lemma_utf8_len(s: Seq<char>)
    ensures
        utf8_len(s) == encode_utf8(s).len(),
    decreases s.len(),
{
    if s.len() > 0 {
        let c = s.last();
        lemma_utf8_len(s.drop_last());
        lemma_encode_utf8_concat(s.drop_last(), seq![c]);
        assert(s =~= s.drop_last() + seq![c]);
        char_is_scalar(c);
        assert(seq![c].drop_first() =~= Seq::<char>::empty());
        assert(seq![c][0] == c);
        assert(encode_utf8(Seq::<char>::empty()) =~= Seq::<u8>::empty());
        assert(encode_utf8(seq![c]) =~= encode_scalar(c as u32));
    }
}

/// A text takes at least one byte for each character.
pub proof fn lemma_utf8_len_at_least_len(s: Seq<char>)
    ensures
        utf8_len(s) >= s.len(),
    decreases s.len(),
{
    if s.len() > 0 {
        lemma_utf8_len_at_least_len(s.drop_last());
    }
}

/// A text takes at least as many bytes as any of its beginnings.
pub proof fn lemma_utf8_len_grows(s: Seq<char>, n: int)
    requires
        0 <= n <= s.len(),
    ensures
        utf8_len(s.take(n)) <= utf8_len(s),
    decreases s.len(),
{
    if n == s.len() {
        assert(s.take(n) =~= s);
    } else {
        lemma_utf8_len_grows(s.drop_last(), n);
        assert(s.drop_last().take(n) =~= s.take(n));
    }
}

/// Whether the text from `line[start]` on takes fewer than `bound` bytes in
/// UTF-8.
fn utf8_len_below(line: &Vec<char>, start: usize, bound: usize) -> (r: bool)
    requires
        start <= line.len(),
        bound <= 1024,
    ensures
        r == (utf8_len(line@.skip(start as int)) < bound),
{
    let mut total: usize = 0;
    let mut i: usize = start;
    assert(line@.subrange(start as int, i as int) =~= Seq::<char>::empty());
    while i < line.len() && total < bound
        invariant
            start <= i <= line.len(),
            bound <= 1024,
            total == utf8_len(line@.subrange(start as int, i as int)),
            total < bound + 4,
        decreases line.len() - i,
    {
        let c = line[i];
        let code: u32 = c as u32;
        let width: usize = if code < 0x80 {
            1
        } else if code < 0x800 {
            2
        } else if code < 0x10000 {
            3
        } else {
            4
        };
        proof {
            let next = line@.subrange(start as int, i + 1);
            assert(next.drop_last() =~= line@.subrange(start as int, i as int));
            assert(next.last() == c);
        }
        total = total + width;
        i = i + 1;
    }
    proof {
        let s = line@.skip(start as int);
        assert(s.take(i - start) =~= line@.subrange(start as int, i as int));
        lemma_utf8_len_grows(s, i - start);
        if i == line.len() {
            assert(s.take(i - start) =~= s);
        }
    }
    total < bound
}

/// Whether `tag` stands at `line[start]`.
fn has_tag(line: &Vec<char>, start: usize, tag: &Vec<char>) -> (r: bool)
    requires
        start <= line.len(),
    ensures
        r == tag@.is_prefix_of(line@.skip(start as int)),
{
    if line.len() - start < tag.len() {
        return false;
    }
    let mut i: usize = 0;
    while i < tag.len()
        invariant
            i <= tag.len(),
            start + tag.len() <= line.len(),
            forall|k: int| 0 <= k < i ==> tag@[k] == line@[start + k],
        decreases tag.len() - i,
    {
        if tag[i] != line[start + i] {
            assert(line@.skip(start as int).subrange(0, tag@.len() as int)[i as int] != tag@[i as int]);
            return false;
        }
        i = i + 1;
    }
    assert(tag@ =~= line@.skip(start as int).subrange(0, tag@.len() as int));
    true
}

fn file_tag_chars() -> (r: Vec<char>)
    ensures
        r@ == file_tag(),
{
    let r = vec!['f', 'i', 'l', 'e', '('];
    assert(r@ =~= file_tag());
    r
}

fn link_tag_chars() -> (r: Vec<char>)
    ensures
        r@ == link_tag(),
{
    let r = vec!['l', 'i', 'n', 'k', '('];
    assert(r@ =~= link_tag());
    r
}

/// Reads the variant that starts at `line[start]`: the variant, and the
/// position behind its `)`.
fn parse_variant_from(line: &Vec<char>, start: usize) -> (r: Result<
    (EDVariantFields, usize),
    EDElementParseError,
>)
    requires
        start <= line.len(),
    ensures
        match parse_variant(line@.skip(start as int)) {
            Ok((variant, rest)) => r matches Ok((v, next)) && v@ == variant && next <= line.len()
                && line@.skip(next as int) == rest,
            Err(failure) => r matches Err(err) && err@ == failure,
        },
{
    let ghost s = line@.skip(start as int);
    if utf8_len_below(line, start, 5) {
        return Err(EDElementParseError::NoVariantInformation);
    }
    if has_tag(line, start, &file_tag_chars()) {
        if utf8_len_below(line, start, 5 + 2 * HASH_OUTPUT_LENGTH) {
            return Err(EDElementParseError::IncompleteFileHash);
        }
        let end: usize = if line.len() - start < 5 + 2 * HASH_OUTPUT_LENGTH {
            line.len()
        } else {
            start + 5 + 2 * HASH_OUTPUT_LENGTH
        };
        let field = string_of(line, start + 5, end);
        assert(field@ =~= s.subrange(5, end - start));
        match decode_digest(field.as_str()) {
            Err(err) => Err(EDElementParseError::FileHashDecodeError(err)),
            Ok(checksum) => {
                let close: usize = start + 5 + 2 * HASH_OUTPUT_LENGTH;
                assert(s.skip(5 + 2 * HASH_OUTPUT_LENGTH) =~= line@.skip(close as int));
                if close < line.len() && line[close] == ')' {
                    assert(line@.skip(close as int).skip(1) =~= line@.skip(close + 1));
                    Ok((EDVariantFields::File { checksum }, close + 1))
                } else {
                    Err(EDElementParseError::NoVariantTerminator)
                }
            },
        }
    } else if has_tag(line, start, &link_tag_chars()) {
        assert(s.skip(5) =~= line@.skip(start + 5));
        match scan_escaped_from(line, start + 5, ')') {
            Ok((target, next)) => Ok((EDVariantFields::Link { target }, next)),
            Err(ScanFailure::EscapeMissing) => Err(EDElementParseError::EscapedCharacterMissing),
            Err(ScanFailure::Unterminated) => Err(EDElementParseError::NoVariantTerminator),
        }
    } else {
        Err(EDElementParseError::InvalidVariantIdentifier)
    }
}

/// Reads a line as a manifest entry: its path, its modification time and
/// its variant.
pub(crate) fn parse_line(line: &Vec<char>) -> (r: Result<
    (String, u64, EDVariantFields),
    EDElementParseError,
>)
    ensures
        match parse_element(line@) {
            Ok(e) => r matches Ok((path, modified_time, variant)) && path@ == e.path
                && modified_time == e.modified_time && variant@ == e.variant,
            Err(failure) => r matches Err(err) && err@ == failure,
        },
{
    if line.len() == 0 || line[0] != '[' {
        return Err(EDElementParseError::NoStartBracket);
    }
    let (path, time_start) = match scan_escaped_from(line, 1, ',') {
        Ok(found) => found,
        Err(ScanFailure::EscapeMissing) => {
            return Err(EDElementParseError::EscapedCharacterMissing);
        },
        Err(ScanFailure::Unterminated) => {
            return Err(EDElementParseError::NoFilePathTerminator);
        },
    };
    let ghost r1 = line@.skip(time_start as int);
    let comma = match find_char(line, time_start, ',') {
        Some(comma) => comma,
        None => {
            return Err(EDElementParseError::NoModifiedTimeTerminator);
        },
    };
    let time_text = string_of(line, time_start, comma);
    assert(time_text@ =~= r1.take(comma - time_start));
    let modified_time = match parse_u64(time_text.as_str()) {
        Ok(modified_time) => modified_time,
        Err(err) => {
            return Err(EDElementParseError::ModifiedTimeCouldNotBeParsed(err));
        },
    };
    assert(r1.skip(comma - time_start + 1) =~= line@.skip(comma + 1));
    let (variant, end) = match parse_variant_from(line, comma + 1) {
        Ok(found) => found,
        Err(err) => {
            return Err(err);
        },
    };
    if end < line.len() && line[end] == ']' {
        Ok((path, modified_time, variant))
    } else {
        Err(EDElementParseError::NoTerminatorBracket)
    }
}


/// Escaping goes character by character.
pub proof fn lemma_escape_concat(a: Seq<char>, b: Seq<char>, special: char)
    ensures
        escape(a + b, special) == escape(a, special) + escape(b, special),
    decreases a.len(),
{
    if a.len() == 0 {
        assert(a + b =~= b);
        assert(escape(a, special) + escape(b, special) =~= escape(b, special));
    } else {
        assert((a + b).skip(1) =~= a.skip(1) + b);
        assert((a + b)[0] == a[0]);
        lemma_escape_concat(a.skip(1), b, special);
        if a[0] == '\\' || a[0] == special {
            assert(seq!['\\', a[0]] + (escape(a.skip(1), special) + escape(b, special)) =~= (seq![
                '\\',
                a[0],
            ] + escape(a.skip(1), special)) + escape(b, special));
        } else {
            assert(seq![a[0]] + (escape(a.skip(1), special) + escape(b, special)) =~= (seq![a[0]]
                + escape(a.skip(1), special)) + escape(b, special));
        }
    }
}

/// Appends `text` to `out`, with a `\` in front of every `\` and every
/// `special`.
fn push_escaped(out: &mut String, text: &str, special: char)
    ensures
        final(out)@ == old(out)@ + escape(text@, special),
{
    proof {
        assert(text@.subrange(0, 0) =~= Seq::<char>::empty());
        assert(out@ =~= old(out)@ + escape(text@.subrange(0, 0), special));
    }
    for c in it: text.chars()
        invariant
            out@ == old(out)@ + escape(text@.subrange(0, it.index() as int), special),
            it.seq() == text@,
    {
        proof {
            let k = it.index() as int;
            let done = text@.subrange(0, k);
            assert(text@.subrange(0, k + 1) =~= done + seq![c]);
            lemma_escape_concat(done, seq![c], special);
            assert(seq![c].skip(1) =~= Seq::<char>::empty());
            assert(escape(Seq::<char>::empty(), special) =~= Seq::<char>::empty());
            if c == '\\' || c == special {
                assert(escape(seq![c], special) =~= seq!['\\', c]);
                assert(out@.push('\\').push(c) =~= out@ + seq!['\\', c]);
            } else {
                assert(escape(seq![c], special) =~= seq![c]);
                assert(out@.push(c) =~= out@ + seq![c]);
            }
        }
        if c == '\\' || c == special {
            out.push('\\');
        }
        out.push(c);
    }
    assert(text@.subrange(0, text@.len() as int) =~= text@);
}

/// Appends the text of a variant to `out`.
fn push_variant(out: &mut String, variant: &EDVariantFields)
    ensures
        final(out)@ == old(out)@ + variant_text(variant@),
{
    match variant {
        EDVariantFields::File { checksum } => {
            out.append("file(");
            let digits = encode_upper(checksum.as_ref().as_slice());
            out.append(digits.as_str());
            out.push(')');
        },
        EDVariantFields::Link { target } => {
            out.append("link(");
            push_escaped(out, target.as_str(), ')');
            out.push(')');
        },
    }
    proof {
        reveal_strlit("file(");
        reveal_strlit("link(");
        assert("file("@ =~= file_tag());
        assert("link("@ =~= link_tag());
        assert(out@ =~= old(out)@ + variant_text(variant@));
    }
}

/// Appends the line of an entry to `out`.
pub(crate) fn push_element(
    out: &mut String,
    path: &str,
    modified_time: u64,
    variant: &EDVariantFields,
)
    ensures
        final(out)@ == old(out)@ + element_text(
            ElementView { path: path@, modified_time, variant: variant@ },
        ),
{
    out.push('[');
    push_escaped(out, path, ',');
    out.push(',');
    push_decimal(out, modified_time);
    out.push(',');
    push_variant(out, variant);
    out.push(']');
    assert(out@ =~= old(out)@ + element_text(
        ElementView { path: path@, modified_time, variant: variant@ },
    ));
}

/// Reading an escaped text gives back the text and what follows.
pub proof fn lemma_scan_escape(text: Seq<char>, special: char, rest: Seq<char>)
    requires
        special != '\\',
    ensures
        scan_escaped(escape(text, special) + seq![special] + rest, special) == (Scan::Done {
            text,
            rest,
        }),
    decreases text.len(),
{
    let s = escape(text, special) + seq![special] + rest;
    if text.len() == 0 {
        assert(text =~= Seq::<char>::empty());
        assert(s =~= seq![special] + rest);
        assert(s[0] == special);
        assert(s.skip(1) =~= rest);
    } else {
        let c = text[0];
        let tail = text.skip(1);
        lemma_scan_escape(tail, special, rest);
        let s_tail = escape(tail, special) + seq![special] + rest;
        assert(seq![c] + tail =~= text);
        if c == '\\' || c == special {
            assert(s =~= seq!['\\', c] + s_tail);
            assert(s[0] == '\\' && s[1] == c);
            assert(s.skip(2) =~= s_tail);
        } else {
            assert(s =~= seq![c] + s_tail);
            assert(s[0] == c);
            assert(s.skip(1) =~= s_tail);
        }
    }
}

/// The first `c` behind a text that holds none is the one right behind it.
pub proof fn lemma_first_index_after(prefix: Seq<char>, c: char, rest: Seq<char>)
    requires
        forall|i: int| 0 <= i < prefix.len() ==> prefix[i] != c,
    ensures
        first_index(prefix + seq![c] + rest, c) == Some(prefix.len() as int),
    decreases prefix.len(),
{
    let s = prefix + seq![c] + rest;
    if prefix.len() == 0 {
        assert(s[0] == c);
    } else {
        assert(s[0] == prefix[0]);
        assert(s.skip(1) =~= prefix.skip(1) + seq![c] + rest);
        lemma_first_index_after(prefix.skip(1), c, rest);
    }
}

/// Reading the text of a variant gives back the variant and what follows.
pub proof fn lemma_parse_variant_text(variant: VariantView, rest: Seq<char>)
    requires
        variant matches VariantView::File { checksum } ==> checksum.len() == HASH_OUTPUT_LENGTH,
    ensures
        parse_variant(variant_text(variant) + rest) == Ok::<
            (VariantView, Seq<char>),
            ParseFailure,
        >((variant, rest)),
{
    let r = variant_text(variant) + rest;
    lemma_utf8_len_at_least_len(r);
    match variant {
        VariantView::File { checksum } => {
            let digits = hex_upper(checksum);
            lemma_hex_round_trip(checksum);
            assert(r =~= file_tag() + digits + seq![')'] + rest);
            assert(r.subrange(0, 5) =~= file_tag());
            assert(r.subrange(5, 5 + 2 * HASH_OUTPUT_LENGTH) =~= digits);
            let after = r.skip(5 + 2 * HASH_OUTPUT_LENGTH);
            assert(after =~= seq![')'] + rest);
            assert(after[0] == ')');
            assert(after.skip(1) =~= rest);
        },
        VariantView::Link { target } => {
            assert(r =~= link_tag() + (escape(target, ')') + seq![')'] + rest));
            assert(r.subrange(0, 5) =~= link_tag());
            assert(r.subrange(0, 5)[0] != file_tag()[0]);
            assert(r.skip(5) =~= escape(target, ')') + seq![')'] + rest);
            lemma_scan_escape(target, ')', rest);
        },
    }
}

/// Reading the line of an entry gives back the entry.
pub proof fn lemma_parse_element_text(e: ElementView)
    requires
        e.variant matches VariantView::File { checksum } ==> checksum.len() == HASH_OUTPUT_LENGTH,
    ensures
        parse_element(element_text(e)) == Ok::<ElementView, ParseFailure>(e),
{
    let line = element_text(e);
    let time = decimal_repr(e.modified_time as nat);
    let tail = variant_text(e.variant) + seq![']'];
    let r1 = time + seq![','] + tail;
    assert(line[0] == '[');
    assert(line.skip(1) =~= escape(e.path, ',') + seq![','] + r1);
    lemma_scan_escape(e.path, ',', r1);
    lemma_decimal_repr(e.modified_time as nat);
    assert forall|i: int| 0 <= i < time.len() implies time[i] != ',' by {
        assert(is_digit(time[i]));
    }
    lemma_first_index_after(time, ',', tail);
    assert(r1.take(time.len() as int) =~= time);
    lemma_decimal_round_trip(e.modified_time);
    assert(r1.skip(time.len() as int + 1) =~= tail);
    lemma_parse_variant_text(e.variant, seq![']']);
}

} // verus!
