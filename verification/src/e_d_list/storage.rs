//! The text of a manifest file, and what reading it back gives.

use vstd::prelude::*;
use vstd::string::StringExecFns;
use crate::shared::constants::{
    CURRENT_LIST_VERSION, FIN_CHECKSUM_PREFIX, HASH_OUTPUT_LENGTH, LIST_VERSION_PREFIX,
    XOR_CHECKSUM_PREFIX,
};
use crate::shared::functions::{absorbed, blake2_to_checksum, Hasher};
use crate::shared::hex_text::{
    encode_upper, hex_decode_digest, hex_upper, lemma_hex_plain, lemma_hex_round_trip,
};
use crate::shared::text::{decimal_repr, is_digit, lemma_decimal_repr};
use super::e_d_element::errors::ParseFailure;
use super::e_d_element::format::{
    element_text, escape, lemma_parse_element_text, parse_element,
    variant_text,
};
use super::e_d_element::{ElementView, VariantView};
use super::errors::OpenFailure;
use super::fold::{digest_bytes, final_checksum, lemma_xor_fold_len, xor_fold};
use crate::shared::lines::{
    join_lines, lemma_join_lines_concat, lemma_split_joined, plain_line, split_lines, };
use super::{
    behind, element_views, parsed_entries, read_manifest, version_of, EDList,
    };

verus! {

/// The three lines at the head of a manifest file.
pub open spec fn header_lines(entries: Seq<ElementView>, xor_checksum: Seq<u8>) -> Seq<Seq<char>> {
    seq![
        LIST_VERSION_PREFIX@ + CURRENT_LIST_VERSION@,
        XOR_CHECKSUM_PREFIX@ + hex_upper(xor_checksum),
        FIN_CHECKSUM_PREFIX@ + hex_upper(final_checksum(entries, xor_checksum)),
    ]
}

/// The lines of the entries.
pub open spec fn entry_lines(entries: Seq<ElementView>) -> Seq<Seq<char>> {
    Seq::new(entries.len(), |i: int| element_text(entries[i]))
}

/// The lines of a manifest file.
pub open spec fn manifest_lines(entries: Seq<ElementView>, xor_checksum: Seq<u8>) -> Seq<
    Seq<char>,
> {
    header_lines(entries, xor_checksum) + entry_lines(entries)
}

/// The text of a manifest file.
pub open spec fn manifest_text(entries: Seq<ElementView>, xor_checksum: Seq<u8>) -> Seq<char> {
    join_lines(manifest_lines(entries, xor_checksum))
}

/// Escaping a text without line feeds gives one without line feeds.
pub proof fn lemma_escape_plain(text: Seq<char>, special: char)
    requires
        forall|i: int| 0 <= i < text.len() ==> text[i] != '\n',
    ensures
        forall|i: int| 0 <= i < escape(text, special).len() ==> escape(text, special)[i] != '\n',
    decreases text.len(),
{
    if text.len() > 0 {
        assert forall|i: int| 0 <= i < text.skip(1).len() implies text.skip(1)[i] != '\n' by {
            assert(text.skip(1)[i] == text[i + 1]);
        }
        lemma_escape_plain(text.skip(1), special);
        let rest = escape(text.skip(1), special);
        let all = escape(text, special);
        assert forall|i: int| 0 <= i < all.len() implies all[i] != '\n' by {
            if text[0] == '\\' || text[0] == special {
                if i >= 2 {
                    assert(all[i] == rest[i - 2]);
                }
            } else {
                if i >= 1 {
                    assert(all[i] == rest[i - 1]);
                }
            }
        }
    }
}

/// Whether an entry can stand in a line of a file: its path and the target
/// of its link hold no line feed.
pub open spec fn fits_a_line(e: ElementView) -> bool {
    &&& forall|i: int| 0 <= i < e.path.len() ==> e.path[i] != '\n'
    &&& e.variant matches VariantView::Link { target } ==> forall|i: int|
        0 <= i < target.len() ==> target[i] != '\n'
}

/// Whether the digest of the content, where an entry has one, has the
/// width of a digest. Every entry of a list is such.
pub open spec fn digest_fits(e: ElementView) -> bool {
    e.variant matches VariantView::File { checksum } ==> checksum.len() == HASH_OUTPUT_LENGTH
}

/// The line of an entry that fits a line is plain.
pub proof fn lemma_element_text_plain(e: ElementView)
    requires
        fits_a_line(e),
    ensures
        plain_line(element_text(e)),
{
    let line = element_text(e);
    let path = escape(e.path, ',');
    let time = decimal_repr(e.modified_time as nat);
    let variant = variant_text(e.variant);
    lemma_escape_plain(e.path, ',');
    lemma_decimal_repr(e.modified_time as nat);
    match e.variant {
        VariantView::File { checksum } => {
            lemma_hex_plain(checksum);
        },
        VariantView::Link { target } => {
            lemma_escape_plain(target, ')');
        },
    }
    assert forall|i: int| 0 <= i < variant.len() implies variant[i] != '\n' by {
        match e.variant {
            VariantView::File { checksum } => {
                let digits = hex_upper(checksum);
                if 5 <= i < 5 + digits.len() {
                    assert(variant[i] == digits[i - 5]);
                }
            },
            VariantView::Link { target } => {
                let escaped = escape(target, ')');
                if 5 <= i < 5 + escaped.len() {
                    assert(variant[i] == escaped[i - 5]);
                }
            },
        }
    }
    assert forall|i: int| 0 <= i < line.len() implies line[i] != '\n' by {
        let a = 1 + path.len();
        let b = a + 1 + time.len();
        let c = b + 1 + variant.len();
        if 1 <= i < a {
            assert(line[i] == path[i - 1]);
        } else if a < i < b {
            assert(line[i] == time[i - a - 1]);
            assert(is_digit(time[i - a - 1]));
        } else if b < i < c {
            assert(line[i] == variant[i - b - 1]);
        }
    }
    assert(line.last() == ']');
}

/// A manifest that was written is read back as it was: the lines of its
/// text denote its entries and its fold. This holds of every list whose
/// paths and link targets hold no line feed.
pub proof fn lemma_read_written(entries: Seq<ElementView>, xor_checksum: Seq<u8>)
    requires
        xor_checksum == xor_fold(entries),
        forall|i: int| 0 <= i < entries.len() ==> fits_a_line(#[trigger] entries[i]),
        forall|i: int| 0 <= i < entries.len() ==> digest_fits(#[trigger] entries[i]),
    ensures
        split_lines(manifest_text(entries, xor_checksum)) == manifest_lines(
            entries,
            xor_checksum,
        ),
        read_manifest(manifest_lines(entries, xor_checksum)) == Some(
            Ok::<(Seq<ElementView>, Seq<u8>), OpenFailure>((entries, xor_checksum)),
        ),
{
    let lines = manifest_lines(entries, xor_checksum);
    let heads = header_lines(entries, xor_checksum);
    let xor_text = hex_upper(xor_checksum);
    let fin_text = hex_upper(final_checksum(entries, xor_checksum));
    reveal_strlit("LISTVERSION = ");
    reveal_strlit("XORCHECKSUM = ");
    reveal_strlit("CHECKSUM = ");
    reveal_strlit("1.1");
    reveal_strlit("1.0");
    lemma_hex_plain(xor_checksum);
    lemma_hex_plain(final_checksum(entries, xor_checksum));
    lemma_xor_fold_len(entries);
    lemma_hex_round_trip(xor_checksum);

    assert(plain_line(heads[0])) by {
        let line = heads[0];
        assert(line.last() == '1');
    }
    assert(plain_line(heads[1])) by {
        let line = heads[1];
        assert forall|i: int| 0 <= i < line.len() implies line[i] != '\n' by {
            if i >= XOR_CHECKSUM_PREFIX@.len() {
                assert(line[i] == xor_text[i - XOR_CHECKSUM_PREFIX@.len()]);
            }
        }
        assert(line.last() == xor_text[xor_text.len() - 1]);
    }
    assert(plain_line(heads[2])) by {
        let line = heads[2];
        assert forall|i: int| 0 <= i < line.len() implies line[i] != '\n' by {
            if i >= FIN_CHECKSUM_PREFIX@.len() {
                assert(line[i] == fin_text[i - FIN_CHECKSUM_PREFIX@.len()]);
            }
        }
        if fin_text.len() > 0 {
            assert(line.last() == fin_text[fin_text.len() - 1]);
        } else {
            assert(line.last() == ' ');
        }
    }
    assert forall|i: int| 0 <= i < lines.len() implies plain_line(#[trigger] lines[i]) by {
        if i >= 3 {
            assert(lines[i] == element_text(entries[i - 3]));
            assert(fits_a_line(entries[i - 3]));
            lemma_element_text_plain(entries[i - 3]);
        } else {
            assert(lines[i] == heads[i]);
        }
    }
    lemma_split_joined(lines);

    assert(lines[0] == heads[0] && lines[1] == heads[1] && lines[2] == heads[2]);
    assert(version_of(lines[0]) is V1_1) by {
        assert(LIST_VERSION_PREFIX@ =~= lines[0].subrange(0, LIST_VERSION_PREFIX@.len() as int));
        assert(lines[0].skip(LIST_VERSION_PREFIX@.len() as int) =~= CURRENT_LIST_VERSION@);
    }
    assert(behind(XOR_CHECKSUM_PREFIX@, lines[1]) == Some(xor_text)) by {
        assert(XOR_CHECKSUM_PREFIX@ =~= lines[1].subrange(0, XOR_CHECKSUM_PREFIX@.len() as int));
        assert(lines[1].skip(XOR_CHECKSUM_PREFIX@.len() as int) =~= xor_text);
    }
    assert(behind(FIN_CHECKSUM_PREFIX@, lines[2]) == Some(fin_text)) by {
        assert(FIN_CHECKSUM_PREFIX@ =~= lines[2].subrange(0, FIN_CHECKSUM_PREFIX@.len() as int));
        assert(lines[2].skip(FIN_CHECKSUM_PREFIX@.len() as int) =~= fin_text);
    }
    assert(hex_decode_digest(xor_text) == Some(xor_checksum));
    let rest = lines.skip(3);
    assert(rest =~= entry_lines(entries));
    assert forall|i: int| 0 <= i < rest.len() implies (#[trigger] parse_element(rest[i])) == Ok::<
        ElementView,
        ParseFailure,
    >(entries[i]) by {
        assert(digest_fits(entries[i]));
        lemma_parse_element_text(entries[i]);
    }
    assert(parsed_entries(rest) =~= entries);
}

/// A manifest file that was written, read and written again is the same
/// file, character for character.
pub proof fn lemma_written_again(entries: Seq<ElementView>, xor_checksum: Seq<u8>)
    requires
        xor_checksum == xor_fold(entries),
        forall|i: int| 0 <= i < entries.len() ==> fits_a_line(#[trigger] entries[i]),
        forall|i: int| 0 <= i < entries.len() ==> digest_fits(#[trigger] entries[i]),
    ensures
        read_manifest(split_lines(manifest_text(entries, xor_checksum))) matches Some(
            Ok((read_entries, read_xor)),
        ) && manifest_text(read_entries, read_xor) == manifest_text(entries, xor_checksum),
{
    lemma_read_written(entries, xor_checksum);
}

impl EDList {
    /// The text of the manifest file for the list. The line of the fold
    /// holds the fold that the list carries: it is not computed anew from
    /// the entries.
    pub fn file_text(&self) -> (r: String)
        ensures
            r@ == manifest_text(self@.entries, self@.xor_checksum),
    {
        let ghost entries = self@.entries;
        let mut hasher = Hasher::new();
        let mut element_string = String::new();
        let mut i: usize = 0;
        proof {
            assert(entries.take(0) =~= Seq::<ElementView>::empty());
            assert(entry_lines(entries.take(0)) =~= Seq::<Seq<char>>::empty());
        }
        while i < self.element_list.len()
            invariant
                i <= self.element_list.len(),
                entries == element_views(self.element_list@),
                absorbed(hasher) == digest_bytes(entries.take(i as int)),
                element_string@ == join_lines(entry_lines(entries.take(i as int))),
            decreases self.element_list.len() - i,
        {
            let element = &self.element_list[i];
            proof {
                let seen = entries.take(i as int);
                let next = entries.take(i + 1);
                assert(next.drop_last() =~= seen);
                assert(next.last() == element@);
                assert(entry_lines(next).drop_last() =~= entry_lines(seen));
                assert(entry_lines(next).last() == element_text(element@));
            }
            let line = element.to_string();
            element_string.append(line.as_str());
            element_string.push('\n');
            hasher.update(element.get_hash().as_ref().as_slice());
            proof {
                let seen = entries.take(i as int);
                assert(element_string@ =~= join_lines(entry_lines(seen)) + element_text(element@)
                    + seq!['\n']);
            }
            i = i + 1;
        }
        assert(entries.take(i as int) =~= entries);
        hasher.update(self.xor_checksum.as_ref().as_slice());
        let fin_checksum = blake2_to_checksum(hasher);

        let mut text = String::new();
        text.append(LIST_VERSION_PREFIX);
        text.append(CURRENT_LIST_VERSION);
        text.push('\n');
        text.append(XOR_CHECKSUM_PREFIX);
        text.append(encode_upper(self.xor_checksum.as_ref().as_slice()).as_str());
        text.push('\n');
        text.append(FIN_CHECKSUM_PREFIX);
        text.append(encode_upper(fin_checksum.as_ref().as_slice()).as_str());
        text.push('\n');
        proof {
            let heads = header_lines(entries, self@.xor_checksum);
            assert(heads.drop_last().drop_last().drop_last() =~= Seq::<Seq<char>>::empty());
            assert(join_lines(heads.drop_last().drop_last()) =~= heads[0] + seq!['\n']) by {
                assert(heads.drop_last().drop_last().last() == heads[0]);
                assert(join_lines(Seq::<Seq<char>>::empty()) =~= Seq::<char>::empty());
            }
            assert(join_lines(heads.drop_last()) =~= heads[0] + seq!['\n'] + heads[1] + seq![
                '\n',
            ]) by {
                assert(heads.drop_last().last() == heads[1]);
            }
            assert(join_lines(heads) =~= heads[0] + seq!['\n'] + heads[1] + seq!['\n'] + heads[2]
                + seq!['\n']) by {
                assert(heads.last() == heads[2]);
            }
            assert(text@ =~= join_lines(heads));
            lemma_join_lines_concat(heads, entry_lines(entries));
        }
        text.append(element_string.as_str());
        text
    }
}

} // verus!
