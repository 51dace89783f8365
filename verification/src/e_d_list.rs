//! The manifest: an ordered list of entries under a dual checksum.
//!
//! The file of a manifest holds three header lines, then one line for each
//! entry:
//!
//! ```text
//! LISTVERSION = 1.1
//! XORCHECKSUM = <the XOR fold, in hexadecimal>
//! CHECKSUM = <the final checksum, in hexadecimal>
//! ```
//!
//! The XOR fold is kept as the file states it and is updated entry by entry;
//! it is never computed anew from the entries while the list is in use.

pub mod duplicates;
pub mod e_d_element;
pub mod errors;
pub mod fold;
pub mod ordering;
pub mod relative;
pub mod storage;
pub mod sync;
pub mod upkeep;

use std::ops::BitXorAssign;
use vstd::prelude::*;
use rayon::iter::{IndexedParallelIterator, IntoParallelRefIterator, ParallelIterator};
use crate::path_banlist::PathBanlist;
use crate::shared::checksum::{zero_digest, Checksum};
use crate::shared::constants::{FIN_CHECKSUM_PREFIX, LIST_VERSION_PREFIX, XOR_CHECKSUM_PREFIX};
use crate::shared::functions::{absorbed, blake2_to_checksum, Hasher};
use crate::shared::hex_text::{decode_digest, encode_upper, hex_decode_digest, hex_upper};
use crate::shared::interfacer::YesNo;
use crate::shared::text::{prefix_split, same_text, texts};
use e_d_element::errors::{EDElementParseError, ParseFailure};
use e_d_element::format::parse_element;
use e_d_element::{EDElement, ElementView};
use errors::{EDListOpenError, OpenFailure, UnsupportedEDListVersion, VersionFailure};
use fold::{digest_bytes, final_checksum, xor_fold};

verus! {

/// What the first line of a manifest file says of its format.
pub enum ListVersion<'a> {
    V1_0,
    V1_1,
    MissingIdentifier,
    InvalidVersion(&'a str),
}

/// The mathematical value of `ListVersion`.
pub enum VersionView {
    V1_0,
    V1_1,
    MissingIdentifier,
    InvalidVersion(Seq<char>),
}

impl<'a> View for ListVersion<'a> {
    type V = VersionView;

    open spec fn view(&self) -> VersionView {
        match self {
            ListVersion::V1_0 => VersionView::V1_0,
            ListVersion::V1_1 => VersionView::V1_1,
            ListVersion::MissingIdentifier => VersionView::MissingIdentifier,
            ListVersion::InvalidVersion(identifier) => VersionView::InvalidVersion(identifier@),
        }
    }
}

/// What a first line says of the format.
pub open spec fn version_of(line: Seq<char>) -> VersionView {
    if LIST_VERSION_PREFIX@.is_prefix_of(line) {
        let identifier = line.skip(LIST_VERSION_PREFIX@.len() as int);
        if identifier == "1.1"@ {
            VersionView::V1_1
        } else if identifier == "1.0"@ {
            VersionView::V1_0
        } else {
            VersionView::InvalidVersion(identifier)
        }
    } else {
        VersionView::MissingIdentifier
    }
}

/// The text behind `prefix` in `line`, if the line starts with it.
pub open spec fn behind(prefix: Seq<char>, line: Seq<char>) -> Option<Seq<char>> {
    if prefix.is_prefix_of(line) {
        Some(line.skip(prefix.len() as int))
    } else {
        None
    }
}

/// The mathematical value of a manifest.
pub struct ListView {
    pub entries: Seq<ElementView>,
    pub xor_checksum: Seq<u8>,
    pub root_path: Seq<char>,
}

/// The entries that the lines of a manifest file denote, as far as every
/// line is one.
pub open spec fn parsed_entries(lines: Seq<Seq<char>>) -> Seq<ElementView> {
    Seq::new(lines.len(), |i: int| parse_element(lines[i])->Ok_0)
}

/// Whether every line is an entry.
pub open spec fn all_parse(lines: Seq<Seq<char>>) -> bool {
    forall|i: int| 0 <= i < lines.len() ==> (#[trigger] parse_element(lines[i])) is Ok
}

/// What the lines of a manifest file denote: the entries and the XOR fold,
/// or the first reason, in the order of the checks, why they denote none.
/// Where the headers are sound and some line is no entry, any such line may
/// be the one reported: `None` stands for that.
pub open spec fn read_manifest(lines: Seq<Seq<char>>) -> Option<
    Result<(Seq<ElementView>, Seq<u8>), OpenFailure>,
> {
    if lines.len() < 3 {
        Some(Err(OpenFailure::ChecksumsMissingError))
    } else {
        match version_of(lines[0]) {
            VersionView::V1_0 => Some(
                Err(OpenFailure::UnsupportedEDListVersion(VersionFailure::V1_0)),
            ),
            VersionView::MissingIdentifier => Some(
                Err(OpenFailure::UnsupportedEDListVersion(VersionFailure::MissingIdentifier)),
            ),
            VersionView::InvalidVersion(identifier) => Some(
                Err(OpenFailure::UnsupportedEDListVersion(VersionFailure::Invalid(identifier))),
            ),
            VersionView::V1_1 => match behind(XOR_CHECKSUM_PREFIX@, lines[1]) {
                None => Some(Err(OpenFailure::InvalidXorChecksum)),
                Some(xor_text) => match hex_decode_digest(xor_text) {
                    None => Some(Err(OpenFailure::UndecodableXorChecksum)),
                    Some(file_xor) => match behind(FIN_CHECKSUM_PREFIX@, lines[2]) {
                        None => Some(Err(OpenFailure::InvalidFinChecksum)),
                        Some(fin_text) => {
                            let entry_lines = lines.skip(3);
                            let entries = parsed_entries(entry_lines);
                            if !all_parse(entry_lines) {
                                None
                            } else if xor_fold(entries) != file_xor {
                                Some(Err(OpenFailure::XorChecksumMismatch))
                            } else if fin_text != hex_upper(final_checksum(entries, file_xor)) {
                                Some(Err(OpenFailure::FinChecksumMismatch))
                            } else {
                                Some(Ok((entries, file_xor)))
                            }
                        },
                    },
                },
            },
        }
    }
}

/// Reads one line as an entry; a failure carries `index` along.
pub fn parse_indexed(index: usize, line: &String) -> (r: Result<
    EDElement,
    (EDElementParseError, usize),
>)
    ensures
        match parse_element(line@) {
            Ok(e) => r matches Ok(element) && element@ == e,
            Err(failure) => r matches Err((err, i)) && err@ == failure && i == index,
        },
{
    match EDElement::from_str(line.as_str()) {
        Ok(element) => Ok(element),
        Err(err) => Err((err, index)),
    }
}

/// Reads the lines from `lines[from]` on as entries, on rayon's thread
/// pool: `par_iter`, `enumerate` and `map` hand every line with its position
/// to `parse_indexed`, and `collect` gathers the entries in the order of the
/// lines. If a line fails, `collect` returns the failure of one such line,
/// not necessarily of the first.
#[verifier::external_body]
fn parse_elements(lines: &Vec<String>, from: usize) -> (r: Result<
    Vec<EDElement>,
    (EDElementParseError, usize),
>)
    requires
        from <= lines.len(),
    ensures
        match r {
            Ok(elements) => elements.len() == lines.len() - from && forall|i: int|
                0 <= i < elements.len() ==> parse_element(#[trigger] lines[from + i]@) == Ok::<
                    ElementView,
                    ParseFailure,
                >(elements[i]@),
            Err((err, index)) => index < lines.len() - from && parse_element(
                lines[from + index]@,
            ) == Err::<ElementView, ParseFailure>(err@),
        },
{
    lines[from..].par_iter().enumerate().map(|(index, line)| parse_indexed(index, line)).collect()
}

/// The entries of a list as mathematical values.
pub open spec fn element_views(elements: Seq<EDElement>) -> Seq<ElementView> {
    Seq::new(elements.len(), |i: int| elements[i]@)
}

/// The list of all files and links below a root directory, but for those
/// under a banned prefix.
#[derive(Debug)]
pub struct EDList {
    element_list: Vec<EDElement>,
    banlist: PathBanlist,
    xor_checksum: Checksum,
    root_path: String,
}

impl View for EDList {
    type V = ListView;

    closed spec fn view(&self) -> ListView {
        ListView {
            entries: element_views(self.element_list@),
            xor_checksum: self.xor_checksum@,
            root_path: self.root_path@,
        }
    }
}

impl EDList {
    /// The fold that the list carries is the XOR of the digests of its
    /// entries.
    pub open spec fn wf(&self) -> bool {
        self@.xor_checksum == xor_fold(self@.entries)
    }

    /// The banlist that the list was opened with.
    pub closed spec fn banlist_view(&self) -> PathBanlist {
        self.banlist
    }

    fn new(
        root_path: String,
        banlist: PathBanlist,
        element_list: Vec<EDElement>,
        xor_checksum: Checksum,
    ) -> (r: EDList)
        ensures
            r@ == (ListView {
                entries: element_views(element_list@),
                xor_checksum: xor_checksum@,
                root_path: root_path@,
            }),
            r.banlist_view() == banlist,
    {
        EDList { element_list, banlist, xor_checksum, root_path }
    }

    /// Determines the format version that a first line states.
    fn get_version_from_line(line: &str) -> (r: ListVersion<'_>)
        ensures
            r@ == version_of(line@),
    {
        match prefix_split(LIST_VERSION_PREFIX, line) {
            Some(identifier) => {
                if same_text(identifier, "1.1") {
                    ListVersion::V1_1
                } else if same_text(identifier, "1.0") {
                    ListVersion::V1_0
                } else {
                    ListVersion::InvalidVersion(identifier)
                }
            },
            None => ListVersion::MissingIdentifier,
        }
    }

    /// The XOR fold of the given entries, and their final checksum under the
    /// fold `stated`.
    fn checksums_of(elements: &Vec<EDElement>, stated: &Checksum) -> (r: (Checksum, Checksum))
        ensures
            r.0@ == xor_fold(element_views(elements@)),
            r.1@ == final_checksum(element_views(elements@), stated@),
    {
        let mut xor_checksum = Checksum::default();
        let mut hasher = Hasher::new();
        let ghost views = element_views(elements@);
        let mut i: usize = 0;
        assert(views.take(0) =~= Seq::<ElementView>::empty());
        while i < elements.len()
            invariant
                i <= elements.len(),
                views == element_views(elements@),
                xor_checksum@ == xor_fold(views.take(i as int)),
                absorbed(hasher) == digest_bytes(views.take(i as int)),
            decreases elements.len() - i,
        {
            proof {
                assert(views.take(i + 1).drop_last() =~= views.take(i as int));
                assert(views.take(i + 1).last() == elements@[i as int]@);
            }
            let element = &elements[i];
            hasher.update(element.get_hash().as_ref().as_slice());
            xor_checksum.bitxor_assign(element.get_hash());
            i = i + 1;
        }
        assert(views.take(i as int) =~= views);
        hasher.update(stated.as_ref().as_slice());
        (xor_checksum, blake2_to_checksum(hasher))
    }

    /// Makes the empty list for a directory that has no manifest yet.
    ///
    /// The list is handed out in a box, and this function is never inlined:
    /// a jump that goes astray into it does not come back with what the
    /// reading of a file returns.
    #[inline(never)]
    fn create_empty_e_d_list(root_path: &str, banlist: PathBanlist) -> (r: Box<EDList>)
        ensures
            r@ == (ListView {
                entries: Seq::empty(),
                xor_checksum: zero_digest(),
                root_path: root_path@,
            }),
            r.wf(),
            r.banlist_view() == banlist,
    {
        let list = EDList::new(root_path.to_owned(), banlist, Vec::new(), Checksum::default());
        assert(list@.entries =~= Seq::<ElementView>::empty());
        Box::new(list)
    }

    /// Opens the list of a directory in which no manifest file was found:
    /// an empty list if the operator wants one made, and otherwise none.
    pub fn open_missing(root_path: &str, create_new: YesNo, banlist: PathBanlist) -> (r: Result<
        EDList,
        EDListOpenError,
    >)
        ensures
            match r {
                Ok(list) => create_new == YesNo::Yes && list@ == (ListView {
                    entries: Seq::empty(),
                    xor_checksum: zero_digest(),
                    root_path: root_path@,
                }) && list.wf() && list.banlist_view() == banlist,
                Err(err) => create_new == YesNo::No
                    && err matches EDListOpenError::CouldNotOpenFileHashesFile,
            },
    {
        if create_new == YesNo::Yes {
            Ok(*EDList::create_empty_e_d_list(root_path, banlist))
        } else {
            Err(EDListOpenError::CouldNotOpenFileHashesFile)
        }
    }

    /// Reads the lines of a manifest file as a list below `root_path`.
    ///
    /// The list takes its XOR fold from the file, not from the entries; the
    /// fold of the entries is then held against it, and their final checksum
    /// against that of the file.
    pub fn open(root_path: &str, lines: Vec<String>, banlist: PathBanlist) -> (r: Result<
        EDList,
        EDListOpenError,
    >)
        ensures
            match r {
                Ok(list) => read_manifest(texts(lines@)) matches Some(Ok((entries, xor_checksum)))
                    && list@ == (ListView { entries, xor_checksum, root_path: root_path@ })
                    && list.wf() && list.banlist_view() == banlist,
                Err(err) => match read_manifest(texts(lines@)) {
                    Some(outcome) => outcome == Err::<(Seq<ElementView>, Seq<u8>), OpenFailure>(
                        err@,
                    ),
                    None => err@ matches OpenFailure::EDElementParseError(failure, index) && index
                        + 3 < lines.len() && parse_element(lines[index + 3]@) == Err::<
                        ElementView,
                        ParseFailure,
                    >(failure),
                },
            },
    {
        let ghost all = texts(lines@);
        if lines.len() < 3 {
            return Err(EDListOpenError::ChecksumsMissingError);
        }
        assert(all[0] == lines@[0]@ && all[1] == lines@[1]@ && all[2] == lines@[2]@);
        match EDList::get_version_from_line(lines[0].as_str()) {
            ListVersion::V1_1 => {},
            ListVersion::V1_0 => {
                return Err(
                    EDListOpenError::UnsupportedEDListVersion(UnsupportedEDListVersion::V1_0),
                );
            },
            ListVersion::MissingIdentifier => {
                return Err(
                    EDListOpenError::UnsupportedEDListVersion(
                        UnsupportedEDListVersion::MissingIdentifier,
                    ),
                );
            },
            ListVersion::InvalidVersion(version_identifier) => {
                return Err(
                    EDListOpenError::UnsupportedEDListVersion(
                        UnsupportedEDListVersion::Invalid(version_identifier.to_owned()),
                    ),
                );
            },
        }
        let file_xor_checksum = match prefix_split(XOR_CHECKSUM_PREFIX, lines[1].as_str()) {
            Some(xor_checksum_string) => match decode_digest(xor_checksum_string) {
                Ok(xor_checksum) => xor_checksum,
                Err(err) => {
                    return Err(EDListOpenError::UndecodableXorChecksum(err));
                },
            },
            None => {
                return Err(EDListOpenError::InvalidXorChecksum);
            },
        };
        let file_final_checksum = match prefix_split(FIN_CHECKSUM_PREFIX, lines[2].as_str()) {
            Some(fin_checksum_string) => fin_checksum_string,
            None => {
                return Err(EDListOpenError::InvalidFinChecksum);
            },
        };
        let ghost entry_lines = all.skip(3);
        let e_d_elements = match parse_elements(&lines, 3) {
            Ok(e_d_elements) => e_d_elements,
            Err((err, index)) => {
                proof {
                    assert(entry_lines[index as int] == lines@[3 + index]@);
                    assert(!all_parse(entry_lines));
                }
                return Err(EDListOpenError::EDElementParseError(err, index));
            },
        };
        proof {
            assert forall|i: int| 0 <= i < entry_lines.len() implies (#[trigger] parse_element(
                entry_lines[i],
            )) == Ok::<ElementView, ParseFailure>(e_d_elements@[i]@) by {
                assert(entry_lines[i] == lines[3 + i]@);
            }
            assert(element_views(e_d_elements@) =~= parsed_entries(entry_lines));
        }
        let (xor_checksum, final_checksum) = EDList::checksums_of(
            &e_d_elements,
            &file_xor_checksum,
        );
        let e_d_list = EDList::new(
            root_path.to_owned(),
            banlist,
            e_d_elements,
            file_xor_checksum,
        );
        if e_d_list.xor_checksum != xor_checksum {
            return Err(EDListOpenError::XorChecksumMismatch);
        }
        let final_text = encode_upper(final_checksum.as_ref().as_slice());
        if !same_text(file_final_checksum, final_text.as_str()) {
            return Err(EDListOpenError::FinChecksumMismatch);
        }
        Ok(e_d_list)
    }
}

} // verus!
