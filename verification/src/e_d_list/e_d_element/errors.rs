//! What can go wrong with a single manifest entry.

use vstd::prelude::*;

verus! {

/// `std::io::Error`, carried as it comes: nothing inside it is read.
#[verifier::external_type_specification]
#[verifier::external_body]
pub struct ExIoError(std::io::Error);

/// Failure to build an entry from a path, or to confirm one against it.
#[derive(Debug)]
pub enum EDElementError {
    /// The metadata of the path could not be read.
    GetMetaDataError(String, std::io::Error),
    /// The file at the path could not be opened.
    OpenFileError(String, std::io::Error),
    /// Reading the file at the path failed while it was hashed.
    FileHashingError(String, FileHashingError),
    /// The path is a link whose target is not UTF-8.
    InvalidUtf8Link(String),
    /// The target of a link could not be reached.
    VerifyLinkPathError(VerifyLinkPathError),
    /// The path no longer matches what the entry records.
    VerifyError(EDElementVerifyError),
    /// The link at the path now has a target that is not UTF-8.
    LinkTargetInvalidUtf8(String),
    /// The path is neither a regular file nor a symbolic link.
    PathNotRegular(String),
}

/// An input error while a file was hashed.
#[derive(Debug)]
pub struct FileHashingError {
    pub error: std::io::Error,
}

impl From<std::io::Error> for FileHashingError {
    fn from(error: std::io::Error) -> (r: FileHashingError) {
        FileHashingError { error }
    }
}

impl vstd::std_specs::convert::FromSpecImpl<std::io::Error> for FileHashingError {
    open spec fn obeys_from_spec() -> bool {
        true
    }

    open spec fn from_spec(error: std::io::Error) -> FileHashingError {
        FileHashingError { error }
    }
}

/// Failure to reach the target of a link: the path of the link, then its
/// target.
#[derive(Debug)]
pub enum VerifyLinkPathError {
    /// The path of the link has no parent directory.
    LinkFileNoParentError(String, String),
    /// The target, resolved against the parent of the link, did not open.
    UnableToOpenLinkTarget(String, String, std::io::Error),
}

/// A mismatch between an entry and the object at its path; each variant
/// carries the path.
#[derive(Debug)]
pub enum EDElementVerifyError {
    /// The content is as recorded, the modification time is not.
    TimeChangedButFileCorrectError(String),
    /// Both content and modification time differ.
    TimeChangedAndFileChanged(String),
    /// The content differs, the modification time is as recorded.
    InvalidChecksum(String),
    /// The link target is as recorded, the modification time is not.
    LinkTargetValidTimeChanged(String),
    /// The link target differs, the modification time is as recorded.
    LinkTargetInvalid(String),
    /// Both link target and modification time differ.
    LinkTargetInvalidTimeChanged(String),
    /// The path is a directory.
    PathIsDirectory(String),
    /// The modification time differs.
    TimeChanged(String),
}

impl From<VerifyLinkPathError> for EDElementError {
    fn from(err: VerifyLinkPathError) -> (r: EDElementError) {
        EDElementError::VerifyLinkPathError(err)
    }
}

impl vstd::std_specs::convert::FromSpecImpl<VerifyLinkPathError> for EDElementError {
    open spec fn obeys_from_spec() -> bool {
        true
    }

    open spec fn from_spec(err: VerifyLinkPathError) -> EDElementError {
        EDElementError::VerifyLinkPathError(err)
    }
}

impl From<EDElementVerifyError> for EDElementError {
    fn from(err: EDElementVerifyError) -> (r: EDElementError) {
        EDElementError::VerifyError(err)
    }
}

impl vstd::std_specs::convert::FromSpecImpl<EDElementVerifyError> for EDElementError {
    open spec fn obeys_from_spec() -> bool {
        true
    }

    open spec fn from_spec(err: EDElementVerifyError) -> EDElementError {
        EDElementError::VerifyError(err)
    }
}

/// Why a line is not a manifest entry.
#[derive(Debug)]
pub enum EDElementParseError {
    /// The line does not start with `[`.
    NoStartBracket,
    /// A `\` is the last character of the path or of the link target.
    EscapedCharacterMissing,
    /// No `,` ends the path.
    NoFilePathTerminator,
    /// No `,` ends the modification time.
    NoModifiedTimeTerminator,
    /// The modification time is not a decimal number of 64 bits.
    ModifiedTimeCouldNotBeParsed(std::num::ParseIntError),
    /// Fewer than five bytes follow the modification time.
    NoVariantInformation,
    /// Fewer bytes than a whole digest follow `file(`.
    IncompleteFileHash,
    /// The digest of a file is not hexadecimal.
    FileHashDecodeError(hex::FromHexError),
    /// No `)` ends the digest or the link target.
    NoVariantTerminator,
    /// The variant is neither `file(` nor `link(`.
    InvalidVariantIdentifier,
    /// No `]` follows the variant.
    NoTerminatorBracket,
}

/// The kinds of `EDElementParseError`, without what the outside parsers
/// report.
pub enum ParseFailure {
    NoStartBracket,
    EscapedCharacterMissing,
    NoFilePathTerminator,
    NoModifiedTimeTerminator,
    ModifiedTimeCouldNotBeParsed,
    NoVariantInformation,
    IncompleteFileHash,
    FileHashDecodeError,
    NoVariantTerminator,
    InvalidVariantIdentifier,
    NoTerminatorBracket,
}

impl View for EDElementParseError {
    type V = ParseFailure;

    open spec fn view(&self) -> ParseFailure {
        match self {
            EDElementParseError::NoStartBracket => ParseFailure::NoStartBracket,
            EDElementParseError::EscapedCharacterMissing => ParseFailure::EscapedCharacterMissing,
            EDElementParseError::NoFilePathTerminator => ParseFailure::NoFilePathTerminator,
            EDElementParseError::NoModifiedTimeTerminator => ParseFailure::NoModifiedTimeTerminator,
            EDElementParseError::ModifiedTimeCouldNotBeParsed(_) =>
                ParseFailure::ModifiedTimeCouldNotBeParsed,
            EDElementParseError::NoVariantInformation => ParseFailure::NoVariantInformation,
            EDElementParseError::IncompleteFileHash => ParseFailure::IncompleteFileHash,
            EDElementParseError::FileHashDecodeError(_) => ParseFailure::FileHashDecodeError,
            EDElementParseError::NoVariantTerminator => ParseFailure::NoVariantTerminator,
            EDElementParseError::InvalidVariantIdentifier => ParseFailure::InvalidVariantIdentifier,
            EDElementParseError::NoTerminatorBracket => ParseFailure::NoTerminatorBracket,
        }
    }
}

impl From<std::num::ParseIntError> for EDElementParseError {
    fn from(err: std::num::ParseIntError) -> (r: EDElementParseError) {
        EDElementParseError::ModifiedTimeCouldNotBeParsed(err)
    }
}

impl vstd::std_specs::convert::FromSpecImpl<std::num::ParseIntError> for EDElementParseError {
    open spec fn obeys_from_spec() -> bool {
        true
    }

    open spec fn from_spec(err: std::num::ParseIntError) -> EDElementParseError {
        EDElementParseError::ModifiedTimeCouldNotBeParsed(err)
    }
}

impl From<hex::FromHexError> for EDElementParseError {
    fn from(err: hex::FromHexError) -> (r: EDElementParseError) {
        EDElementParseError::FileHashDecodeError(err)
    }
}

impl vstd::std_specs::convert::FromSpecImpl<hex::FromHexError> for EDElementParseError {
    open spec fn obeys_from_spec() -> bool {
        true
    }

    open spec fn from_spec(err: hex::FromHexError) -> EDElementParseError {
        EDElementParseError::FileHashDecodeError(err)
    }
}


/// The mathematical value of `VerifyLinkPathError`, without what the file
/// system reported.
pub enum LinkPathFailure {
    LinkFileNoParentError(Seq<char>, Seq<char>),
    UnableToOpenLinkTarget(Seq<char>, Seq<char>),
}

impl View for VerifyLinkPathError {
    type V = LinkPathFailure;

    open spec fn view(&self) -> LinkPathFailure {
        match self {
            VerifyLinkPathError::LinkFileNoParentError(path, target) =>
                LinkPathFailure::LinkFileNoParentError(path@, target@),
            VerifyLinkPathError::UnableToOpenLinkTarget(path, target, _) =>
                LinkPathFailure::UnableToOpenLinkTarget(path@, target@),
        }
    }
}

/// The mathematical value of `EDElementVerifyError`.
pub enum VerifyFailure {
    TimeChangedButFileCorrectError(Seq<char>),
    TimeChangedAndFileChanged(Seq<char>),
    InvalidChecksum(Seq<char>),
    LinkTargetValidTimeChanged(Seq<char>),
    LinkTargetInvalid(Seq<char>),
    LinkTargetInvalidTimeChanged(Seq<char>),
    PathIsDirectory(Seq<char>),
    TimeChanged(Seq<char>),
}

impl View for EDElementVerifyError {
    type V = VerifyFailure;

    open spec fn view(&self) -> VerifyFailure {
        match self {
            EDElementVerifyError::TimeChangedButFileCorrectError(path) =>
                VerifyFailure::TimeChangedButFileCorrectError(path@),
            EDElementVerifyError::TimeChangedAndFileChanged(path) =>
                VerifyFailure::TimeChangedAndFileChanged(path@),
            EDElementVerifyError::InvalidChecksum(path) => VerifyFailure::InvalidChecksum(path@),
            EDElementVerifyError::LinkTargetValidTimeChanged(path) =>
                VerifyFailure::LinkTargetValidTimeChanged(path@),
            EDElementVerifyError::LinkTargetInvalid(path) => VerifyFailure::LinkTargetInvalid(
                path@,
            ),
            EDElementVerifyError::LinkTargetInvalidTimeChanged(path) =>
                VerifyFailure::LinkTargetInvalidTimeChanged(path@),
            EDElementVerifyError::PathIsDirectory(path) => VerifyFailure::PathIsDirectory(path@),
            EDElementVerifyError::TimeChanged(path) => VerifyFailure::TimeChanged(path@),
        }
    }
}

/// The mathematical value of `EDElementError`, without what the file system
/// reported.
pub enum ElementFailure {
    GetMetaDataError(Seq<char>),
    OpenFileError(Seq<char>),
    FileHashingError(Seq<char>),
    InvalidUtf8Link(Seq<char>),
    VerifyLinkPathError(LinkPathFailure),
    VerifyError(VerifyFailure),
    LinkTargetInvalidUtf8(Seq<char>),
    PathNotRegular(Seq<char>),
}

impl View for EDElementError {
    type V = ElementFailure;

    open spec fn view(&self) -> ElementFailure {
        match self {
            EDElementError::GetMetaDataError(path, _) => ElementFailure::GetMetaDataError(path@),
            EDElementError::OpenFileError(path, _) => ElementFailure::OpenFileError(path@),
            EDElementError::FileHashingError(path, _) => ElementFailure::FileHashingError(path@),
            EDElementError::InvalidUtf8Link(path) => ElementFailure::InvalidUtf8Link(path@),
            EDElementError::VerifyLinkPathError(err) => ElementFailure::VerifyLinkPathError(err@),
            EDElementError::VerifyError(err) => ElementFailure::VerifyError(err@),
            EDElementError::LinkTargetInvalidUtf8(path) => ElementFailure::LinkTargetInvalidUtf8(
                path@,
            ),
            EDElementError::PathNotRegular(path) => ElementFailure::PathNotRegular(path@),
        }
    }
}

} // verus!
