//! What can go wrong with the manifest as a whole.

use vstd::prelude::*;
use crate::path_banlist::errors::OpenPathBanlistError;
use crate::shared::checksum::Checksum;
use super::e_d_element::errors::{EDElementError, EDElementParseError, ParseFailure};

verus! {

/// Failure to open the manifest.
#[derive(Debug)]
pub enum EDListOpenError {
    /// There was no manifest file and the operator declined a new one.
    CouldNotOpenFileHashesFile,
    /// The manifest file could not be read.
    IoError(std::io::Error),
    /// The file has fewer than its three header lines.
    ChecksumsMissingError,
    /// The first line does not state the supported format version.
    UnsupportedEDListVersion(UnsupportedEDListVersion),
    /// The second line does not start as the line of the XOR fold.
    InvalidXorChecksum,
    /// The XOR fold in the second line is not a digest in hexadecimal.
    UndecodableXorChecksum(hex::FromHexError),
    /// The third line does not start as the line of the final checksum.
    InvalidFinChecksum,
    /// A line is no entry: the reason, and the position of the entry,
    /// counted from zero.
    EDElementParseError(EDElementParseError, usize),
    /// The XOR fold of the entries is not the one the file states.
    XorChecksumMismatch,
    /// The final checksum of the entries is not the one the file states.
    FinChecksumMismatch,
    /// The backup of the manifest could not be written.
    WriteBackupError(WriteBackupError),
}

/// The kinds of `EDListOpenError` that reading the lines of a manifest can
/// give, without what the outside parsers report.
pub enum OpenFailure {
    ChecksumsMissingError,
    UnsupportedEDListVersion(VersionFailure),
    InvalidXorChecksum,
    UndecodableXorChecksum,
    InvalidFinChecksum,
    EDElementParseError(ParseFailure, usize),
    XorChecksumMismatch,
    FinChecksumMismatch,
    /// A failure of the file system, which comes from no line.
    Outside,
}

impl View for EDListOpenError {
    type V = OpenFailure;

    open spec fn view(&self) -> OpenFailure {
        match self {
            EDListOpenError::ChecksumsMissingError => OpenFailure::ChecksumsMissingError,
            EDListOpenError::UnsupportedEDListVersion(version) =>
                OpenFailure::UnsupportedEDListVersion(version@),
            EDListOpenError::InvalidXorChecksum => OpenFailure::InvalidXorChecksum,
            EDListOpenError::UndecodableXorChecksum(_) => OpenFailure::UndecodableXorChecksum,
            EDListOpenError::InvalidFinChecksum => OpenFailure::InvalidFinChecksum,
            EDListOpenError::EDElementParseError(err, index) => OpenFailure::EDElementParseError(
                err@,
                *index,
            ),
            EDListOpenError::XorChecksumMismatch => OpenFailure::XorChecksumMismatch,
            EDListOpenError::FinChecksumMismatch => OpenFailure::FinChecksumMismatch,
            _ => OpenFailure::Outside,
        }
    }
}

/// A format version that is not read.
#[derive(Debug)]
pub enum UnsupportedEDListVersion {
    /// A version other than those known: what the first line states.
    Invalid(String),
    /// Version 1.0, which an earlier release reads and upgrades.
    V1_0,
    /// The first line states no version.
    MissingIdentifier,
}

/// The mathematical value of `UnsupportedEDListVersion`.
pub enum VersionFailure {
    Invalid(Seq<char>),
    V1_0,
    MissingIdentifier,
}

impl View for UnsupportedEDListVersion {
    type V = VersionFailure;

    open spec fn view(&self) -> VersionFailure {
        match self {
            UnsupportedEDListVersion::Invalid(identifier) => VersionFailure::Invalid(identifier@),
            UnsupportedEDListVersion::V1_0 => VersionFailure::V1_0,
            UnsupportedEDListVersion::MissingIdentifier => VersionFailure::MissingIdentifier,
        }
    }
}

/// What a verification reports of one entry.
#[derive(Debug)]
pub enum VerifyError {
    /// The path of the entry is banned.
    PathInBanlist(String),
    /// The entry does not match the object at its path.
    EDElementError(EDElementError),
}

/// Failure to add entries to the manifest.
#[derive(Debug)]
pub enum CreateError {
    /// The directory tree could not be walked.
    IndexError(IndexError),
    /// No entry could be built for a path.
    EDElementError(EDElementError),
}

/// Failure to walk the directory tree.
#[derive(Debug)]
pub enum IndexError {
    /// A directory could not be listed: its path, and the reason.
    CantGetSubDirError(String, String),
    /// An entry of a directory could not be read.
    IoError(std::io::Error),
    /// A name in the directory of the given path is not UTF-8.
    OsStringConvertError(String),
}

/// Failure to write the backup of the manifest; each variant carries the
/// reason.
#[derive(Debug)]
pub enum WriteBackupError {
    CreateDirectoryError(String),
    CreateFileError(String),
    WriteEDListToFileError(WriteEDListToFileError),
}

/// Failure to write the manifest into an open file: the name of the file,
/// and the reason.
#[derive(Debug)]
pub enum WriteEDListToFileError {
    WriteError(String, String),
    FlushError(String, String),
}

/// Failure to write the manifest file.
#[derive(Debug)]
pub enum WriteHashFileError {
    WriteEDListToFileError(WriteEDListToFileError),
    /// The file could not be created: the reason.
    ErrorCreatingFile(String),
}

/// Failure of a synchronisation.
#[derive(Debug)]
pub enum SyncFromError {
    OpenPathBanlistError(OpenPathBanlistError),
    /// The manifest of the source could not be opened.
    EDListOpenError(EDListOpenError),
    /// A path to move or copy to has no parent directory.
    GetPathParentError,
    /// The file system refused an operation.
    IoError(std::io::Error),
    /// The link at the given path has a target that is not UTF-8.
    InvalidUtf8Link(String),
    /// The plan does not reproduce the source below the target prefix, or
    /// touches what lies outside it. The four digests: of the source, of the
    /// planned target, of the rest of the target after and before planning.
    ChecksumValidationError {
        source_rel: Checksum,
        target_rel: Checksum,
        new_negated_rel: Checksum,
        negated_rel: Checksum,
    },
    /// The operator called the synchronisation off.
    UserAbort,
}

impl From<std::io::Error> for EDListOpenError {
    fn from(err: std::io::Error) -> (r: EDListOpenError) {
        EDListOpenError::IoError(err)
    }
}

impl vstd::std_specs::convert::FromSpecImpl<std::io::Error> for EDListOpenError {
    open spec fn obeys_from_spec() -> bool {
        true
    }

    open spec fn from_spec(err: std::io::Error) -> EDListOpenError {
        EDListOpenError::IoError(err)
    }
}

impl From<UnsupportedEDListVersion> for EDListOpenError {
    fn from(err: UnsupportedEDListVersion) -> (r: EDListOpenError) {
        EDListOpenError::UnsupportedEDListVersion(err)
    }
}

impl vstd::std_specs::convert::FromSpecImpl<UnsupportedEDListVersion> for EDListOpenError {
    open spec fn obeys_from_spec() -> bool {
        true
    }

    open spec fn from_spec(err: UnsupportedEDListVersion) -> EDListOpenError {
        EDListOpenError::UnsupportedEDListVersion(err)
    }
}

impl From<hex::FromHexError> for EDListOpenError {
    fn from(err: hex::FromHexError) -> (r: EDListOpenError) {
        EDListOpenError::UndecodableXorChecksum(err)
    }
}

impl vstd::std_specs::convert::FromSpecImpl<hex::FromHexError> for EDListOpenError {
    open spec fn obeys_from_spec() -> bool {
        true
    }

    open spec fn from_spec(err: hex::FromHexError) -> EDListOpenError {
        EDListOpenError::UndecodableXorChecksum(err)
    }
}

impl From<(EDElementParseError, usize)> for EDListOpenError {
    fn from(err: (EDElementParseError, usize)) -> (r: EDListOpenError) {
        EDListOpenError::EDElementParseError(err.0, err.1)
    }
}

impl vstd::std_specs::convert::FromSpecImpl<(EDElementParseError, usize)> for EDListOpenError {
    open spec fn obeys_from_spec() -> bool {
        true
    }

    open spec fn from_spec(err: (EDElementParseError, usize)) -> EDListOpenError {
        EDListOpenError::EDElementParseError(err.0, err.1)
    }
}

impl From<WriteBackupError> for EDListOpenError {
    fn from(err: WriteBackupError) -> (r: EDListOpenError) {
        EDListOpenError::WriteBackupError(err)
    }
}

impl vstd::std_specs::convert::FromSpecImpl<WriteBackupError> for EDListOpenError {
    open spec fn obeys_from_spec() -> bool {
        true
    }

    open spec fn from_spec(err: WriteBackupError) -> EDListOpenError {
        EDListOpenError::WriteBackupError(err)
    }
}

impl From<EDElementError> for VerifyError {
    fn from(err: EDElementError) -> (r: VerifyError) {
        VerifyError::EDElementError(err)
    }
}

impl vstd::std_specs::convert::FromSpecImpl<EDElementError> for VerifyError {
    open spec fn obeys_from_spec() -> bool {
        true
    }

    open spec fn from_spec(err: EDElementError) -> VerifyError {
        VerifyError::EDElementError(err)
    }
}

impl From<IndexError> for CreateError {
    fn from(err: IndexError) -> (r: CreateError) {
        CreateError::IndexError(err)
    }
}

impl vstd::std_specs::convert::FromSpecImpl<IndexError> for CreateError {
    open spec fn obeys_from_spec() -> bool {
        true
    }

    open spec fn from_spec(err: IndexError) -> CreateError {
        CreateError::IndexError(err)
    }
}

impl From<EDElementError> for CreateError {
    fn from(err: EDElementError) -> (r: CreateError) {
        CreateError::EDElementError(err)
    }
}

impl vstd::std_specs::convert::FromSpecImpl<EDElementError> for CreateError {
    open spec fn obeys_from_spec() -> bool {
        true
    }

    open spec fn from_spec(err: EDElementError) -> CreateError {
        CreateError::EDElementError(err)
    }
}

impl From<std::io::Error> for IndexError {
    fn from(err: std::io::Error) -> (r: IndexError) {
        IndexError::IoError(err)
    }
}

impl vstd::std_specs::convert::FromSpecImpl<std::io::Error> for IndexError {
    open spec fn obeys_from_spec() -> bool {
        true
    }

    open spec fn from_spec(err: std::io::Error) -> IndexError {
        IndexError::IoError(err)
    }
}

impl From<WriteEDListToFileError> for WriteBackupError {
    fn from(err: WriteEDListToFileError) -> (r: WriteBackupError) {
        WriteBackupError::WriteEDListToFileError(err)
    }
}

impl vstd::std_specs::convert::FromSpecImpl<WriteEDListToFileError> for WriteBackupError {
    open spec fn obeys_from_spec() -> bool {
        true
    }

    open spec fn from_spec(err: WriteEDListToFileError) -> WriteBackupError {
        WriteBackupError::WriteEDListToFileError(err)
    }
}

impl From<WriteEDListToFileError> for WriteHashFileError {
    fn from(err: WriteEDListToFileError) -> (r: WriteHashFileError) {
        WriteHashFileError::WriteEDListToFileError(err)
    }
}

impl vstd::std_specs::convert::FromSpecImpl<WriteEDListToFileError> for WriteHashFileError {
    open spec fn obeys_from_spec() -> bool {
        true
    }

    open spec fn from_spec(err: WriteEDListToFileError) -> WriteHashFileError {
        WriteHashFileError::WriteEDListToFileError(err)
    }
}

impl From<OpenPathBanlistError> for SyncFromError {
    fn from(err: OpenPathBanlistError) -> (r: SyncFromError) {
        SyncFromError::OpenPathBanlistError(err)
    }
}

impl vstd::std_specs::convert::FromSpecImpl<OpenPathBanlistError> for SyncFromError {
    open spec fn obeys_from_spec() -> bool {
        true
    }

    open spec fn from_spec(err: OpenPathBanlistError) -> SyncFromError {
        SyncFromError::OpenPathBanlistError(err)
    }
}

impl From<EDListOpenError> for SyncFromError {
    fn from(err: EDListOpenError) -> (r: SyncFromError) {
        SyncFromError::EDListOpenError(err)
    }
}

impl vstd::std_specs::convert::FromSpecImpl<EDListOpenError> for SyncFromError {
    open spec fn obeys_from_spec() -> bool {
        true
    }

    open spec fn from_spec(err: EDListOpenError) -> SyncFromError {
        SyncFromError::EDListOpenError(err)
    }
}

impl From<std::io::Error> for SyncFromError {
    fn from(err: std::io::Error) -> (r: SyncFromError) {
        SyncFromError::IoError(err)
    }
}

impl vstd::std_specs::convert::FromSpecImpl<std::io::Error> for SyncFromError {
    open spec fn obeys_from_spec() -> bool {
        true
    }

    open spec fn from_spec(err: std::io::Error) -> SyncFromError {
        SyncFromError::IoError(err)
    }
}

} // verus!
