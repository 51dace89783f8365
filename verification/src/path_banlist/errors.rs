//! What can go wrong when the banlist is opened or created.

use vstd::prelude::*;

verus! {

/// Failure to open the banlist.
#[derive(Debug)]
pub enum OpenPathBanlistError {
    /// There was no banlist and the operator declined a new one.
    UserDeniedNewList,
    /// There was no banlist and a new one could not be written.
    NewPathBanlistError(NewPathBanlistError),
    /// More than one line holds a checksum.
    DuplicateChecksum,
    /// The banlist could not be read.
    IOError(std::io::Error),
    /// The checksum in the banlist is not that of its banned prefixes,
    /// which is carried here in hexadecimal.
    InvalidChecksum(String),
    /// The banlist holds no checksum; that of its banned prefixes is
    /// carried here in hexadecimal.
    MissingChecksum(String),
}

impl From<std::io::Error> for OpenPathBanlistError {
    fn from(err: std::io::Error) -> (r: OpenPathBanlistError) {
        OpenPathBanlistError::IOError(err)
    }
}

impl vstd::std_specs::convert::FromSpecImpl<std::io::Error> for OpenPathBanlistError {
    open spec fn obeys_from_spec() -> bool {
        true
    }

    open spec fn from_spec(err: std::io::Error) -> OpenPathBanlistError {
        OpenPathBanlistError::IOError(err)
    }
}

impl From<NewPathBanlistError> for OpenPathBanlistError {
    fn from(err: NewPathBanlistError) -> (r: OpenPathBanlistError) {
        OpenPathBanlistError::NewPathBanlistError(err)
    }
}

impl vstd::std_specs::convert::FromSpecImpl<NewPathBanlistError> for OpenPathBanlistError {
    open spec fn obeys_from_spec() -> bool {
        true
    }

    open spec fn from_spec(err: NewPathBanlistError) -> OpenPathBanlistError {
        OpenPathBanlistError::NewPathBanlistError(err)
    }
}

/// Failure to write a new banlist.
#[derive(Debug)]
pub enum NewPathBanlistError {
    /// The operator declined a new banlist.
    UserDeniedNewList,
    /// The directory of the control files could not be created.
    CreatingFileHasherDir(std::io::Error),
    /// The banlist file could not be created.
    CreatingBanlist(std::io::Error),
    /// Writing the banlist file failed.
    WriteFileError(std::io::Error),
}

} // verus!
