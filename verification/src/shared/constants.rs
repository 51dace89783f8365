//! Fixed values of the on-disk formats.

use vstd::prelude::*;

verus! {

/// Width in bytes of every digest.
pub const HASH_OUTPUT_LENGTH: usize = 32;

/// Start of the line that holds the final checksum.
pub const FIN_CHECKSUM_PREFIX: &'static str = "CHECKSUM = ";

/// Start of the line that holds the XOR fold.
pub const XOR_CHECKSUM_PREFIX: &'static str = "XORCHECKSUM = ";

/// Start of the line that holds the format version.
pub const LIST_VERSION_PREFIX: &'static str = "LISTVERSION = ";

/// The only format version that is read and written.
pub const CURRENT_LIST_VERSION: &'static str = "1.1";

/// Staging area for files that a synchronisation renames.
pub const TMPCOPYDIR: &'static str = "./file_hasher_files/tmp_sync/";

} // verus!
