//! What was found at a path, and what it says of an entry.
//!
//! The library does not touch the file system. Its caller looks at a path,
//! without following a link at its end, and hands over what it saw; the
//! functions here judge it.

use vstd::prelude::*;
use crate::shared::checksum::Checksum;
use super::errors::{
    EDElementError, EDElementVerifyError, ElementFailure, FileHashingError, LinkPathFailure,
    VerifyFailure, VerifyLinkPathError,
};
use super::{EDElement, EDVariantFields, ElementView, VariantView};

verus! {

/// The kind of object at a path.
#[derive(Debug, Clone, Copy, PartialEq, Eq, Structural)]
pub enum PathKind {
    File,
    Link,
    Directory,
    /// A device, a socket, a pipe.
    Other,
}

/// The metadata of the object at a path: its kind, and the time of its last
/// modification in whole seconds since the epoch.
#[derive(Debug, Clone, Copy, PartialEq, Eq, Structural)]
pub struct PathMetadata {
    pub kind: PathKind,
    pub modified_time: u64,
}

/// Why the content of a file was not hashed.
#[derive(Debug)]
pub enum FileReadError {
    /// The file did not open.
    Open(std::io::Error),
    /// Reading the file failed.
    Hash(FileHashingError),
}

/// What reading a symbolic link gave.
#[derive(Debug)]
pub enum LinkProbe {
    /// The target is not UTF-8.
    NotUtf8,
    /// The target as the link stores it, and whether it opened when resolved
    /// against the directory of the link.
    Target { target: String, reachable: Result<(), VerifyLinkPathError> },
}

/// What was found at a path.
#[derive(Debug)]
pub enum PathProbe {
    /// The metadata could not be read.
    MetadataFailed(std::io::Error),
    /// The path was opened and read as a file: the digest of its content.
    File { modified_time: u64, content: Result<Checksum, FileReadError> },
    /// The path was read as a symbolic link.
    Link { modified_time: u64, link: LinkProbe },
    /// The path is a directory.
    Directory { modified_time: u64 },
    /// The path is something else.
    Other { modified_time: u64 },
}

/// The mathematical value of `FileReadError`.
pub enum ReadFailure {
    Open,
    Hash,
}

/// The mathematical value of `LinkProbe`.
pub enum LinkView {
    NotUtf8,
    Target { target: Seq<char>, reachable: Result<(), LinkPathFailure> },
}

/// The mathematical value of `PathProbe`.
pub enum ProbeView {
    MetadataFailed,
    File { modified_time: u64, content: Result<Seq<u8>, ReadFailure> },
    Link { modified_time: u64, link: LinkView },
    Directory { modified_time: u64 },
    Other { modified_time: u64 },
}

impl View for LinkProbe {
    type V = LinkView;

    open spec fn view(&self) -> LinkView {
        match self {
            LinkProbe::NotUtf8 => LinkView::NotUtf8,
            LinkProbe::Target { target, reachable } => LinkView::Target {
                target: target@,
                reachable: match reachable {
                    Ok(()) => Ok(()),
                    Err(err) => Err(err@),
                },
            },
        }
    }
}

impl View for PathProbe {
    type V = ProbeView;

    open spec fn view(&self) -> ProbeView {
        match self {
            PathProbe::MetadataFailed(_) => ProbeView::MetadataFailed,
            PathProbe::File { modified_time, content } => ProbeView::File {
                modified_time: *modified_time,
                content: match content {
                    Ok(checksum) => Ok(checksum@),
                    Err(FileReadError::Open(_)) => Err(ReadFailure::Open),
                    Err(FileReadError::Hash(_)) => Err(ReadFailure::Hash),
                },
            },
            PathProbe::Link { modified_time, link } => ProbeView::Link {
                modified_time: *modified_time,
                link: link@,
            },
            PathProbe::Directory { modified_time } => ProbeView::Directory {
                modified_time: *modified_time,
            },
            PathProbe::Other { modified_time } => ProbeView::Other {
                modified_time: *modified_time,
            },
        }
    }
}

/// The entry for a path, from what was found there.
pub open spec fn entry_for(path: Seq<char>, probe: ProbeView) -> Result<
    ElementView,
    ElementFailure,
> {
    match probe {
        ProbeView::MetadataFailed => Err(ElementFailure::GetMetaDataError(path)),
        ProbeView::File { modified_time, content } => match content {
            Ok(checksum) => Ok(
                ElementView { path, modified_time, variant: VariantView::File { checksum } },
            ),
            Err(ReadFailure::Open) => Err(ElementFailure::OpenFileError(path)),
            Err(ReadFailure::Hash) => Err(ElementFailure::FileHashingError(path)),
        },
        ProbeView::Link { modified_time, link } => match link {
            LinkView::NotUtf8 => Err(ElementFailure::InvalidUtf8Link(path)),
            LinkView::Target { target, reachable } => match reachable {
                Ok(()) => Ok(
                    ElementView { path, modified_time, variant: VariantView::Link { target } },
                ),
                Err(failure) => Err(ElementFailure::VerifyLinkPathError(failure)),
            },
        },
        ProbeView::Directory { .. } => Err(ElementFailure::PathNotRegular(path)),
        ProbeView::Other { .. } => Err(ElementFailure::PathNotRegular(path)),
    }
}

/// What the metadata at the path of an entry says of it: the path must
/// exist, be no directory, and have the modification time of the entry.
pub open spec fn metadata_verdict(e: ElementView, metadata: Option<PathMetadata>) -> Result<
    (),
    ElementFailure,
> {
    match metadata {
        None => Err(ElementFailure::GetMetaDataError(e.path)),
        Some(found) => if found.kind == PathKind::Directory {
            Err(ElementFailure::VerifyError(VerifyFailure::PathIsDirectory(e.path)))
        } else if found.modified_time != e.modified_time {
            Err(ElementFailure::VerifyError(VerifyFailure::TimeChanged(e.path)))
        } else {
            Ok(())
        },
    }
}

/// What was found at the path of an entry says of it. Content and
/// modification time are judged together; the target of a link is tried
/// only where both are as recorded. What was read as a file never matches
/// the entry of a link, nor what was read as a link the entry of a file.
pub open spec fn integrity_verdict(e: ElementView, probe: ProbeView) -> Result<
    (),
    ElementFailure,
> {
    match probe {
        ProbeView::File { modified_time, content } => match content {
            Err(ReadFailure::Open) => Err(ElementFailure::OpenFileError(e.path)),
            Err(ReadFailure::Hash) => Err(ElementFailure::FileHashingError(e.path)),
            Ok(checksum) => {
                let time_changed = modified_time != e.modified_time;
                if e.variant == (VariantView::File { checksum }) {
                    if time_changed {
                        Err(
                            ElementFailure::VerifyError(
                                VerifyFailure::TimeChangedButFileCorrectError(e.path),
                            ),
                        )
                    } else {
                        Ok(())
                    }
                } else if time_changed {
                    Err(
                        ElementFailure::VerifyError(
                            VerifyFailure::TimeChangedAndFileChanged(e.path),
                        ),
                    )
                } else {
                    Err(ElementFailure::VerifyError(VerifyFailure::InvalidChecksum(e.path)))
                }
            },
        },
        ProbeView::Link { modified_time, link } => match link {
            LinkView::NotUtf8 => Err(ElementFailure::LinkTargetInvalidUtf8(e.path)),
            LinkView::Target { target, reachable } => {
                let time_changed = modified_time != e.modified_time;
                if e.variant == (VariantView::Link { target }) {
                    if time_changed {
                        Err(
                            ElementFailure::VerifyError(
                                VerifyFailure::LinkTargetValidTimeChanged(e.path),
                            ),
                        )
                    } else {
                        match reachable {
                            Ok(()) => Ok(()),
                            Err(failure) => Err(ElementFailure::VerifyLinkPathError(failure)),
                        }
                    }
                } else if time_changed {
                    Err(
                        ElementFailure::VerifyError(
                            VerifyFailure::LinkTargetInvalidTimeChanged(e.path),
                        ),
                    )
                } else {
                    Err(ElementFailure::VerifyError(VerifyFailure::LinkTargetInvalid(e.path)))
                }
            },
        },
        ProbeView::MetadataFailed => Err(ElementFailure::GetMetaDataError(e.path)),
        ProbeView::Directory { .. } => Err(ElementFailure::PathNotRegular(e.path)),
        ProbeView::Other { .. } => Err(ElementFailure::PathNotRegular(e.path)),
    }
}

/// The metadata as the verdict reads it.
pub open spec fn metadata_view(metadata: Result<PathMetadata, std::io::Error>) -> Option<
    PathMetadata,
> {
    match metadata {
        Ok(found) => Some(found),
        Err(_) => None,
    }
}

impl EDElement {
    /// Makes the entry for a path from what was found there. A file gives a
    /// file entry with the digest of its content, a symbolic link whose
    /// target opens gives a link entry; anything else gives none.
    pub fn from_path(path: String, probe: PathProbe) -> (r: Result<EDElement, EDElementError>)
        ensures
            match entry_for(path@, probe@) {
                Ok(e) => r matches Ok(element) && element@ == e,
                Err(failure) => r matches Err(err) && err@ == failure,
            },
    {
        match probe {
            PathProbe::MetadataFailed(err) => Err(EDElementError::GetMetaDataError(path, err)),
            PathProbe::File { modified_time, content } => match content {
                Ok(checksum) => Ok(
                    EDElement::from_internal(
                        path,
                        modified_time,
                        EDVariantFields::File { checksum },
                    ),
                ),
                Err(FileReadError::Open(err)) => Err(EDElementError::OpenFileError(path, err)),
                Err(FileReadError::Hash(err)) => Err(EDElementError::FileHashingError(path, err)),
            },
            PathProbe::Link { modified_time, link } => match link {
                LinkProbe::NotUtf8 => Err(EDElementError::InvalidUtf8Link(path)),
                LinkProbe::Target { target, reachable } => match reachable {
                    Ok(()) => Ok(
                        EDElement::from_internal(
                            path,
                            modified_time,
                            EDVariantFields::Link { target },
                        ),
                    ),
                    Err(err) => Err(EDElementError::VerifyLinkPathError(err)),
                },
            },
            PathProbe::Directory { modified_time: _ } => Err(EDElementError::PathNotRegular(path)),
            PathProbe::Other { modified_time: _ } => Err(EDElementError::PathNotRegular(path)),
        }
    }

    /// A cursory test of the entry against the metadata at its path:
    /// whether the path is gone or is a directory, or its modification time
    /// has changed.
    pub fn test_metadata(&self, metadata: Result<PathMetadata, std::io::Error>) -> (r: Result<
        (),
        EDElementError,
    >)
        ensures
            match metadata_verdict(self@, metadata_view(metadata)) {
                Ok(()) => r is Ok,
                Err(failure) => r matches Err(err) && err@ == failure,
            },
    {
        match metadata {
            Err(err) => Err(EDElementError::GetMetaDataError(self.path.clone(), err)),
            Ok(found) => {
                if found.kind == PathKind::Directory {
                    Err(
                        EDElementError::VerifyError(
                            EDElementVerifyError::PathIsDirectory(self.path.clone()),
                        ),
                    )
                } else if found.modified_time != self.modified_time {
                    Err(
                        EDElementError::VerifyError(
                            EDElementVerifyError::TimeChanged(self.path.clone()),
                        ),
                    )
                } else {
                    Ok(())
                }
            },
        }
    }

    /// Tests the entry against what was found at its path: the content of
    /// the file or the target of the link, and the modification time.
    pub fn test_integrity(&self, probe: PathProbe) -> (r: Result<(), EDElementError>)
        ensures
            match integrity_verdict(self@, probe@) {
                Ok(()) => r is Ok,
                Err(failure) => r matches Err(err) && err@ == failure,
            },
    {
        match probe {
            PathProbe::File { modified_time, content } => {
                let time_changed = modified_time != self.modified_time;
                match content {
                    Err(FileReadError::Open(err)) => Err(
                        EDElementError::OpenFileError(self.path.clone(), err),
                    ),
                    Err(FileReadError::Hash(err)) => Err(
                        EDElementError::FileHashingError(self.path.clone(), err),
                    ),
                    Ok(file_hash) => {
                        if self.variant_fields == (EDVariantFields::File { checksum: file_hash }) {
                            if time_changed {
                                Err(
                                    EDElementError::VerifyError(
                                        EDElementVerifyError::TimeChangedButFileCorrectError(
                                            self.path.clone(),
                                        ),
                                    ),
                                )
                            } else {
                                Ok(())
                            }
                        } else if time_changed {
                            Err(
                                EDElementError::VerifyError(
                                    EDElementVerifyError::TimeChangedAndFileChanged(
                                        self.path.clone(),
                                    ),
                                ),
                            )
                        } else {
                            Err(
                                EDElementError::VerifyError(
                                    EDElementVerifyError::InvalidChecksum(self.path.clone()),
                                ),
                            )
                        }
                    },
                }
            },
            PathProbe::Link { modified_time, link } => {
                let time_changed = modified_time != self.modified_time;
                match link {
                    LinkProbe::NotUtf8 => Err(
                        EDElementError::LinkTargetInvalidUtf8(self.path.clone()),
                    ),
                    LinkProbe::Target { target: link_target, reachable } => {
                        if self.variant_fields == (EDVariantFields::Link { target: link_target }) {
                            if time_changed {
                                Err(
                                    EDElementError::VerifyError(
                                        EDElementVerifyError::LinkTargetValidTimeChanged(
                                            self.path.clone(),
                                        ),
                                    ),
                                )
                            } else {
                                match reachable {
                                    Ok(()) => Ok(()),
                                    Err(err) => Err(EDElementError::VerifyLinkPathError(err)),
                                }
                            }
                        } else if time_changed {
                            Err(
                                EDElementError::VerifyError(
                                    EDElementVerifyError::LinkTargetInvalidTimeChanged(
                                        self.path.clone(),
                                    ),
                                ),
                            )
                        } else {
                            Err(
                                EDElementError::VerifyError(
                                    EDElementVerifyError::LinkTargetInvalid(self.path.clone()),
                                ),
                            )
                        }
                    },
                }
            },
            PathProbe::MetadataFailed(err) => Err(
                EDElementError::GetMetaDataError(self.path.clone(), err),
            ),
            PathProbe::Directory { modified_time: _ } => Err(
                EDElementError::PathNotRegular(self.path.clone()),
            ),
            PathProbe::Other { modified_time: _ } => Err(
                EDElementError::PathNotRegular(self.path.clone()),
            ),
        }
    }
}

} // verus!
