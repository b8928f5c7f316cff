//! The error taxonomy of the pipeline. Every failure is terminal to the
//! invocation that raised it; each variant carries a short message for the
//! user.

use vstd::prelude::*;

verus! {

/// Everything that can go wrong between reading a reference string and
/// materializing the archive it points to.
#[derive(Debug, Clone, Copy, PartialEq, Eq, Structural)]
pub enum GitError {
    /// The reference string matches none of the accepted grammars.
    MalformedReference,
    /// A host, user or repository segment of the reference is blank.
    EmptyField,
    /// The remote could not be reached at the transport level.
    UnreachableHost,
    /// The remote answered, but not with status 200.
    RemoteUnavailable,
    /// The fetched bytes do not parse as a zip archive.
    ArchiveCorrupt,
    /// A file or directory could not be created, moved or removed.
    IoError,
}

impl GitError {
    /// The message shown to the user when this error ends the run.
    pub fn message(&self) -> (r: String)
        ensures
            r@ == match *self {
                GitError::MalformedReference => "Url is malformed."@,
                GitError::EmptyField => "Can't get user_namename and repository name"@,
                GitError::UnreachableHost => "Could not resolve host !"@,
                GitError::RemoteUnavailable => (
                    "This repo/branch doesn't exist or repo can't be fetched"@
                ),
                GitError::ArchiveCorrupt => "Archive is corrupt or not a zip file."@,
                GitError::IoError => "Could not write the archive to disk."@,
            },
    {
        match *self {
            GitError::MalformedReference => "Url is malformed.".to_owned(),
            GitError::EmptyField => "Can't get user_namename and repository name".to_owned(),
            GitError::UnreachableHost => "Could not resolve host !".to_owned(),
            GitError::RemoteUnavailable => (
                "This repo/branch doesn't exist or repo can't be fetched".to_owned()
            ),
            GitError::ArchiveCorrupt => "Archive is corrupt or not a zip file.".to_owned(),
            GitError::IoError => "Could not write the archive to disk.".to_owned(),
        }
    }
}

} // verus!
