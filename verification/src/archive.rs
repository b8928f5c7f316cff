//! Opening the fetched bytes as a zip archive. Parsing the archive's
//! central directory is the one piece of outside work that runs entirely
//! in memory, so it stands here, behind a trusted contract; unpacking to
//! disk stays with the caller.

use vstd::prelude::*;

use crate::error::GitError;

verus! {

#[verifier::external_type_specification]
#[verifier::external_body]
#[verifier::reject_recursive_types(T)]
pub struct ExCursor<T>(std::io::Cursor<T>);

#[verifier::external_type_specification]
#[verifier::external_body]
#[verifier::reject_recursive_types(R)]
pub struct ExZipArchive<R>(zip::ZipArchive<R>);

#[verifier::external_type_specification]
#[verifier::external_body]
pub struct ExZipError(zip::result::ZipError);

/// Whether `data` parses as a zip archive: the central directory can be
/// found and read. A function of the bytes alone.
pub uninterp spec fn zip_parse_ok(data: Seq<u8>) -> bool;

/// Relies on zip::ZipArchive::new, which reads the archive's central
/// directory from the given reader: over an in-memory cursor it returns
/// Ok exactly when the bytes parse as a zip archive, a function of the
/// bytes alone.
#[verifier::external_body]
fn open_zip_archive(data: Vec<u8>) -> (r: Result<
    zip::ZipArchive<std::io::Cursor<Vec<u8>>>,
    zip::result::ZipError,
>)
    ensures
        r is Ok <==> zip_parse_ok(data@),
{
    zip::ZipArchive::new(std::io::Cursor::new(data))
}

/// Opens the fetched bytes as a zip archive, ready for the caller to
/// extract. Bytes that do not parse as an archive raise `ArchiveCorrupt`,
/// and nothing else does.
pub fn open_archive(data: Vec<u8>) -> (r: Result<
    zip::ZipArchive<std::io::Cursor<Vec<u8>>>,
    GitError,
>)
    ensures
        r is Ok <==> zip_parse_ok(data@),
        r is Err ==> r == Err::<zip::ZipArchive<std::io::Cursor<Vec<u8>>>, GitError>(
            GitError::ArchiveCorrupt,
        ),
{
    match open_zip_archive(data) {
        Ok(archive) => Ok(archive),
        Err(_) => Err(GitError::ArchiveCorrupt),
    }
}

} // verus!
