//! Resolve a short repository reference (full URL, scheme-less path, or
//! `host:user:repo` triple) into the download URL of a source archive on
//! GitHub or a GitLab instance, and plan how the fetched zip archive is
//! materialized on disk.
//!
//! The parsing of the reference grammars, the URL construction, the
//! availability decision and the materialization paths are verified; the
//! network and filesystem work around them stays with the caller.

pub mod archive;
pub mod error;
pub mod git;
pub mod laws;
pub mod reference;
pub mod text;
