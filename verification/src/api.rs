//! What the server answers to its two kinds of request: for a link, and
//! with a link.

use crate::safe_path::{accepts, is_rejection_of, join, normalized, root_dir, PathError};
use vstd::prelude::*;

pub mod download;
pub mod upload;

verus! {

/// `std::io::Error`, as the caller got it from a file operation. It is
/// carried through as it is; nothing is known of what it holds.
#[verifier::external_type_specification]
#[verifier::external_body]
pub struct ExIoError(std::io::Error);

/// What the caller found at the place that a path names.
#[derive(Debug, Clone, Copy, PartialEq, Eq, Structural)]
pub enum Target {
    /// Nothing is there, or it could not be looked at.
    Missing,
    /// A regular file.
    File,
    /// Something else: a directory, for one.
    Other,
}

/// Why a path gets no link.
#[derive(Debug, PartialEq, Eq)]
pub enum Rejection {
    /// The path itself is not accepted.
    Illegal(PathError),
    /// A download was asked for, and nothing is at the path.
    NotFound,
    /// A download was asked for, and what is at the path is no regular
    /// file.
    NotAFile,
    /// An upload was asked for, and the path names something that exists.
    AlreadyExists,
}

/// Why no link was issued.
#[derive(Debug, PartialEq, Eq)]
pub enum IssueError {
    PathRejected(Rejection),
    AllocationExhausted,
}

/// The text that a grant keeps for `path`: the served directory and the
/// components of `path`, joined by slashes.
pub open spec fn served_path(path: Seq<char>) -> Seq<char> {
    join(seq![root_dir()] + normalized(path))
}

/// Whether `e` is the rejection that `path` calls for.
pub open spec fn is_illegal_path(e: IssueError, path: Seq<char>) -> bool {
    e matches IssueError::PathRejected(Rejection::Illegal(inner)) && is_rejection_of(inner, path)
}

} // verus!
