//! The error taxonomy of the library: one variant per failure kind, each
//! carrying the contextual string its caller needs. Message formatting is
//! left to the program around the library.

use vstd::prelude::*;

verus! {

/// Every failure the library or the surrounding program can report.
#[derive(Debug)]
pub enum MassMoveError {
    /// The source path has no derivable directory and filename parts.
    InvalidSourcePath(String),
    /// The target template references an invalid placeholder position, or
    /// the target path has no derivable parts; carries the diagnostic text.
    InvalidTargetPath(String),
    /// The named directory cannot be opened.
    DirectoryNotFound(String),
    /// The filesystem denied the operation.
    PermissionDenied,
    /// No file in the source directory matched the pattern; carries the
    /// pattern text.
    NoFilesForPattern(String),
    /// The target exists and overwriting was not requested.
    FileAlreadyExists(String),
    /// The rename itself failed; carries the source path.
    MoveError(String),
    /// Any other fault.
    Error,
}

} // verus!
