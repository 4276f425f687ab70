use vstd::prelude::*;

verus! {

/// Failures that the release workflow reports to its caller.
#[derive(Debug, Clone, PartialEq, Eq)]
pub enum BumperError {
    /// A version string that is not `major.minor.patch` with three `u32` parts.
    InvalidVersion(String),
    /// An expected version source is absent.
    FileNotFound(String),
    /// A version-control command failed.
    GitError(String),
    /// Reading or writing a file failed.
    Io(String),
}

pub type BumperResult<T> = Result<T, BumperError>;

} // verus!
