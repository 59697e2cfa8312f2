use vstd::prelude::*;

verus! {

/// Why a build failed.
#[derive(Debug, PartialEq, Eq, Structural, Clone, Copy)]
pub enum RepubError {
    /// The input path is missing, or names a file that is not Markdown.
    InvalidInputPath,
    /// Reading or writing a file failed.
    IoFailure,
    /// The heading query could not be parsed.
    MalformedHeadingQuery,
    /// The archive could not be written.
    ArchiveFailure,
}

impl RepubError {
    /// A one-line description of the failure.
    pub fn message(&self) -> (r: &'static str) {
        match self {
            RepubError::InvalidInputPath => "input path does not exist or is not a .md file",
            RepubError::IoFailure => "a file could not be read or written",
            RepubError::MalformedHeadingQuery => "the heading query could not be parsed",
            RepubError::ArchiveFailure => "the archive could not be written",
        }
    }
}

} // verus!
