use vstd::prelude::*;

verus! {

/// Error taxonomy for post retrieval and rendering.
///
/// `NotFound` marks an absent document; `IoError` any other filesystem
/// failure; `ParseError` malformed front matter or metadata; `RenderError` a
/// rendering failure such as a non-zero exit status; `Other` wraps unexpected
/// failures.
#[derive(Debug, Clone, PartialEq, Eq)]
pub enum PostError {
    IoError(String),
    ParseError(String),
    RenderError(String),
    NotFound(String),
    Other(String),
}

impl PostError {
    /// Short description of the error category, for logging and display.
    pub fn kind(&self) -> (r: &'static str)
        ensures
            r@ == match self {
                PostError::IoError(_) => "io error"@,
                PostError::ParseError(_) => "failed to parse post metadata"@,
                PostError::RenderError(_) => "failed to render post"@,
                PostError::NotFound(_) => "post not found"@,
                PostError::Other(_) => "unexpected"@,
            },
    {
        match self {
            PostError::IoError(_) => "io error",
            PostError::ParseError(_) => "failed to parse post metadata",
            PostError::RenderError(_) => "failed to render post",
            PostError::NotFound(_) => "post not found",
            PostError::Other(_) => "unexpected",
        }
    }
}

/// Outcome of a filesystem query made on the library's behalf: the file is
/// absent, or the query failed for another reason.
#[derive(Debug, Clone, PartialEq, Eq)]
pub enum FsError {
    NotFound,
    Other(String),
}

} // verus!
