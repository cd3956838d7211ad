//! The error kinds of a curation run.
use vstd::prelude::*;

verus! {

/// What can stop a curation run. Payloads carry the path or the underlying
/// cause as text.
#[derive(Debug, Clone)]
pub enum CuratorError {
    Io(String),
    FileNotFound(String),
    InvalidConfig(String),
    ParseError(String),
    MemoryFileCorrupted,
    PermissionDenied(String),
    Timeout(String),
    Json(String),
    Unknown(String),
}

impl CuratorError {
    /// Whether a caller may retry with adjusted input: a missing file, a parse
    /// error or a corrupted memory document.
    pub fn is_recoverable(&self) -> (r: bool)
        ensures
            r == (self is FileNotFound || self is ParseError || self is MemoryFileCorrupted),
    {
        match self {
            CuratorError::FileNotFound(_) => true,
            CuratorError::ParseError(_) => true,
            CuratorError::MemoryFileCorrupted => true,
            _ => false,
        }
    }
}

} // verus!
