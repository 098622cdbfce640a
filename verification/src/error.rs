//! The error taxonomy of the analysis pipeline.
//!
//! Every failure is scoped to one file or one run-level step: I/O,
//! configuration, the text-generation collaborator, analysis proper
//! (including the "no analyzer applies" case), the cache, and task
//! scheduling.  Each variant carries a human-readable message.

use vstd::prelude::*;

verus! {

/// One per-file or run-level failure.
#[derive(Debug, Clone, PartialEq, Eq)]
pub enum FolderSummaryError {
    IoError(String),
    ConfigError(String),
    LlmError(String),
    AnalysisError(String),
    CacheError(String),
    TaskJoinError(String),
}

impl FolderSummaryError {
    /// The label a report prefixes to the carried message.
    pub fn label(&self) -> (r: &'static str)
        ensures
            r@ == self.label_spec(),
    {
        match self {
            FolderSummaryError::IoError(_) => "IO error",
            FolderSummaryError::ConfigError(_) => "Configuration error",
            FolderSummaryError::LlmError(_) => "LLM error",
            FolderSummaryError::AnalysisError(_) => "Analysis error",
            FolderSummaryError::CacheError(_) => "Cache error",
            FolderSummaryError::TaskJoinError(_) => "TaskJoin error",
        }
    }

    pub open spec fn label_spec(&self) -> Seq<char> {
        match self {
            FolderSummaryError::IoError(_) => "IO error"@,
            FolderSummaryError::ConfigError(_) => "Configuration error"@,
            FolderSummaryError::LlmError(_) => "LLM error"@,
            FolderSummaryError::AnalysisError(_) => "Analysis error"@,
            FolderSummaryError::CacheError(_) => "Cache error"@,
            FolderSummaryError::TaskJoinError(_) => "TaskJoin error"@,
        }
    }

    /// The message the variant carries.
    pub fn message(&self) -> (r: &String)
        ensures
            r@ == self.message_spec(),
    {
        match self {
            FolderSummaryError::IoError(m) => m,
            FolderSummaryError::ConfigError(m) => m,
            FolderSummaryError::LlmError(m) => m,
            FolderSummaryError::AnalysisError(m) => m,
            FolderSummaryError::CacheError(m) => m,
            FolderSummaryError::TaskJoinError(m) => m,
        }
    }

    pub open spec fn message_spec(&self) -> Seq<char> {
        match self {
            FolderSummaryError::IoError(m) => m@,
            FolderSummaryError::ConfigError(m) => m@,
            FolderSummaryError::LlmError(m) => m@,
            FolderSummaryError::AnalysisError(m) => m@,
            FolderSummaryError::CacheError(m) => m@,
            FolderSummaryError::TaskJoinError(m) => m@,
        }
    }
}

} // verus!
