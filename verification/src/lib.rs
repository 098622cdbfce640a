//! Static analysis engine for multi-language codebases.
//!
//! The library extracts structural facts from source files: imports,
//! function signatures, complexity metrics and exported symbols.  Three
//! analyzers cover three language families; a modification-time cache
//! avoids re-analysing unchanged files; an orchestrator core decides, per
//! file, whether to reuse a cached result, which analyzer applies, and
//! which functions are large enough to deserve a natural-language summary.

pub mod analyzer;
pub mod cache;
pub mod config;
pub mod enrich;
pub mod error;
pub mod llm;
pub mod orchestrator;
pub mod static_analysis;
pub mod text;

pub use analyzer::CodeAnalysis;
pub use config::Config;
pub use error::FolderSummaryError;

use vstd::prelude::*;

verus! {

} // verus!
