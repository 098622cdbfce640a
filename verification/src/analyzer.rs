//! The per-file analysis record, the analyzer interface, and the ordered
//! registry that picks the first analyzer whose applicability predicate
//! accepts a file path.

pub mod javascript_analyzer;
pub mod python_analyzer;
pub mod rust_analyzer;

use vstd::prelude::*;

use crate::error::FolderSummaryError;
use crate::static_analysis::FunctionAnalysis;
use crate::text::{spec_ends_with, str_ends_with};

verus! {

/// The uniform structural-fact record one analyzer produces for one
/// file: imports in declaration order (duplicates preserved), extracted
/// functions, declared types, and exported symbols.
#[derive(Debug, Default, PartialEq, Eq)]
pub struct CodeAnalysis {
    pub imports: Vec<String>,
    pub functions: Vec<FunctionAnalysis>,
    pub types: Vec<String>,
    pub exports: Vec<String>,
}

impl CodeAnalysis {
    /// Two records that carry the same facts, field by field.
    pub open spec fn like(&self, other: &CodeAnalysis) -> bool {
        &&& self.imports@.map_values(|x: String| x@) == other.imports@.map_values(
            |x: String| x@,
        )
        &&& self.functions@.len() == other.functions@.len()
        &&& forall|k: int|
            0 <= k < self.functions@.len() ==> (#[trigger] self.functions@[k]).like(
                &other.functions@[k],
            )
        &&& self.types@.map_values(|x: String| x@) == other.types@.map_values(|x: String| x@)
        &&& self.exports@.map_values(|x: String| x@) == other.exports@.map_values(
            |x: String| x@,
        )
    }
}

/// An exact copy of a string list.
fn clone_strings(v: &Vec<String>) -> (r: Vec<String>)
    ensures
        r@ == v@,
{
    let n = v.len();
    let mut r: Vec<String> = Vec::new();
    let mut k: usize = 0;
    while k < n
        invariant
            k <= n == v@.len(),
            r@ =~= v@.subrange(0, k as int),
        decreases n - k,
    {
        r.push(v[k].clone());
        k = k + 1;
        proof {
            assert(r@ =~= v@.subrange(0, k as int));
        }
    }
    proof {
        assert(v@.subrange(0, n as int) =~= v@);
    }
    r
}

/// A copy of a function list, record by record.
fn clone_functions(v: &Vec<FunctionAnalysis>) -> (r: Vec<FunctionAnalysis>)
    ensures
        r@.len() == v@.len(),
        forall|k: int| 0 <= k < v@.len() ==> (#[trigger] r@[k]).like(&v@[k]),
{
    let n = v.len();
    let mut r: Vec<FunctionAnalysis> = Vec::new();
    let mut k: usize = 0;
    while k < n
        invariant
            k <= n == v@.len(),
            r@.len() == k,
            forall|t: int| 0 <= t < k ==> (#[trigger] r@[t]).like(&v@[t]),
        decreases n - k,
    {
        r.push(v[k].clone());
        k = k + 1;
    }
    r
}

impl Clone for CodeAnalysis {
    /// A copy carrying the same facts.
    fn clone(&self) -> (r: Self)
        ensures
            r.like(self),
    {
        CodeAnalysis {
            imports: clone_strings(&self.imports),
            functions: clone_functions(&self.functions),
            types: clone_strings(&self.types),
            exports: clone_strings(&self.exports),
        }
    }
}

impl CodeAnalysis {
    /// Every function record carries at least the baseline path.
    pub open spec fn wf(&self) -> bool {
        forall|k: int| 0 <= k < self.functions@.len() ==> (#[trigger] self.functions@[k]).wf()
    }
}

/// The common contract of the per-language analyzers.
pub trait LanguageAnalyzer {
    /// The applicability predicate of this analyzer.
    spec fn applies_spec(&self, path: Seq<char>) -> bool;

    /// Whether this analyzer applies to the given file path.
    fn can_analyze(&self, file_path: &str) -> (r: bool)
        ensures
            r == self.applies_spec(file_path@),
    ;

    /// Extracts the structural facts of one file's content.
    fn analyze(&self, content: &str) -> (r: Result<CodeAnalysis, FolderSummaryError>)
        ensures
            match r {
                Ok(a) => a.wf(),
                Err(_) => true,
            },
    ;
}

/// The closed set of analyzers, in registry priority order.
#[derive(Debug, Clone, Copy, PartialEq, Eq, Structural)]
pub enum AnalyzerKind {
    RustLang,
    JavaScript,
    Python,
}

/// Whether the analyzer `kind` applies to the path `s`.
pub open spec fn spec_kind_applies(kind: AnalyzerKind, s: Seq<char>) -> bool {
    match kind {
        AnalyzerKind::RustLang => spec_ends_with(s, ".rs"@),
        AnalyzerKind::JavaScript => spec_ends_with(s, ".js"@) || spec_ends_with(s, ".ts"@),
        AnalyzerKind::Python => spec_ends_with(s, ".py"@),
    }
}

/// Executable twin of `spec_kind_applies`.
pub fn kind_applies(kind: AnalyzerKind, file_path: &str) -> (r: bool)
    ensures
        r == spec_kind_applies(kind, file_path@),
{
    match kind {
        AnalyzerKind::RustLang => str_ends_with(file_path, ".rs"),
        AnalyzerKind::JavaScript => str_ends_with(file_path, ".js") || str_ends_with(
            file_path,
            ".ts",
        ),
        AnalyzerKind::Python => str_ends_with(file_path, ".py"),
    }
}

/// The ordered analyzer list: systems language first, then the two
/// pattern-based analyzers.
pub fn get_analyzers() -> (r: Vec<AnalyzerKind>)
    ensures
        r@ =~= seq![AnalyzerKind::RustLang, AnalyzerKind::JavaScript, AnalyzerKind::Python],
{
    let mut r: Vec<AnalyzerKind> = Vec::new();
    r.push(AnalyzerKind::RustLang);
    r.push(AnalyzerKind::JavaScript);
    r.push(AnalyzerKind::Python);
    r
}

/// The first registry entry that applies to `s`, if any.
pub open spec fn spec_select_analyzer(s: Seq<char>) -> Option<AnalyzerKind> {
    if spec_kind_applies(AnalyzerKind::RustLang, s) {
        Some(AnalyzerKind::RustLang)
    } else if spec_kind_applies(AnalyzerKind::JavaScript, s) {
        Some(AnalyzerKind::JavaScript)
    } else if spec_kind_applies(AnalyzerKind::Python, s) {
        Some(AnalyzerKind::Python)
    } else {
        None
    }
}

/// Walks the registry in order and returns the first analyzer whose
/// applicability predicate accepts the path; `None` means the file is
/// unsupported, a normal per-file outcome.
pub fn select_analyzer(file_path: &str) -> (r: Option<AnalyzerKind>)
    ensures
        r == spec_select_analyzer(file_path@),
{
    let analyzers = get_analyzers();
    let n = analyzers.len();
    let mut k: usize = 0;
    while k < n
        invariant
            n == 3,
            k <= n,
            analyzers@ =~= seq![
                AnalyzerKind::RustLang,
                AnalyzerKind::JavaScript,
                AnalyzerKind::Python,
            ],
            forall|t: int|
                0 <= t < k ==> !spec_kind_applies(analyzers@[t], file_path@),
        decreases n - k,
    {
        let kind = analyzers[k];
        if kind_applies(kind, file_path) {
            return Some(kind);
        }
        k = k + 1;
    }
    None
}

} // verus!
