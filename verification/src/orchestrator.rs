//! The per-file decision core of the concurrent pipeline.
//!
//! The embedding runs one task per input file and owns everything
//! Verus cannot see: reading timestamps and contents, parsing the
//! systems language into reduced items, calling the text-generation
//! collaborator, persisting the cache, and joining tasks.  Every
//! decision in between is made here: whether the cache answers for a
//! file, which analyzer the registry selects, what an analysis run
//! returns, and how per-file results aggregate into a run result —
//! where a single failed file fails the whole run.

use vstd::prelude::*;

use crate::analyzer::rust_analyzer::{spec_rust_analysis, RustAnalyzer, RustItemNode};
use crate::analyzer::javascript_analyzer::{spec_js_analysis, JavaScriptAnalyzer};
use crate::analyzer::python_analyzer::{spec_py_analysis, PythonAnalyzer};
use crate::analyzer::{
    select_analyzer, spec_select_analyzer, AnalyzerKind, CodeAnalysis, LanguageAnalyzer,
};
use crate::cache::{spec_cache_get, spec_cache_set, Cache};
use crate::error::FolderSummaryError;

verus! {

/// What the embedding hands an analyzer: raw text for the two
/// pattern-based languages, reduced top-level items for the systems
/// language.
pub enum SourceInput {
    Text(String),
    Items(Vec<RustItemNode>),
}

/// The decision for one file after the cache lookup: reuse the stored
/// record, analyze with the selected analyzer, or fail this file as
/// unsupported.  A reused record needs no analysis and no enrichment
/// request at all.
pub enum FileDecision {
    UseCached(CodeAnalysis),
    AnalyzeWith(AnalyzerKind),
    Unsupported(FolderSummaryError),
}

/// What `begin_file` promises: a cache hit is reused as it stands; on
/// a miss the registry's first matching analyzer is selected; a file no
/// analyzer accepts fails with the analysis error naming it.
pub open spec fn spec_begin_ok(
    m: Seq<(Seq<char>, u64, CodeAnalysis)>,
    path: Seq<char>,
    mtime: Option<u64>,
    r: FileDecision,
) -> bool {
    match r {
        FileDecision::UseCached(a) => match spec_cache_get(m, path, mtime) {
            Some(c) => a.like(&c),
            None => false,
        },
        FileDecision::AnalyzeWith(k) => spec_cache_get(m, path, mtime) is None
            && spec_select_analyzer(path) == Some(k),
        FileDecision::Unsupported(e) => spec_cache_get(m, path, mtime) is None
            && spec_select_analyzer(path) is None && match e {
            FolderSummaryError::AnalysisError(msg) => msg@ == "No suitable analyzer found for file: "@
                + path,
            _ => false,
        },
    }
}

/// Decides how to handle one file: consult the cache under the current
/// timestamp; on a miss, walk the registry; an unsupported extension is
/// a per-file error, not a crash.
pub fn begin_file(cache: &Cache, file_path: &str, current_mtime: Option<u64>) -> (r: FileDecision)
    ensures
        spec_begin_ok(cache.model(), file_path@, current_mtime, r),
{
    match cache.get(file_path, current_mtime) {
        Some(a) => FileDecision::UseCached(a.clone()),
        None => {
            match select_analyzer(file_path) {
                Some(kind) => FileDecision::AnalyzeWith(kind),
                None => {
                    let mut msg = String::new();
                    msg.append("No suitable analyzer found for file: ");
                    msg.append(file_path);
                    FileDecision::Unsupported(FolderSummaryError::AnalysisError(msg))
                },
            }
        },
    }
}

/// Idempotence of re-analysis: once a successful run has stored its
/// record for a path, a second decision for the same unchanged file —
/// same path, same timestamp — must reuse that record.  A reused record
/// is final: no analysis runs and no enrichment request is ever planned
/// for it.
pub proof fn lemma_rerun_is_cache_hit(
    m: Seq<(Seq<char>, u64, CodeAnalysis)>,
    path: Seq<char>,
    t: u64,
    a: CodeAnalysis,
    r: FileDecision,
)
    requires
        spec_begin_ok(spec_cache_set(m, path, t, a), path, Some(t), r),
    ensures
        match r {
            FileDecision::UseCached(c) => c.like(&a),
            _ => false,
        },
{
    crate::cache::lemma_cache_round_trip(m, path, t, a);
}

/// Runs the selected analyzer on the given input.  The two
/// pattern-based analyzers take the raw text and never fail; the
/// systems-language analyzer takes the reduced items of a successful
/// parse — a parse failure is the embedding's per-file error and never
/// reaches this point.
pub fn run_analyzer(kind: AnalyzerKind, input: &SourceInput) -> (r: Result<
    CodeAnalysis,
    FolderSummaryError,
>)
    requires
        (kind is RustLang <==> input is Items),
    ensures
        match r {
            Ok(a) => {
                &&& a.wf()
                &&& match (kind, input) {
                    (AnalyzerKind::JavaScript, SourceInput::Text(s)) => spec_js_analysis(s@, a),
                    (AnalyzerKind::Python, SourceInput::Text(s)) => spec_py_analysis(s@, a),
                    (AnalyzerKind::RustLang, SourceInput::Items(items)) => spec_rust_analysis(
                        items@,
                        a,
                    ),
                    _ => false,
                }
            },
            Err(_) => false,
        },
{
    match (kind, input) {
        (AnalyzerKind::RustLang, SourceInput::Items(items)) => Ok(RustAnalyzer.analyze_items(items)),
        (AnalyzerKind::JavaScript, SourceInput::Text(s)) => JavaScriptAnalyzer.analyze(s.as_str()),
        (AnalyzerKind::Python, SourceInput::Text(s)) => PythonAnalyzer.analyze(s.as_str()),
        _ => {
            proof {
                assert(false);
            }
            Err(FolderSummaryError::AnalysisError(String::new()))
        },
    }
}

/// The position of the first failed file, if any.
pub open spec fn spec_first_err(
    s: Seq<(String, Result<CodeAnalysis, FolderSummaryError>)>,
    i: int,
) -> Option<int>
    decreases s.len() - i,
{
    if i < 0 || i >= s.len() {
        None
    } else if s[i].1 is Err {
        Some(i)
    } else {
        spec_first_err(s, i + 1)
    }
}

/// Aggregates the per-file results into the run result.  There is no
/// partial-success mode: if every file succeeded the full path-keyed
/// mapping comes back, in input order; otherwise the run fails with the
/// first failed file's error and produces nothing.
pub fn collect_results(results: &mut Vec<(String, Result<CodeAnalysis, FolderSummaryError>)>)
    -> (r: Result<Vec<(String, CodeAnalysis)>, FolderSummaryError>)
    ensures
        match r {
            Ok(out) => {
                &&& spec_first_err((*old(results))@, 0) is None
                &&& out@.len() == (*old(results))@.len()
                &&& forall|k: int|
                    0 <= k < out@.len() ==> (#[trigger] out@[k]).0 == (*old(results))@[k].0
                        && (*old(results))@[k].1 == Ok::<CodeAnalysis, FolderSummaryError>(out@[k].1)
            },
            Err(e) => match spec_first_err((*old(results))@, 0) {
                Some(i) => (*old(results))@[i].1 == Err::<CodeAnalysis, FolderSummaryError>(e),
                None => false,
            },
        },
{
    let ghost all = (*old(results))@;
    let n = results.len();
    let mut out: Vec<(String, CodeAnalysis)> = Vec::new();
    let mut k: usize = 0;
    while k < n
        invariant
            all == (*old(results))@,
            k <= n == all.len(),
            results@ == all.skip(k as int),
            out@.len() == k,
            spec_first_err(all, 0) == spec_first_err(all, k as int),
            forall|t: int|
                0 <= t < k ==> (#[trigger] out@[t]).0 == all[t].0 && all[t].1 == Ok::<
                    CodeAnalysis,
                    FolderSummaryError,
                >(out@[t].1),
        decreases n - k,
    {
        proof {
            assert(all.skip(k as int)[0] == all[k as int]);
            assert(all.skip(k as int).drop_first() =~= all.skip(k + 1));
        }
        let (path, res) = results.remove(0);
        match res {
            Ok(a) => {
                out.push((path, a));
            },
            Err(e) => {
                proof {
                    assert(all[k as int].1 is Err);
                    assert(spec_first_err(all, k as int) == Some(k as int));
                    assert(spec_first_err(all, 0) == Some(k as int));
                }
                return Err(e);
            },
        }
        k = k + 1;
    }
    proof {
        assert(spec_first_err(all, n as int) is None);
    }
    Ok(out)
}

} // verus!
