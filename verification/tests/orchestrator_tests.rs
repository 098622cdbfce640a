use folder_summary::analyzer::{select_analyzer, AnalyzerKind, CodeAnalysis};
use folder_summary::cache::Cache;
use folder_summary::enrich::enrichment_plan;
use folder_summary::error::FolderSummaryError;
use folder_summary::orchestrator::{begin_file, collect_results, run_analyzer, FileDecision, SourceInput};

#[test]
fn registry_first_match_wins() {
    assert_eq!(select_analyzer("src/x.rs"), Some(AnalyzerKind::RustLang));
    assert_eq!(select_analyzer("src/x.js"), Some(AnalyzerKind::JavaScript));
    assert_eq!(select_analyzer("src/x.ts"), Some(AnalyzerKind::JavaScript));
    assert_eq!(select_analyzer("src/x.py"), Some(AnalyzerKind::Python));
    assert_eq!(select_analyzer("notes.txt"), None);
}

#[test]
fn unsupported_extension_is_per_file_error() {
    let cache = Cache::new("cache.json");
    match begin_file(&cache, "notes.txt", Some(1)) {
        FileDecision::Unsupported(FolderSummaryError::AnalysisError(msg)) => {
            assert_eq!(msg, "No suitable analyzer found for file: notes.txt");
        }
        _ => panic!("expected the unsupported-file analysis error"),
    }
}

#[test]
fn second_run_hits_cache_with_no_enrichment() {
    // Analyzing the same unchanged file twice: the second pass reuses
    // the cached record and plans zero enrichment requests.
    let mut cache = Cache::new("cache.json");
    let path = "demo.js";
    let mtime = Some(42u64);
    let content = "function f(a) {\n if (a) {\n return 1;\n }\n}\n".to_string();

    // first run: miss, analyze, enrich, record
    let kind = match begin_file(&cache, path, mtime) {
        FileDecision::AnalyzeWith(kind) => kind,
        _ => panic!("expected an analysis decision on the first run"),
    };
    assert_eq!(kind, AnalyzerKind::JavaScript);
    let analysis = run_analyzer(kind, &SourceInput::Text(content)).unwrap();
    let first_run_requests = enrichment_plan(kind, &analysis).len();
    cache.set(path.to_string(), 42, analysis);

    // second run: hit, identical record, zero further requests
    let mut second_run_requests = 0;
    let reused = match begin_file(&cache, path, mtime) {
        FileDecision::UseCached(a) => a,
        FileDecision::AnalyzeWith(k) => {
            let a = run_analyzer(k, &SourceInput::Text(String::new())).unwrap();
            second_run_requests += enrichment_plan(k, &a).len();
            a
        }
        FileDecision::Unsupported(e) => panic!("unexpected error: {}", e.message()),
    };
    assert_eq!(second_run_requests, 0);
    assert_eq!(reused, *cache.get(path, mtime).unwrap());
    assert_eq!(first_run_requests, 0); // the one body has five lines, under the threshold
}

#[test]
fn collect_results_keeps_all_on_success() {
    let mut results = vec![
        ("a.js".to_string(), Ok(CodeAnalysis::default())),
        ("b.py".to_string(), Ok(CodeAnalysis::default())),
    ];
    let out = collect_results(&mut results).unwrap();
    assert_eq!(out.len(), 2);
    assert_eq!(out[0].0, "a.js");
    assert_eq!(out[1].0, "b.py");
}

#[test]
fn collect_results_fails_run_on_first_error() {
    // No partial-success mode: one bad file aborts the whole run with
    // its error.
    let mut results = vec![
        ("a.js".to_string(), Ok(CodeAnalysis::default())),
        (
            "notes.txt".to_string(),
            Err(FolderSummaryError::AnalysisError(
                "No suitable analyzer found for file: notes.txt".to_string(),
            )),
        ),
        (
            "c.py".to_string(),
            Err(FolderSummaryError::IoError("unreadable".to_string())),
        ),
    ];
    match collect_results(&mut results) {
        Err(FolderSummaryError::AnalysisError(msg)) => {
            assert_eq!(msg, "No suitable analyzer found for file: notes.txt");
        }
        _ => panic!("expected the first per-file error to fail the run"),
    }
}

#[test]
fn rust_input_dispatch() {
    let analysis = run_analyzer(AnalyzerKind::RustLang, &SourceInput::Items(Vec::new())).unwrap();
    assert!(analysis.functions.is_empty());
    assert!(analysis.imports.is_empty());
}
