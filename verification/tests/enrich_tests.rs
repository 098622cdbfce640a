use folder_summary::analyzer::{AnalyzerKind, CodeAnalysis};
use folder_summary::enrich::{attach_summary, enrichment_plan, generate_large_function_prompt};
use folder_summary::static_analysis::FunctionAnalysis;

fn fun(name: &str, lines: usize, body: Option<&str>) -> FunctionAnalysis {
    FunctionAnalysis {
        name: name.to_string(),
        signature: format!("def {}():", name),
        types: "T".to_string(),
        body: body.map(|b| b.to_string()),
        lines_of_code: lines,
        cyclomatic_complexity: 1,
        parameters: 0,
        returns: false,
        summary: None,
    }
}

fn analysis_of(funcs: Vec<FunctionAnalysis>) -> CodeAnalysis {
    CodeAnalysis { imports: Vec::new(), functions: funcs, types: Vec::new(), exports: Vec::new() }
}

#[test]
fn triage_six_lines_no_summary_seven_lines_summary() {
    // Pattern-based languages: exactly 6 lines gets no request, 7 does.
    let a = analysis_of(vec![fun("six", 6, Some("b")), fun("seven", 7, Some("b"))]);
    let plan = enrichment_plan(AnalyzerKind::Python, &a);
    assert_eq!(plan.len(), 1);
    assert_eq!(plan[0].index, 1);
    let plan_js = enrichment_plan(AnalyzerKind::JavaScript, &a);
    assert_eq!(plan_js.len(), 1);
    assert_eq!(plan_js[0].index, 1);
}

#[test]
fn rust_policy_summarises_every_function() {
    let a = analysis_of(vec![fun("tiny", 1, Some("b")), fun("mid", 30, None)]);
    let plan = enrichment_plan(AnalyzerKind::RustLang, &a);
    assert_eq!(plan.len(), 2);
    assert_eq!(plan[0].index, 0);
    assert_eq!(plan[1].index, 1);
}

#[test]
fn prompt_spelling_for_python() {
    let a = analysis_of(vec![fun("work", 9, Some("line1\nline2"))]);
    let plan = enrichment_plan(AnalyzerKind::Python, &a);
    assert_eq!(
        plan[0].prompt,
        "Summarize the following Python function:\n\nName: work\nSignature: def work():\nTypes: T\nBody: line1\nline2"
    );
}

#[test]
fn prompt_fallback_without_body() {
    let a = analysis_of(vec![fun("gone", 9, None)]);
    let plan = enrichment_plan(AnalyzerKind::JavaScript, &a);
    assert_eq!(
        plan[0].prompt,
        "Summarize the following JavaScript/TypeScript function:\n\nName: gone\nSignature: def gone():\nBody: (Function body not available)"
    );
}

#[test]
fn rust_switches_to_chunked_prompt_above_threshold() {
    let small = analysis_of(vec![fun("s", 200, Some("b"))]);
    let plan_small = enrichment_plan(AnalyzerKind::RustLang, &small);
    assert!(plan_small[0].prompt.starts_with("Summarize the following Rust function:"));
    let large = analysis_of(vec![fun("l", 201, Some("b"))]);
    let plan_large = enrichment_plan(AnalyzerKind::RustLang, &large);
    assert!(plan_large[0].prompt.starts_with("Summarize this large Rust function:"));
}

#[test]
fn chunked_prompt_layout() {
    let f = fun("big", 300, Some("l1\nl2\nl3\nl4\nl5\nl6"));
    let prompt = generate_large_function_prompt(&f);
    let mut expected = String::new();
    expected.push_str("Summarize this large Rust function:\n\nName: big\nSignature: def big():\nTypes: T\n\n");
    expected.push_str("Function body in parts:\n");
    expected.push_str("\nPart 1:\nl1\nl2\nl3\nl4\nl5\n\nTypes: T\n");
    expected.push_str("\nPart 2:\nl6\n\nTypes: T\n");
    expected.push_str("\nPlease provide a summary of the function's purpose and behavior based on these parts.");
    assert_eq!(prompt, expected);
}

#[test]
fn chunked_prompt_numbers_parts_in_decimal() {
    // 51 body lines make 11 parts: the numbering reaches two digits.
    let body = (1..=51).map(|i| format!("line{}", i)).collect::<Vec<_>>().join("\n");
    let f = fun("huge", 300, Some(&body));
    let prompt = generate_large_function_prompt(&f);
    assert!(prompt.contains("\nPart 10:\nline46\n"));
    assert!(prompt.contains("\nPart 11:\nline51\n"));
    assert!(!prompt.contains("\nPart 12:"));
}

#[test]
fn summary_attached_once() {
    let mut a = analysis_of(vec![fun("one", 9, Some("b")), fun("two", 9, Some("b"))]);
    attach_summary(&mut a, 1, "does things".to_string());
    assert!(a.functions[0].summary.is_none());
    assert_eq!(a.functions[1].summary.as_deref(), Some("does things"));
    assert_eq!(a.functions[1].name, "two");
}
