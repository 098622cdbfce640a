use folder_summary::analyzer::javascript_analyzer::JavaScriptAnalyzer;
use folder_summary::analyzer::python_analyzer::PythonAnalyzer;

#[test]
fn js_balanced_brace_body_stops_on_zero_line() {
    // The count starts at one for the consumed opening brace; the line
    // on which it returns to zero is included, and no later line is.
    let content = "{a{\nb\n}\n}\nzz";
    let body = JavaScriptAnalyzer::extract_function_body(content, 1);
    assert_eq!(body, "a{\nb\n}\n}\n");
}

#[test]
fn js_balanced_brace_body_runs_to_closing_line() {
    // The body runs through the line holding the matching closing
    // brace, inclusive.
    let content = "function f() {\n if (x) {\n return 1;\n }\n}\n";
    let body = JavaScriptAnalyzer::extract_function_body(content, 14);
    assert_eq!(body, "\n if (x) {\n return 1;\n }\n}\n");
}

#[test]
fn js_imports_es_module_forms() {
    let content = "import foo from 'bar';\nimport { a, b } from \"mod\"\nimport 'side'\n";
    let imports = JavaScriptAnalyzer::extract_imports(content);
    assert_eq!(imports, vec!["bar", "mod", "side"]);
}

#[test]
fn js_imports_require_form() {
    let content = "const x = require('baz');\nlet { y } = require(\"qux\")\n";
    let imports = JavaScriptAnalyzer::extract_imports(content);
    assert_eq!(imports, vec!["baz", "qux"]);
}

#[test]
fn js_import_needs_statement_boundary() {
    // Trailing non-whitespace after the quote is not a statement end.
    let content = "import 'x' // comment\n";
    let imports = JavaScriptAnalyzer::extract_imports(content);
    assert!(imports.is_empty());
}

#[test]
fn js_named_function_extraction() {
    let content = "function add(a, b) {\n return a + b;\n}\n";
    let funcs = JavaScriptAnalyzer::extract_functions(content);
    assert_eq!(funcs.len(), 1);
    let f = &funcs[0];
    assert_eq!(f.name, "add");
    assert_eq!(f.signature, "const add = (a, b)=> ");
    assert_eq!(f.types, "");
    assert_eq!(f.body.as_deref(), Some("\n return a + b;\n}\n"));
    assert_eq!(f.lines_of_code, 3);
    assert_eq!(f.cyclomatic_complexity, 1);
    assert_eq!(f.parameters, 2);
    assert!(!f.returns);
    assert!(f.summary.is_none());
}

#[test]
fn js_arrow_function_extraction() {
    let content = "export const mul = (x, y): number => x * y;\n";
    let funcs = JavaScriptAnalyzer::extract_functions(content);
    assert_eq!(funcs.len(), 1);
    let f = &funcs[0];
    assert_eq!(f.name, "mul");
    // the greedy capture keeps the space before the arrow
    assert_eq!(f.signature, "const mul = (x, y): number => ");
    assert!(f.returns);
    assert_eq!(f.parameters, 2);
}

#[test]
fn js_named_functions_precede_arrows() {
    let content = "const early = (a) => a;\nfunction late(b) {\n return b;\n}\n";
    let funcs = JavaScriptAnalyzer::extract_functions(content);
    let names: Vec<&str> = funcs.iter().map(|f| f.name.as_str()).collect();
    assert_eq!(names, vec!["late", "early"]);
}

#[test]
fn js_types_and_exports() {
    let content = "export interface Foo {}\ntype Bar = number;\nexport function baz() {\n}\n";
    let types = JavaScriptAnalyzer::extract_types(content);
    assert_eq!(types, vec!["Foo", "Bar"]);
    let exports = JavaScriptAnalyzer::extract_exports(content);
    assert_eq!(exports, vec!["Foo", "baz"]);
}

#[test]
fn js_complexity_counts_keywords_and_operators() {
    // control-flow keywords are word bounded; the short-circuit
    // operators count as plain substring occurrences, spaced or not
    assert_eq!(JavaScriptAnalyzer::calculate_cyclomatic_complexity("if (a && b) { } else { }"), 4);
    assert_eq!(JavaScriptAnalyzer::calculate_cyclomatic_complexity("x = a&&b;"), 2);
    assert_eq!(JavaScriptAnalyzer::calculate_cyclomatic_complexity("y = a || b;"), 2);
    assert_eq!(JavaScriptAnalyzer::calculate_cyclomatic_complexity(""), 1);
    assert_eq!(
        JavaScriptAnalyzer::calculate_cyclomatic_complexity("for (;;) { switch (x) { case 1: break; } }"),
        4
    );
}

#[test]
fn js_keywords_in_identifiers_not_counted() {
    assert_eq!(JavaScriptAnalyzer::calculate_cyclomatic_complexity("iffy = doer;"), 1);
}

#[test]
fn js_annotation_may_span_lines() {
    // the return-type annotation runs to the opening brace, across a
    // line break
    let content = "function f(a):\n  SomeType {\n x();\n}\n";
    let funcs = JavaScriptAnalyzer::extract_functions(content);
    assert_eq!(funcs.len(), 1);
    assert_eq!(funcs[0].signature, "const f = (a): SomeType => ");
    assert!(funcs[0].returns);
}

#[test]
fn py_function_body_ends_at_dedent() {
    let content = "def f():\n    a\nb\n\nc\n";
    let funcs = PythonAnalyzer::extract_functions(content);
    assert_eq!(funcs.len(), 1);
    assert_eq!(funcs[0].body.as_deref(), Some("    a"));
    assert_eq!(funcs[0].lines_of_code, 1);
}

#[test]
fn py_indented_body_excludes_dedented_line() {
    // Four indented lines, then a dedented line: the dedented line is
    // excluded.
    let content = "  def f(x):\n    a\n    b\n    c\n    d\ne\n";
    let body = PythonAnalyzer::extract_function_body(content, 11);
    assert_eq!(body, "    a\n    b\n    c\n    d");
}

#[test]
fn py_dedent_ends_top_level_body() {
    // The block's first line establishes the indentation, so even for
    // a top-level function a dedented line ends the body.
    let content = "def f():\n    a=1\n    b=2\n    c=3\n    d=4\nx=5\n";
    let body = PythonAnalyzer::extract_function_body(content, 8);
    assert_eq!(body, "    a=1\n    b=2\n    c=3\n    d=4");
}

#[test]
fn py_body_stops_at_blank_line() {
    let content = "def f():\n    a\n\n    b\n";
    let body = PythonAnalyzer::extract_function_body(content, 8);
    assert_eq!(body, "    a");
}

#[test]
fn py_imports_rendered() {
    let content = "from os import path\nimport sys\n";
    let imports = PythonAnalyzer::extract_imports(content);
    assert_eq!(imports, vec!["path from os", "sys"]);
}

#[test]
fn py_function_extraction() {
    let content = "def foo(a, b) -> int:\n    return a+b\n\nprint('x')\n";
    let funcs = PythonAnalyzer::extract_functions(content);
    assert_eq!(funcs.len(), 1);
    let f = &funcs[0];
    assert_eq!(f.name, "foo");
    assert_eq!(f.signature, "def foo(a, b) -> int:");
    assert_eq!(f.types, "int");
    assert_eq!(f.body.as_deref(), Some("    return a+b"));
    assert_eq!(f.lines_of_code, 1);
    assert_eq!(f.cyclomatic_complexity, 1);
    assert_eq!(f.parameters, 2);
    assert!(f.returns);
    assert!(f.summary.is_none());
}

#[test]
fn py_complexity_keywords() {
    assert_eq!(
        PythonAnalyzer::calculate_cyclomatic_complexity("if x and y:\n  pass\nelif z or w:\n  pass\n"),
        5
    );
}

#[test]
fn py_classes_and_no_exports() {
    let content = "class A:\n  pass\nclass B(A):\n  pass\n";
    assert_eq!(PythonAnalyzer::extract_types(content), vec!["A", "B"]);
    assert!(PythonAnalyzer::extract_exports(content).is_empty());
}

#[test]
fn js_modifier_on_own_line_yields_one_record() {
    // a head spanning several lines suppresses re-attempts on the
    // lines it runs into
    let content = "export\nfunction f() {\n}\n";
    let funcs = JavaScriptAnalyzer::extract_functions(content);
    assert_eq!(funcs.len(), 1);
    assert_eq!(funcs[0].name, "f");
}

#[test]
fn py_split_from_import_yields_one_record() {
    let content = "from x\nimport y\n";
    let imports = PythonAnalyzer::extract_imports(content);
    assert_eq!(imports, vec!["y from x"]);
}
