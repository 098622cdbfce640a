use folder_summary::analyzer::rust_analyzer::{RustAnalyzer, RustItemNode};
use folder_summary::static_analysis::{
    extract_function_metrics, remove_body_from_signature, extract_types_from_signature, RustFnNode,
};

fn node(name: &str) -> RustFnNode {
    RustFnNode {
        name: name.to_string(),
        signature_tokens: "fn demo (a : i32 , b : & str) -> i32".to_string(),
        body_tokens: "{ a + 1 }".to_string(),
        start_line: 10,
        end_line: 20,
        parameters: 2,
        returns: true,
        if_count: 0,
        while_count: 0,
        loop_count: 0,
        alloc_count: 0,
        match_arm_counts: Vec::new(),
    }
}

#[test]
fn complexity_is_exact_sum_of_arms_and_nodes() {
    // base 1, plus if/while/loop/allocation nodes, plus the sum of the
    // match arm counts across all match expressions.
    let mut n = node("f");
    n.if_count = 2;
    n.while_count = 1;
    n.loop_count = 1;
    n.alloc_count = 0;
    n.match_arm_counts = vec![3, 2];
    let f = extract_function_metrics(&n);
    assert_eq!(f.cyclomatic_complexity, 1 + 2 + 1 + 1 + 0 + 5);
}

#[test]
fn complexity_baseline_is_one() {
    let f = extract_function_metrics(&node("g"));
    assert_eq!(f.cyclomatic_complexity, 1);
}

#[test]
fn line_count_from_span() {
    let f = extract_function_metrics(&node("h"));
    assert_eq!(f.lines_of_code, 11);
    // 11 <= 20: the raw body is kept
    assert_eq!(f.body.as_deref(), Some("{ a + 1 }"));
}

#[test]
fn large_function_body_is_dropped() {
    let mut n = node("big");
    n.start_line = 1;
    n.end_line = 40;
    let f = extract_function_metrics(&n);
    assert_eq!(f.lines_of_code, 40);
    assert!(f.body.is_none());
}

#[test]
fn signature_types_extracted() {
    let f = extract_function_metrics(&node("t"));
    assert_eq!(f.types, "i32, & str");
    assert_eq!(f.signature, "fn demo (a : i32 , b : & str) -> i32");
    assert_eq!(f.parameters, 2);
    assert!(f.returns);
    assert!(f.summary.is_none());
}

#[test]
fn body_replaced_by_placeholder() {
    assert_eq!(remove_body_from_signature("fn f() { a ; b }"), "fn f() { ... }");
    assert_eq!(remove_body_from_signature("fn f() -> i32"), "fn f() -> i32");
}

#[test]
fn types_from_signature_segments() {
    assert_eq!(extract_types_from_signature("fn f (x : Vec<u8> , y : u64)"), "Vec<u8>, u64");
    assert_eq!(extract_types_from_signature("fn f ()"), "");
}

#[test]
fn rust_items_assembled() {
    let items = vec![
        RustItemNode::UseDecl { rendered: "use std :: fmt ;".to_string() },
        RustItemNode::StructDecl {
            rendered: "pub struct Foo { }".to_string(),
            name: "Foo".to_string(),
            public: true,
        },
        RustItemNode::EnumDecl {
            rendered: "enum Hidden { }".to_string(),
            name: "Hidden".to_string(),
            public: false,
        },
        RustItemNode::ImplDecl { rendered: "impl Foo { }".to_string() },
        RustItemNode::FnDecl { node: node("bar"), public: true },
        RustItemNode::OtherDecl,
    ];
    let a = RustAnalyzer.analyze_items(&items);
    assert_eq!(a.imports, vec!["use std :: fmt ;"]);
    assert_eq!(a.types, vec!["pub struct Foo { }", "enum Hidden { }", "impl Foo { }"]);
    assert_eq!(a.exports, vec!["struct Foo", "fn bar"]);
    assert_eq!(a.functions.len(), 1);
    assert_eq!(a.functions[0].name, "bar");
}
