//! The systems-language analyzer: the one analyzer with parse-level
//! structural guarantees.
//!
//! Analysis operates on a reduced form of the file's top-level items:
//! each item arrives as a [`RustItemNode`] holding plain values — its
//! reconstructed source text, its name and visibility, and for function
//! items the [`RustFnNode`] span and control-flow counts a structural
//! walk of the syntax tree produced.  Imports are the use-declarations,
//! types are the struct, enum, type-alias and impl items, exports are
//! short `kind name` tags for the public items, and function facts come
//! from the verified metrics extractor.

use vstd::prelude::*;

use crate::analyzer::CodeAnalysis;
use crate::static_analysis::{
    extract_function_metrics, spec_fn_metrics_matches, FunctionAnalysis, RustFnNode,
};
use crate::text::spec_ends_with;
use crate::text::str_ends_with;

verus! {

/// The analyzer for statically typed, brace-delimited systems sources
/// analysed through a full parse.
pub struct RustAnalyzer;

/// One top-level item of a parsed source file, reduced to plain values.
#[derive(Debug, Clone, PartialEq, Eq)]
pub enum RustItemNode {
    /// A use-declaration, as reconstructed source text.
    UseDecl { rendered: String },
    /// A struct declaration.
    StructDecl { rendered: String, name: String, public: bool },
    /// An enum declaration.
    EnumDecl { rendered: String, name: String, public: bool },
    /// A type alias.
    AliasDecl { rendered: String, name: String, public: bool },
    /// An impl block, kept among the declared types.
    ImplDecl { rendered: String },
    /// A top-level function item.
    FnDecl { node: RustFnNode, public: bool },
    /// Any other item kind; it contributes nothing.
    OtherDecl,
}

/// The rendered use-declarations of `items`, in order.
pub open spec fn spec_rust_imports(items: Seq<RustItemNode>) -> Seq<Seq<char>>
    decreases items.len(),
{
    if items.len() == 0 {
        Seq::empty()
    } else {
        spec_rust_imports(items.drop_last()) + (match items.last() {
            RustItemNode::UseDecl { rendered } => seq![rendered@],
            _ => Seq::<Seq<char>>::empty(),
        })
    }
}

/// The rendered type declarations of `items`, in order: structs, enums,
/// type aliases and impl blocks.
pub open spec fn spec_rust_types(items: Seq<RustItemNode>) -> Seq<Seq<char>>
    decreases items.len(),
{
    if items.len() == 0 {
        Seq::empty()
    } else {
        spec_rust_types(items.drop_last()) + (match items.last() {
            RustItemNode::StructDecl { rendered, .. } => seq![rendered@],
            RustItemNode::EnumDecl { rendered, .. } => seq![rendered@],
            RustItemNode::AliasDecl { rendered, .. } => seq![rendered@],
            RustItemNode::ImplDecl { rendered } => seq![rendered@],
            _ => Seq::<Seq<char>>::empty(),
        })
    }
}

/// The `kind name` export tags of the public items of `items`, in
/// order.
pub open spec fn spec_rust_exports(items: Seq<RustItemNode>) -> Seq<Seq<char>>
    decreases items.len(),
{
    if items.len() == 0 {
        Seq::empty()
    } else {
        spec_rust_exports(items.drop_last()) + (match items.last() {
            RustItemNode::FnDecl { node, public } => if public {
                seq!["fn "@ + node.name@]
            } else {
                Seq::<Seq<char>>::empty()
            },
            RustItemNode::StructDecl { name, public, .. } => if public {
                seq!["struct "@ + name@]
            } else {
                Seq::<Seq<char>>::empty()
            },
            RustItemNode::EnumDecl { name, public, .. } => if public {
                seq!["enum "@ + name@]
            } else {
                Seq::<Seq<char>>::empty()
            },
            RustItemNode::AliasDecl { name, public, .. } => if public {
                seq!["type "@ + name@]
            } else {
                Seq::<Seq<char>>::empty()
            },
            _ => Seq::<Seq<char>>::empty(),
        })
    }
}

/// The reduced function items of `items`, in order.
pub open spec fn spec_rust_fn_nodes(items: Seq<RustItemNode>) -> Seq<RustFnNode>
    decreases items.len(),
{
    if items.len() == 0 {
        Seq::empty()
    } else {
        spec_rust_fn_nodes(items.drop_last()) + (match items.last() {
            RustItemNode::FnDecl { node, .. } => seq![node],
            _ => Seq::<RustFnNode>::empty(),
        })
    }
}

/// What the analyzer's full record holds for the reduced items.
pub open spec fn spec_rust_analysis(items: Seq<RustItemNode>, a: CodeAnalysis) -> bool {
    &&& a.imports@.map_values(|x: String| x@) == spec_rust_imports(items)
    &&& a.functions@.len() == spec_rust_fn_nodes(items).len()
    &&& forall|k: int|
        0 <= k < a.functions@.len() ==> spec_fn_metrics_matches(
            spec_rust_fn_nodes(items)[k],
            #[trigger] a.functions@[k],
        )
    &&& a.types@.map_values(|x: String| x@) == spec_rust_types(items)
    &&& a.exports@.map_values(|x: String| x@) == spec_rust_exports(items)
}

impl RustAnalyzer {
    /// Applies to `.rs` files.
    pub fn can_analyze(&self, file_path: &str) -> (r: bool)
        ensures
            r == spec_ends_with(file_path@, ".rs"@),
    {
        str_ends_with(file_path, ".rs")
    }

    /// Produces the uniform record from a file's reduced top-level
    /// items: use-declarations become imports, type items become
    /// rendered type declarations, public items become export tags, and
    /// each function item goes through the metrics extractor.
    pub fn analyze_items(&self, items: &Vec<RustItemNode>) -> (r: CodeAnalysis)
        ensures
            spec_rust_analysis(items@, r),
            r.wf(),
    {
        let n = items.len();
        let mut imports: Vec<String> = Vec::new();
        let mut functions: Vec<FunctionAnalysis> = Vec::new();
        let mut types: Vec<String> = Vec::new();
        let mut exports: Vec<String> = Vec::new();
        let mut k: usize = 0;
        proof {
            assert(items@.subrange(0, 0) =~= Seq::<RustItemNode>::empty());
        }
        while k < n
            invariant
                k <= n == items@.len(),
                imports@.map_values(|x: String| x@) =~= spec_rust_imports(
                    items@.subrange(0, k as int),
                ),
                types@.map_values(|x: String| x@) =~= spec_rust_types(
                    items@.subrange(0, k as int),
                ),
                exports@.map_values(|x: String| x@) =~= spec_rust_exports(
                    items@.subrange(0, k as int),
                ),
                functions@.len() == spec_rust_fn_nodes(items@.subrange(0, k as int)).len(),
                forall|t: int|
                    0 <= t < functions@.len() ==> spec_fn_metrics_matches(
                        spec_rust_fn_nodes(items@.subrange(0, k as int))[t],
                        #[trigger] functions@[t],
                    ) && functions@[t].wf(),
            decreases n - k,
        {
            let ghost prefix = items@.subrange(0, k as int);
            let ghost prefix2 = items@.subrange(0, k + 1);
            proof {
                assert(prefix2.drop_last() =~= prefix);
                assert(prefix2.last() == items@[k as int]);
            }
            let ghost imports0 = imports@.map_values(|x: String| x@);
            let ghost types0 = types@.map_values(|x: String| x@);
            let ghost exports0 = exports@.map_values(|x: String| x@);
            let ghost fns0 = spec_rust_fn_nodes(prefix);
            match &items[k] {
                RustItemNode::UseDecl { rendered } => {
                    imports.push(rendered.clone());
                    proof {
                        assert(imports@.map_values(|x: String| x@) =~= imports0.push(rendered@));
                    }
                },
                RustItemNode::StructDecl { rendered, name, public } => {
                    types.push(rendered.clone());
                    proof {
                        assert(types@.map_values(|x: String| x@) =~= types0.push(rendered@));
                    }
                    if *public {
                        let mut tag = String::new();
                        tag.append("struct ");
                        tag.append(name.as_str());
                        exports.push(tag);
                        proof {
                            assert(exports@.map_values(|x: String| x@) =~= exports0.push(
                                "struct "@ + name@,
                            ));
                        }
                    }
                },
                RustItemNode::EnumDecl { rendered, name, public } => {
                    types.push(rendered.clone());
                    proof {
                        assert(types@.map_values(|x: String| x@) =~= types0.push(rendered@));
                    }
                    if *public {
                        let mut tag = String::new();
                        tag.append("enum ");
                        tag.append(name.as_str());
                        exports.push(tag);
                        proof {
                            assert(exports@.map_values(|x: String| x@) =~= exports0.push(
                                "enum "@ + name@,
                            ));
                        }
                    }
                },
                RustItemNode::AliasDecl { rendered, name, public } => {
                    types.push(rendered.clone());
                    proof {
                        assert(types@.map_values(|x: String| x@) =~= types0.push(rendered@));
                    }
                    if *public {
                        let mut tag = String::new();
                        tag.append("type ");
                        tag.append(name.as_str());
                        exports.push(tag);
                        proof {
                            assert(exports@.map_values(|x: String| x@) =~= exports0.push(
                                "type "@ + name@,
                            ));
                        }
                    }
                },
                RustItemNode::ImplDecl { rendered } => {
                    types.push(rendered.clone());
                    proof {
                        assert(types@.map_values(|x: String| x@) =~= types0.push(rendered@));
                    }
                },
                RustItemNode::FnDecl { node, public } => {
                    let f = extract_function_metrics(node);
                    functions.push(f);
                    proof {
                        assert(spec_rust_fn_nodes(prefix2) =~= fns0.push(*node));
                    }
                    if *public {
                        let mut tag = String::new();
                        tag.append("fn ");
                        tag.append(node.name.as_str());
                        exports.push(tag);
                        proof {
                            assert(exports@.map_values(|x: String| x@) =~= exports0.push(
                                "fn "@ + node.name@,
                            ));
                        }
                    }
                },
                RustItemNode::OtherDecl => {},
            }
            k = k + 1;
        }
        proof {
            assert(items@.subrange(0, n as int) =~= items@);
        }
        CodeAnalysis { imports, functions, types, exports }
    }
}

} // verus!
