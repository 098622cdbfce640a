//! The metrics extractor: per-function facts for the systems-language
//! analyzer.
//!
//! The analyzer's parse step reduces each top-level function item to a
//! [`RustFnNode`]: its rendered signature and body, its source span, and
//! the counts of the control-flow nodes a structural walk of its body
//! finds.  Everything computed from that record — line count, cyclomatic
//! complexity, the `: type` segments of the signature, the body-size cap
//! — is specified and verified here.

use vstd::prelude::*;

use crate::text::{
    chars_of, find_char_at, rfind_char_in, skip_ws, spec_find_at, spec_join_sep, spec_join_tail,
    spec_rfind, spec_skip_ws, spec_trim, string_of_range, trim_in,
};

verus! {

/// One extracted function: signature, metrics and optional summary.
#[derive(Debug, PartialEq, Eq)]
pub struct FunctionAnalysis {
    pub name: String,
    pub signature: String,
    pub types: String,
    pub body: Option<String>,
    pub lines_of_code: usize,
    pub cyclomatic_complexity: usize,
    pub parameters: usize,
    pub returns: bool,
    pub summary: Option<String>,
}

impl FunctionAnalysis {
    /// Every function ever produced has at least the baseline path.
    pub open spec fn wf(&self) -> bool {
        self.cyclomatic_complexity >= 1
    }

    /// Two records that carry the same facts: every text field holds
    /// the same characters and every metric the same number.
    pub open spec fn like(&self, other: &FunctionAnalysis) -> bool {
        &&& self.name@ == other.name@
        &&& self.signature@ == other.signature@
        &&& self.types@ == other.types@
        &&& match (self.body, other.body) {
            (Some(a), Some(b)) => a@ == b@,
            (None, None) => true,
            _ => false,
        }
        &&& self.lines_of_code == other.lines_of_code
        &&& self.cyclomatic_complexity == other.cyclomatic_complexity
        &&& self.parameters == other.parameters
        &&& self.returns == other.returns
        &&& match (self.summary, other.summary) {
            (Some(a), Some(b)) => a@ == b@,
            (None, None) => true,
            _ => false,
        }
    }
}

impl Clone for FunctionAnalysis {
    /// A copy carrying the same facts.
    fn clone(&self) -> (r: Self)
        ensures
            r.like(self),
    {
        FunctionAnalysis {
            name: self.name.clone(),
            signature: self.signature.clone(),
            types: self.types.clone(),
            body: match &self.body {
                Some(b) => Some(b.clone()),
                None => None,
            },
            lines_of_code: self.lines_of_code,
            cyclomatic_complexity: self.cyclomatic_complexity,
            parameters: self.parameters,
            returns: self.returns,
            summary: match &self.summary {
                Some(sm) => Some(sm.clone()),
                None => None,
            },
        }
    }
}

/// One top-level function item, reduced to plain values: the rendered
/// signature and body, the source span, and the control-flow node counts
/// of a structural walk (one entry of `match_arm_counts` per `match`
/// expression, holding that expression's arm count).
#[derive(Debug, Clone, PartialEq, Eq)]
pub struct RustFnNode {
    pub name: String,
    pub signature_tokens: String,
    pub body_tokens: String,
    pub start_line: usize,
    pub end_line: usize,
    pub parameters: usize,
    pub returns: bool,
    pub if_count: usize,
    pub while_count: usize,
    pub loop_count: usize,
    pub alloc_count: usize,
    pub match_arm_counts: Vec<usize>,
}

/// The position where a `: type` capture starting at `j` ends: the first
/// `','` or `')'` at or after `j`, or the end of the text.
pub open spec fn spec_type_end(s: Seq<char>, j: int) -> int
    decreases s.len() - j,
{
    if j < 0 || j >= s.len() {
        s.len() as int
    } else if s[j] == ',' || s[j] == ')' {
        j
    } else {
        spec_type_end(s, j + 1)
    }
}

pub proof fn lemma_type_end_bounds(s: Seq<char>, j: int)
    requires
        0 <= j <= s.len(),
    ensures
        j <= spec_type_end(s, j) <= s.len(),
    decreases s.len() - j,
{
    if j < s.len() && !(s[j] == ',' || s[j] == ')') {
        lemma_type_end_bounds(s, j + 1);
    }
}

/// The trimmed `: type` segments of a rendered signature, in order: after
/// each `':'`, the whitespace-skipped run of characters up to the next
/// `','` or `')'`, when that run is non-empty.
pub open spec fn spec_sig_types(s: Seq<char>, i: int) -> Seq<Seq<char>>
    decreases s.len() - i,
{
    if i < 0 || i >= s.len() {
        Seq::empty()
    } else if s[i] != ':' {
        spec_sig_types(s, i + 1)
    } else {
        let j = spec_skip_ws(s, i + 1);
        let k = spec_type_end(s, j);
        if i + 1 <= j <= k <= s.len() && j < k {
            seq![spec_trim(s.subrange(j, k))] + spec_sig_types(s, k)
        } else {
            spec_sig_types(s, i + 1)
        }
    }
}

/// The rendered signature with the span from its first `'{'` to its last
/// `'}'` replaced by a literal `{ ... }` placeholder.
pub open spec fn spec_remove_body(s: Seq<char>) -> Seq<char> {
    match (spec_find_at(s, '{', 0), spec_rfind(s, '}')) {
        (Some(a), Some(b)) => if a < b {
            s.subrange(0, a) + "{ ... }"@ + s.subrange(b + 1, s.len() as int)
        } else {
            s
        },
        _ => s,
    }
}

/// Extracts every `: type` segment of a rendered signature, joined as a
/// comma-separated list.
pub fn extract_types_from_signature(signature: &str) -> (r: String)
    ensures
        r@ == spec_join_sep(spec_sig_types(signature@, 0), ", "@),
{
    let v = chars_of(signature);
    let n = v.len();
    let mut r = String::new();
    let mut first: bool = true;
    let mut i: usize = 0;
    while i < n
        invariant
            n == v@.len(),
            i <= n,
            v@ == signature@,
            spec_join_sep(spec_sig_types(v@, 0), ", "@) == r@ + spec_join_tail(
                spec_sig_types(v@, i as int),
                ", "@,
                first,
            ),
            first ==> r@ == Seq::<char>::empty(),
        decreases n - i,
    {
        if v[i] == ':' {
            let j = skip_ws(&v, i + 1);
            let mut k: usize = j;
            while k < n && !(v[k] == ',' || v[k] == ')')
                invariant
                    j <= k <= n == v@.len(),
                    spec_type_end(v@, j as int) == spec_type_end(v@, k as int),
                decreases n - k,
            {
                k = k + 1;
            }
            proof {
                lemma_type_end_bounds(v@, k as int);
                assert(spec_type_end(v@, j as int) == k as int);
            }
            if k > j {
                proof {
                    let parts = spec_sig_types(v@, i as int);
                    let rest = spec_sig_types(v@, k as int);
                    assert(parts =~= seq![spec_trim(v@.subrange(j as int, k as int))] + rest);
                    assert(parts[0] == spec_trim(v@.subrange(j as int, k as int)));
                    assert(parts.drop_first() =~= rest);
                }
                let (a, b) = trim_in(&v, j, k);
                if !first {
                    r.append(", ");
                }
                let part = string_of_range(&v, a, b);
                r.append(part.as_str());
                first = false;
                i = k;
            } else {
                i = i + 1;
            }
        } else {
            i = i + 1;
        }
    }
    proof {
        assert(spec_sig_types(v@, n as int) =~= Seq::<Seq<char>>::empty());
        assert(spec_join_sep(spec_sig_types(v@, 0), ", "@) =~= r@);
    }
    r
}

/// Replaces a rendered function body by the `{ ... }` placeholder,
/// leaving a brace-free signature unchanged.
pub fn remove_body_from_signature(signature: &str) -> (r: String)
    ensures
        r@ == spec_remove_body(signature@),
{
    let v = chars_of(signature);
    let n = v.len();
    let open_pos = find_char_at(&v, '{', 0);
    let close_pos = rfind_char_in(&v, 0, n, '}');
    proof {
        assert(v@.subrange(0, n as int) =~= v@);
    }
    match (open_pos, close_pos) {
        (Some(a), Some(b)) => {
            if a < b {
                let mut r = string_of_range(&v, 0, a);
                r.append("{ ... }");
                let rest = string_of_range(&v, b + 1, n);
                r.append(rest.as_str());
                proof {
                    assert(r@ =~= spec_remove_body(signature@));
                }
                r
            } else {
                let r = string_of_range(&v, 0, n);
                proof {
                    assert(r@ =~= signature@);
                }
                r
            }
        },
        _ => {
            let r = string_of_range(&v, 0, n);
            proof {
                assert(r@ =~= signature@);
            }
            r
        },
    }
}

/// The sum of a sequence of counts.
pub open spec fn spec_sum(s: Seq<usize>) -> int
    decreases s.len(),
{
    if s.len() == 0 {
        0
    } else {
        spec_sum(s.drop_last()) + s.last()
    }
}

pub proof fn lemma_sum_nonneg(s: Seq<usize>)
    ensures
        spec_sum(s) >= 0,
    decreases s.len(),
{
    if s.len() > 0 {
        lemma_sum_nonneg(s.drop_last());
    }
}

/// The exact structural complexity of a function node: the baseline
/// path, one per `if`/`while`/`loop`/allocation node, and one per match
/// arm across all `match` expressions.
pub open spec fn spec_complexity(n: &RustFnNode) -> int {
    1 + n.if_count + n.while_count + n.loop_count + n.alloc_count + spec_sum(n.match_arm_counts@)
}

/// The line count of a span: last line minus first line, plus one.
pub open spec fn spec_line_count(start: usize, end: usize) -> int {
    (if end >= start {
        end - start
    } else {
        0
    }) + 1
}

/// The exact-complexity law of the systems-language analyzer: for any
/// extracted record, the reported cyclomatic complexity equals one for
/// the baseline path, plus the count of `if`, `while`, `loop` and
/// heap-allocation nodes, plus the sum of arm counts across all `match`
/// expressions — exactly, whenever that structural sum is machine
/// representable (beyond `usize::MAX` the record saturates there).
pub proof fn lemma_exact_complexity(node: RustFnNode, r: FunctionAnalysis)
    requires
        spec_fn_metrics_matches(node, r),
        spec_complexity(&node) <= usize::MAX,
    ensures
        r.cyclomatic_complexity as int == 1 + node.if_count + node.while_count + node.loop_count
            + node.alloc_count + spec_sum(node.match_arm_counts@),
{
}

/// Addition that stops at the largest representable count.
pub fn sat_add(a: usize, b: usize) -> (r: usize)
    ensures
        r as int == if a + b <= usize::MAX {
            a + b
        } else {
            usize::MAX as int
        },
{
    if a <= usize::MAX - b {
        a + b
    } else {
        usize::MAX
    }
}

/// What the extracted record of one reduced function item holds.
pub open spec fn spec_fn_metrics_matches(node: RustFnNode, r: FunctionAnalysis) -> bool {
    &&& r.name@ == node.name@
    &&& r.signature@ == spec_remove_body(node.signature_tokens@)
    &&& r.types@ == spec_join_sep(spec_sig_types(node.signature_tokens@, 0), ", "@)
    &&& r.lines_of_code as int == if spec_line_count(node.start_line, node.end_line)
        <= usize::MAX {
        spec_line_count(node.start_line, node.end_line)
    } else {
        usize::MAX as int
    }
    &&& r.cyclomatic_complexity as int == if spec_complexity(&node) <= usize::MAX {
        spec_complexity(&node)
    } else {
        usize::MAX as int
    }
    &&& r.parameters == node.parameters
    &&& r.returns == node.returns
    &&& r.body == if r.lines_of_code <= 20 {
        Some(node.body_tokens)
    } else {
        Option::<String>::None
    }
    &&& r.summary is None
}

/// Computes the uniform per-function record of the systems-language
/// analyzer from one reduced function item.
///
/// The complexity is the exact structural count (`spec_complexity`); the
/// line count comes from the source span; the raw body is kept only for
/// functions of at most 20 source lines; a summary is never present at
/// extraction time.  Counts too large for the machine stop at
/// `usize::MAX`.
pub fn extract_function_metrics(node: &RustFnNode) -> (r: FunctionAnalysis)
    ensures
        spec_fn_metrics_matches(*node, r),
        r.wf(),
{
    let name = node.name.clone();
    let signature = remove_body_from_signature(node.signature_tokens.as_str());
    let types = extract_types_from_signature(node.signature_tokens.as_str());
    let diff = if node.end_line >= node.start_line {
        node.end_line - node.start_line
    } else {
        0
    };
    let lines_of_code = sat_add(diff, 1);
    let mut cc: usize = sat_add(1, node.if_count);
    cc = sat_add(cc, node.while_count);
    cc = sat_add(cc, node.loop_count);
    cc = sat_add(cc, node.alloc_count);
    let m = node.match_arm_counts.len();
    let mut t: usize = 0;
    let ghost arms = node.match_arm_counts@;
    proof {
        assert(arms.subrange(0, 0) =~= Seq::<usize>::empty());
    }
    while t < m
        invariant
            t <= m == arms.len(),
            arms == node.match_arm_counts@,
            cc as int == if 1 + node.if_count + node.while_count + node.loop_count
                + node.alloc_count + spec_sum(arms.subrange(0, t as int)) <= usize::MAX {
                1 + node.if_count + node.while_count + node.loop_count + node.alloc_count
                    + spec_sum(arms.subrange(0, t as int))
            } else {
                usize::MAX as int
            },
        decreases m - t,
    {
        proof {
            assert(arms.subrange(0, t + 1).drop_last() =~= arms.subrange(0, t as int));
        }
        cc = sat_add(cc, node.match_arm_counts[t]);
        t = t + 1;
    }
    proof {
        assert(arms.subrange(0, m as int) =~= arms);
        lemma_sum_nonneg(arms);
    }
    let body = if lines_of_code <= 20 {
        Some(node.body_tokens.clone())
    } else {
        None
    };
    FunctionAnalysis {
        name,
        signature,
        types,
        body,
        lines_of_code,
        cyclomatic_complexity: cc,
        parameters: node.parameters,
        returns: node.returns,
        summary: None,
    }
}

} // verus!
