//! The enrichment step: deciding which functions deserve a
//! natural-language summary, building the prompt for each, and
//! attaching the returned text.
//!
//! The text-generation collaborator itself lives outside the library:
//! callers execute the requests this module plans and hand the answers
//! back to [`attach_summary`].  Functions of the two pattern-based
//! languages are summarised only above a size threshold; the
//! systems-language analyzer summarises every function, switching to a
//! chunked prompt for very large ones.

use vstd::prelude::*;

use crate::analyzer::{AnalyzerKind, CodeAnalysis};
use crate::static_analysis::FunctionAnalysis;
use crate::text::{
    chars_of, line_ranges, push_char, spec_concat_nl, spec_lines_from, string_of_range,
};

verus! {

/// Functions of the pattern-based languages at or below this many body
/// lines get no summary: intentional triage, not an oversight.
pub const ENRICH_THRESHOLD: usize = 6;

/// Above this many source lines the systems-language prompt switches
/// to the chunked strategy.
pub const LARGE_FUNCTION_THRESHOLD: usize = 200;

/// How many body lines one chunk of the chunked prompt holds.
pub const CHUNK_SIZE: usize = 5;

/// The decimal digit character for `d`.
pub open spec fn spec_digit(d: int) -> char {
    if d == 0 {
        '0'
    } else if d == 1 {
        '1'
    } else if d == 2 {
        '2'
    } else if d == 3 {
        '3'
    } else if d == 4 {
        '4'
    } else if d == 5 {
        '5'
    } else if d == 6 {
        '6'
    } else if d == 7 {
        '7'
    } else if d == 8 {
        '8'
    } else {
        '9'
    }
}

/// The decimal rendering of a non-negative number.
pub open spec fn spec_dec(n: int) -> Seq<char>
    decreases n,
{
    if n < 10 {
        seq![spec_digit(n)]
    } else {
        spec_dec(n / 10).push(spec_digit(n % 10))
    }
}

fn digit_char(d: usize) -> (c: char)
    requires
        d < 10,
    ensures
        c == spec_digit(d as int),
{
    if d == 0 {
        '0'
    } else if d == 1 {
        '1'
    } else if d == 2 {
        '2'
    } else if d == 3 {
        '3'
    } else if d == 4 {
        '4'
    } else if d == 5 {
        '5'
    } else if d == 6 {
        '6'
    } else if d == 7 {
        '7'
    } else if d == 8 {
        '8'
    } else {
        '9'
    }
}

/// The decimal rendering of `n`.
fn usize_to_string(n: usize) -> (r: String)
    ensures
        r@ == spec_dec(n as int),
    decreases n,
{
    if n < 10 {
        let mut r = String::new();
        push_char(&mut r, digit_char(n));
        proof {
            assert(r@ =~= spec_dec(n as int));
        }
        r
    } else {
        let mut r = usize_to_string(n / 10);
        push_char(&mut r, digit_char(n % 10));
        r
    }
}

/// The body text a prompt quotes, or the fallback notice.
pub open spec fn spec_body_or(f: FunctionAnalysis, fallback: Seq<char>) -> Seq<char> {
    match f.body {
        Some(b) => b@,
        None => fallback,
    }
}

/// The single-prompt spelling for a scripting-language function.
pub open spec fn spec_js_prompt(f: FunctionAnalysis) -> Seq<char> {
    "Summarize the following JavaScript/TypeScript function:\n\nName: "@ + f.name@
        + "\nSignature: "@ + f.signature@ + "\nBody: "@ + spec_body_or(
        f,
        "(Function body not available)"@,
    )
}

/// The single-prompt spelling for a dynamic-language function.
pub open spec fn spec_py_prompt(f: FunctionAnalysis) -> Seq<char> {
    "Summarize the following Python function:\n\nName: "@ + f.name@ + "\nSignature: "@
        + f.signature@ + "\nTypes: "@ + f.types@ + "\nBody: "@ + spec_body_or(
        f,
        "(Function body not available)"@,
    )
}

/// The single-prompt spelling for a systems-language function.
pub open spec fn spec_rust_prompt(f: FunctionAnalysis) -> Seq<char> {
    "Summarize the following Rust function:\n\nName: "@ + f.name@ + "\nSignature: "@
        + f.signature@ + "\nTypes: "@ + f.types@ + "\nBody: "@ + spec_body_or(
        f,
        "(function body omitted)"@,
    )
}

/// The chunked middle of the large-function prompt: each group of
/// `CHUNK_SIZE` body lines becomes a numbered part followed by the type
/// context.
pub open spec fn spec_prompt_parts(lines: Seq<Seq<char>>, types: Seq<char>, idx: int) -> Seq<char>
    decreases lines.len(),
{
    if lines.len() == 0 {
        Seq::empty()
    } else {
        let take = if lines.len() < 5 {
            lines.len() as int
        } else {
            5
        };
        "\nPart "@ + spec_dec(idx) + ":\n"@ + spec_concat_nl(lines.subrange(0, take))
            + "\nTypes: "@ + types + "\n"@ + spec_prompt_parts(lines.skip(take), types, idx + 1)
    }
}

/// The chunked-prompt spelling for a very large systems-language
/// function.
pub open spec fn spec_large_prompt(f: FunctionAnalysis) -> Seq<char> {
    "Summarize this large Rust function:\n\nName: "@ + f.name@ + "\nSignature: "@ + f.signature@
        + "\nTypes: "@ + f.types@ + "\n\nFunction body in parts:\n"@ + spec_prompt_parts(
        spec_lines_from(spec_body_or(f, ""@), 0),
        f.types@,
        1,
    ) + "\nPlease provide a summary of the function's purpose and behavior based on these parts."@
}

/// Builds the chunked prompt for a function too large for a single
/// quotation: the body is split into fixed-size line groups, each with
/// its own type context.
#[verifier::loop_isolation(false)]
#[verifier::rlimit(100)]
pub fn generate_large_function_prompt(func: &FunctionAnalysis) -> (r: String)
    ensures
        r@ == spec_large_prompt(*func),
{
    proof {
        reveal_strlit("");
        reveal_strlit("\n");
    }
    let mut r = String::new();
    r.append("Summarize this large Rust function:\n\nName: ");
    r.append(func.name.as_str());
    r.append("\nSignature: ");
    r.append(func.signature.as_str());
    r.append("\nTypes: ");
    r.append(func.types.as_str());
    r.append("\n\nFunction body in parts:\n");
    let body: String = match &func.body {
        Some(b) => b.clone(),
        None => String::new(),
    };
    proof {
        assert(body@ == spec_body_or(*func, ""@));
    }
    let v = chars_of(body.as_str());
    let ranges = line_ranges(&v, 0);
    let ghost lines = spec_lines_from(v@, 0);
    let n = ranges.len();
    let ghost head = r@;
    let mut k: usize = 0;
    proof {
        assert(lines.skip(0) =~= lines);
    }
    while k < n
        invariant
            k <= n == ranges@.len(),
            n == lines.len(),
            k % 5 == 0 || k == n,
            head + spec_prompt_parts(lines, func.types@, 1) == r@ + spec_prompt_parts(
                lines.skip(k as int),
                func.types@,
                k as int / 5 + 1,
            ),
        decreases n - k,
    {
        let remaining = n - k;
        let take = if remaining < CHUNK_SIZE {
            remaining
        } else {
            CHUNK_SIZE
        };
        let ghost chunk = lines.skip(k as int).subrange(0, take as int);
        r.append("\nPart ");
        let num = usize_to_string(k / 5 + 1);
        r.append(num.as_str());
        r.append(":\n");
        let ghost before_lines = r@;
        proof {
            assert(chunk.subrange(0, 0) =~= Seq::<Seq<char>>::empty());
            assert(before_lines + spec_concat_nl(chunk.subrange(0, 0)) =~= before_lines);
        }
        let mut t: usize = 0;
        while t < take
            invariant
                t <= take,
                k + take <= n,
                r@ == before_lines + spec_concat_nl(chunk.subrange(0, t as int)),
            decreases take - t,
        {
            proof {
                assert(chunk.subrange(0, t + 1).drop_last() =~= chunk.subrange(0, t as int));
                assert(chunk.subrange(0, t + 1).last() == chunk[t as int]);
                assert(chunk[t as int] == lines[k + t]);
            }
            let line = string_of_range(&v, ranges[k + t].start, ranges[k + t].end);
            r.append(line.as_str());
            r.append("\n");
            t = t + 1;
            proof {
                assert(r@ =~= before_lines + spec_concat_nl(chunk.subrange(0, t as int)));
            }
        }
        r.append("\nTypes: ");
        r.append(func.types.as_str());
        r.append("\n");
        proof {
            let idx = k as int / 5 + 1;
            let sk = lines.skip(k as int);
            assert(chunk.subrange(0, take as int) =~= chunk);
            assert(sk.skip(take as int) =~= lines.skip(k + take));
            assert(spec_prompt_parts(sk, func.types@, idx) =~= "\nPart "@ + spec_dec(idx)
                + ":\n"@ + spec_concat_nl(chunk) + "\nTypes: "@ + func.types@ + "\n"@
                + spec_prompt_parts(lines.skip(k + take), func.types@, idx + 1));
            assert(head + spec_prompt_parts(lines, func.types@, 1) =~= r@ + spec_prompt_parts(
                lines.skip(k + take),
                func.types@,
                idx + 1,
            ));
            if take == 5 {
                assert((k + take) as int / 5 + 1 == idx + 1);
            } else {
                assert(k + take == n);
                assert(lines.skip(n as int) =~= Seq::<Seq<char>>::empty());
            }
        }
        k = k + take;
    }
    proof {
        assert(lines.skip(n as int) =~= Seq::<Seq<char>>::empty());
    }
    r.append("\nPlease provide a summary of the function's purpose and behavior based on these parts.");
    r
}

/// One planned summarisation request: which function, and the prompt to
/// send.
pub struct EnrichmentRequest {
    pub index: usize,
    pub prompt: String,
}

/// Whether `f` is large enough to deserve a summary under `kind`'s
/// policy: the systems language summarises everything, the two
/// pattern-based languages only bodies of more than the threshold's
/// lines.
pub open spec fn spec_wants_summary(kind: AnalyzerKind, f: FunctionAnalysis) -> bool {
    match kind {
        AnalyzerKind::RustLang => true,
        _ => f.lines_of_code > 6,
    }
}

/// The prompt `kind`'s policy sends for `f`.
pub open spec fn spec_prompt_for(kind: AnalyzerKind, f: FunctionAnalysis) -> Seq<char> {
    match kind {
        AnalyzerKind::RustLang => if f.lines_of_code > 200 {
            spec_large_prompt(f)
        } else {
            spec_rust_prompt(f)
        },
        AnalyzerKind::JavaScript => spec_js_prompt(f),
        AnalyzerKind::Python => spec_py_prompt(f),
    }
}

/// The full request plan for a function list, in function order.
pub open spec fn spec_plan(kind: AnalyzerKind, fs: Seq<FunctionAnalysis>) -> Seq<(int, Seq<char>)>
    decreases fs.len(),
{
    if fs.len() == 0 {
        Seq::empty()
    } else {
        spec_plan(kind, fs.drop_last()) + (if spec_wants_summary(kind, fs.last()) {
            seq![((fs.len() - 1) as int, spec_prompt_for(kind, fs.last()))]
        } else {
            Seq::<(int, Seq<char>)>::empty()
        })
    }
}

/// The triage law: a function index appears in the plan exactly when
/// the policy wants a summary for it — for the pattern-based languages,
/// exactly when the body exceeds the threshold's line count.
pub proof fn lemma_enrichment_triage(kind: AnalyzerKind, fs: Seq<FunctionAnalysis>, k: int)
    requires
        0 <= k < fs.len(),
    ensures
        (exists|i: int|
            0 <= i < spec_plan(kind, fs).len() && (#[trigger] spec_plan(kind, fs)[i]).0 == k)
            <==> spec_wants_summary(kind, fs[k]),
    decreases fs.len(),
{
    let plan = spec_plan(kind, fs);
    let prev = spec_plan(kind, fs.drop_last());
    lemma_plan_indices(kind, fs.drop_last());
    if k == fs.len() - 1 {
        if spec_wants_summary(kind, fs.last()) {
            assert(plan[plan.len() - 1].0 == k);
        } else {
            assert(forall|i: int| 0 <= i < prev.len() ==> (#[trigger] prev[i]).0 < k);
            assert(plan =~= prev);
        }
    } else {
        lemma_enrichment_triage(kind, fs.drop_last(), k);
        assert(fs.drop_last()[k] == fs[k]);
        if spec_wants_summary(kind, fs[k]) {
            let i = choose|i: int| 0 <= i < prev.len() && (#[trigger] prev[i]).0 == k;
            assert(plan[i].0 == k);
        } else {
            assert forall|i: int|
                0 <= i < plan.len() implies (#[trigger] plan[i]).0 != k by {
                if i < prev.len() {
                    assert(plan[i] == prev[i]);
                } else {
                    assert(plan[i].0 == fs.len() - 1);
                }
            }
        }
    }
}

/// Every planned index points into the list.
pub proof fn lemma_plan_indices(kind: AnalyzerKind, fs: Seq<FunctionAnalysis>)
    ensures
        forall|i: int|
            0 <= i < spec_plan(kind, fs).len() ==> 0 <= (#[trigger] spec_plan(kind, fs)[i]).0
                < fs.len(),
    decreases fs.len(),
{
    if fs.len() > 0 {
        lemma_plan_indices(kind, fs.drop_last());
        let plan = spec_plan(kind, fs);
        let prev = spec_plan(kind, fs.drop_last());
        assert forall|i: int|
            0 <= i < plan.len() implies 0 <= (#[trigger] plan[i]).0 < fs.len() by {
            if i < prev.len() {
                assert(plan[i] == prev[i]);
            }
        }
    }
}

fn prompt_for(kind: AnalyzerKind, f: &FunctionAnalysis) -> (r: String)
    ensures
        r@ == spec_prompt_for(kind, *f),
{
    match kind {
        AnalyzerKind::RustLang => {
            if f.lines_of_code > LARGE_FUNCTION_THRESHOLD {
                generate_large_function_prompt(f)
            } else {
                let mut r = String::new();
                r.append("Summarize the following Rust function:\n\nName: ");
                r.append(f.name.as_str());
                r.append("\nSignature: ");
                r.append(f.signature.as_str());
                r.append("\nTypes: ");
                r.append(f.types.as_str());
                r.append("\nBody: ");
                match &f.body {
                    Some(b) => r.append(b.as_str()),
                    None => r.append("(function body omitted)"),
                }
                r
            }
        },
        AnalyzerKind::JavaScript => {
            let mut r = String::new();
            r.append("Summarize the following JavaScript/TypeScript function:\n\nName: ");
            r.append(f.name.as_str());
            r.append("\nSignature: ");
            r.append(f.signature.as_str());
            r.append("\nBody: ");
            match &f.body {
                Some(b) => r.append(b.as_str()),
                None => r.append("(Function body not available)"),
            }
            r
        },
        AnalyzerKind::Python => {
            let mut r = String::new();
            r.append("Summarize the following Python function:\n\nName: ");
            r.append(f.name.as_str());
            r.append("\nSignature: ");
            r.append(f.signature.as_str());
            r.append("\nTypes: ");
            r.append(f.types.as_str());
            r.append("\nBody: ");
            match &f.body {
                Some(b) => r.append(b.as_str()),
                None => r.append("(Function body not available)"),
            }
            r
        },
    }
}

/// Plans the summarisation requests for one analysed file: one request
/// per function the policy selects, in function order, each carrying
/// the prompt the policy prescribes.
pub fn enrichment_plan(kind: AnalyzerKind, analysis: &CodeAnalysis) -> (r: Vec<EnrichmentRequest>)
    ensures
        r@.map_values(|q: EnrichmentRequest| (q.index as int, q.prompt@)) == spec_plan(
            kind,
            analysis.functions@,
        ),
        forall|i: int| 0 <= i < r@.len() ==> (#[trigger] r@[i]).index < analysis.functions@.len(),
{
    let fs = &analysis.functions;
    let n = fs.len();
    let mut r: Vec<EnrichmentRequest> = Vec::new();
    let mut k: usize = 0;
    proof {
        assert(fs@.subrange(0, 0) =~= Seq::<FunctionAnalysis>::empty());
        assert(r@.map_values(|q: EnrichmentRequest| (q.index as int, q.prompt@)) =~= spec_plan(
            kind,
            fs@.subrange(0, 0),
        ));
    }
    while k < n
        invariant
            k <= n == fs@.len(),
            fs@ == analysis.functions@,
            r@.map_values(|q: EnrichmentRequest| (q.index as int, q.prompt@)) =~= spec_plan(
                kind,
                fs@.subrange(0, k as int),
            ),
            forall|i: int| 0 <= i < r@.len() ==> (#[trigger] r@[i]).index < k,
        decreases n - k,
    {
        let ghost done = r@.map_values(|q: EnrichmentRequest| (q.index as int, q.prompt@));
        proof {
            assert(fs@.subrange(0, k + 1).drop_last() =~= fs@.subrange(0, k as int));
            assert(fs@.subrange(0, k + 1).last() == fs@[k as int]);
        }
        let wants = match kind {
            AnalyzerKind::RustLang => true,
            _ => fs[k].lines_of_code > ENRICH_THRESHOLD,
        };
        if wants {
            let prompt = prompt_for(kind, &fs[k]);
            r.push(EnrichmentRequest { index: k, prompt });
            proof {
                assert(r@.map_values(|q: EnrichmentRequest| (q.index as int, q.prompt@))
                    =~= done.push((k as int, spec_prompt_for(kind, fs@[k as int]))));
            }
        }
        k = k + 1;
    }
    proof {
        assert(fs@.subrange(0, n as int) =~= fs@);
    }
    r
}

/// Attaches one returned summary to the function it was requested for.
/// A summary is set at most once and never overwritten: the target must
/// still be bare.
pub fn attach_summary(analysis: &mut CodeAnalysis, index: usize, summary: String)
    requires
        index < old(analysis).functions@.len(),
        old(analysis).functions@[index as int].summary is None,
    ensures
        final(analysis).functions@ == old(analysis).functions@.update(
            index as int,
            FunctionAnalysis {
                summary: Some(summary),
                ..old(analysis).functions@[index as int]
            },
        ),
        final(analysis).imports == old(analysis).imports,
        final(analysis).types == old(analysis).types,
        final(analysis).exports == old(analysis).exports,
{
    let ghost sv = summary;
    let mut f = analysis.functions.remove(index);
    f.summary = Some(summary);
    analysis.functions.insert(index, f);
    proof {
        assert(analysis.functions@ =~= old(analysis).functions@.update(
            index as int,
            FunctionAnalysis { summary: Some(sv), ..old(analysis).functions@[index as int] },
        ));
    }
}

} // verus!
