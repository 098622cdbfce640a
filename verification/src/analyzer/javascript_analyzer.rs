//! The scripting-language analyzer: pattern-based extraction for
//! brace-delimited, C-family sources with optional static typing.
//!
//! Nothing here parses the language.  Each extractor recognises one
//! textual pattern, specified by a spec function over the character
//! sequence: ES-module and `require` imports at statement start, named
//! and arrow function declarations, `type`/`interface` declarations, and
//! `export`-prefixed symbols.  Function bodies come from a balanced-brace
//! scan, and the complexity metric counts control-flow keywords (word
//! bounded) and short-circuit operators (as substrings) — a textual
//! proxy that can overcount inside string literals, by design.

use vstd::prelude::*;

use crate::analyzer::{CodeAnalysis, LanguageAnalyzer};
use crate::error::FolderSummaryError;
use crate::static_analysis::{sat_add, FunctionAnalysis};
use crate::text::{
    chars_of, count_char_in, count_keywords, find_char_at, find_quote, is_blank, is_quote_char,
    is_ws_char, is_word_char, lemma_count_keywords_nonneg, lemma_find_at_props,
    lemma_take_balanced_bounds, line_ranges, lit_at, param_count_in, range_is_blank, skip_blanks,
    skip_ws, spec_brace_delta, spec_concat_nl, spec_count_keywords, spec_ends_with, spec_find_at,
    spec_find_quote, spec_lines_from, spec_lit_at, spec_next_line, spec_param_count,
    spec_skip_blanks, spec_skip_ws, spec_take_balanced, spec_word_end, next_line, str_ends_with,
    string_of_chars, string_of_range, word_char, word_end, ws_char,
};

verus! {

/// The analyzer for brace-delimited, C-family scripting sources.
pub struct JavaScriptAnalyzer;

// ---------------------------------------------------------------------
// The import grammar.
// ---------------------------------------------------------------------

/// Where one ES-module import clause starting at `i` ends: a braced
/// named-list, a `* as name` namespace clause, or a bare name.
pub open spec fn spec_clause_end(s: Seq<char>, i: int) -> Option<int> {
    if i < 0 || i >= s.len() {
        None
    } else if s[i] == '{' {
        match spec_find_at(s, '}', i + 1) {
            Some(j) => Some(j + 1),
            None => None,
        }
    } else if s[i] == '*' {
        let a = spec_skip_ws(s, i + 1);
        if a > i + 1 && spec_lit_at(s, a, "as"@) && a + 2 < s.len() && is_ws_char(s[a + 2]) {
            let b = spec_skip_ws(s, a + 2);
            let c = spec_word_end(s, b);
            if c > b {
                Some(c)
            } else {
                None
            }
        } else {
            None
        }
    } else if is_word_char(s[i]) {
        Some(spec_word_end(s, i))
    } else {
        None
    }
}

/// Where a comma-separated list of import clauses starting at `i` ends.
pub open spec fn spec_clause_list_end(s: Seq<char>, i: int) -> Option<int>
    decreases s.len() - i,
{
    match spec_clause_end(s, i) {
        None => None,
        Some(e) => {
            let t = spec_skip_ws(s, e);
            if 0 <= t < s.len() && s[t] == ',' {
                let u = spec_skip_ws(s, t + 1);
                if i < u <= s.len() && spec_clause_end(s, u) is Some {
                    spec_clause_list_end(s, u)
                } else {
                    Some(e)
                }
            } else {
                Some(e)
            }
        },
    }
}

/// After the clause list: mandatory whitespace, `from`, mandatory
/// whitespace; the result is where the quoted module must start.
pub open spec fn spec_from_part(s: Seq<char>, e: int) -> Option<int> {
    if 0 <= e < s.len() && is_ws_char(s[e]) {
        let a = spec_skip_ws(s, e);
        if spec_lit_at(s, a, "from"@) && a + 4 < s.len() && is_ws_char(s[a + 4]) {
            Some(spec_skip_ws(s, a + 4))
        } else {
            None
        }
    } else {
        None
    }
}

/// A statement boundary after position `p`: an immediate semicolon, or
/// nothing but whitespace up to the end of the line.
pub open spec fn spec_js_terminator(s: Seq<char>, p: int) -> bool {
    (0 <= p < s.len() && s[p] == ';') || (0 <= p <= s.len() && {
        let e = match spec_find_at(s, '\n', p) {
            Some(j) => j,
            None => s.len() as int,
        };
        p <= e <= s.len() && is_blank(s.subrange(p, e))
    })
}

/// A quoted module path at `q`, with a statement boundary after it: the
/// capture runs to the next quote of either kind, stays on one line, and
/// is non-empty.  The second component is where the matched statement
/// ends: past a closing semicolon, else past the closing quote.
pub open spec fn spec_quoted_module(s: Seq<char>, q: int) -> Option<(Seq<char>, int)> {
    if 0 <= q < s.len() && is_quote_char(s[q]) {
        match spec_find_quote(s, q + 1) {
            Some(m) => if m > q + 1 && (match spec_find_at(s, '\n', q + 1) {
                Some(w) => w >= m,
                None => true,
            }) && spec_js_terminator(s, m + 1) {
                Some(
                    (
                        s.subrange(q + 1, m),
                        if m + 1 < s.len() && s[m + 1] == ';' {
                            m + 2
                        } else {
                            m + 1
                        },
                    ),
                )
            } else {
                None
            },
            None => None,
        }
    } else {
        None
    }
}

/// After a `const`/`let`/`var` keyword and mandatory whitespace: the
/// position of the declared binder.
pub open spec fn spec_decl_kw_end(s: Seq<char>, i: int) -> Option<int> {
    if spec_lit_at(s, i, "const"@) && i + 5 < s.len() && is_ws_char(s[i + 5]) {
        Some(spec_skip_ws(s, i + 5))
    } else if spec_lit_at(s, i, "let"@) && i + 3 < s.len() && is_ws_char(s[i + 3]) {
        Some(spec_skip_ws(s, i + 3))
    } else if spec_lit_at(s, i, "var"@) && i + 3 < s.len() && is_ws_char(s[i + 3]) {
        Some(spec_skip_ws(s, i + 3))
    } else {
        None
    }
}

/// Where a destructuring or plain binder starting at `d` ends.
pub open spec fn spec_binder_end(s: Seq<char>, d: int) -> Option<int> {
    if d < 0 || d >= s.len() {
        None
    } else if s[d] == '{' {
        match spec_find_at(s, '}', d + 1) {
            Some(j) => Some(j + 1),
            None => None,
        }
    } else if is_word_char(s[d]) {
        Some(spec_word_end(s, d))
    } else {
        None
    }
}

/// The quoted argument of a `require(...)` call starting at `x`, with
/// the closing parenthesis and a statement boundary after it.  The
/// second component is where the matched statement ends: past a closing
/// semicolon, else past the closing parenthesis.
pub open spec fn spec_require_quoted(s: Seq<char>, x: int) -> Option<(Seq<char>, int)> {
    if 0 <= x < s.len() && is_quote_char(s[x]) {
        match spec_find_quote(s, x + 1) {
            Some(m) => if m > x + 1 && (match spec_find_at(s, '\n', x + 1) {
                Some(w) => w >= m,
                None => true,
            }) {
                let y = spec_skip_ws(s, m + 1);
                if 0 <= y < s.len() && s[y] == ')' && spec_js_terminator(s, y + 1) {
                    Some(
                        (
                            s.subrange(x + 1, m),
                            if y + 1 < s.len() && s[y + 1] == ';' {
                                y + 2
                            } else {
                                y + 1
                            },
                        ),
                    )
                } else {
                    None
                }
            } else {
                None
            },
            None => None,
        }
    } else {
        None
    }
}

/// A CommonJS require assignment starting at `i`, with where the
/// matched statement ends.
pub open spec fn spec_require_at(s: Seq<char>, i: int) -> Option<(Seq<char>, int)> {
    match spec_decl_kw_end(s, i) {
        None => None,
        Some(d) => match spec_binder_end(s, d) {
            None => None,
            Some(e) => {
                let t = spec_skip_ws(s, e);
                if 0 <= t < s.len() && s[t] == '=' {
                    let u = spec_skip_ws(s, t + 1);
                    if spec_lit_at(s, u, "require"@) {
                        let w = spec_skip_ws(s, u + 7);
                        if 0 <= w < s.len() && s[w] == '(' {
                            spec_require_quoted(s, spec_skip_ws(s, w + 1))
                        } else {
                            None
                        }
                    } else {
                        None
                    }
                } else {
                    None
                }
            },
        },
    }
}

/// The import recognised at the line starting at `p`, if any: after
/// leading blanks, either an ES-module import statement or a require
/// assignment, each ending at a statement boundary.  The second
/// component is where the matched statement ends.
pub open spec fn spec_import_at(s: Seq<char>, p: int) -> Option<(Seq<char>, int)> {
    let i = spec_skip_blanks(s, p);
    if spec_lit_at(s, i, "import"@) && i + 6 < s.len() && is_ws_char(s[i + 6]) {
        let j = spec_skip_ws(s, i + 6);
        let q = match spec_clause_list_end(s, j) {
            Some(e) => match spec_from_part(s, e) {
                Some(q0) => q0,
                None => j,
            },
            None => j,
        };
        spec_quoted_module(s, q)
    } else {
        spec_require_at(s, i)
    }
}

/// All imports of `s`, in line order: one match attempt per line
/// start, except that no attempt is made on a line an earlier match
/// runs into — the scan resumes on the first line after the match.
pub open spec fn spec_imports_from(s: Seq<char>, p: int) -> Seq<Seq<char>>
    decreases s.len() - p,
{
    if p < 0 || p >= s.len() {
        Seq::empty()
    } else {
        match spec_import_at(s, p) {
            Some((cap, e)) => {
                let next = spec_next_line(s, e);
                if p < next <= s.len() {
                    seq![cap] + spec_imports_from(s, next)
                } else {
                    seq![cap]
                }
            },
            None => {
                let next = spec_next_line(s, p);
                if p < next <= s.len() {
                    spec_imports_from(s, next)
                } else {
                    Seq::empty()
                }
            },
        }
    }
}

// ---------------------------------------------------------------------
// Executable twins of the import grammar.
// ---------------------------------------------------------------------

fn clause_end(v: &Vec<char>, i: usize) -> (r: Option<usize>)
    requires
        i <= v@.len(),
    ensures
        match r {
            Some(e) => Some(e as int) == spec_clause_end(v@, i as int) && i < e <= v@.len(),
            None => spec_clause_end(v@, i as int) is None,
        },
{
    proof {
        reveal_strlit("as");
    }
    let n = v.len();
    if i >= n {
        return None;
    }
    if v[i] == '{' {
        match find_char_at(v, '}', i + 1) {
            Some(j) => {
                proof {
                    lemma_find_at_props(v@, '}', i + 1);
                }
                Some(j + 1)
            },
            None => None,
        }
    } else if v[i] == '*' {
        let a = skip_ws(v, i + 1);
        if a > i + 1 && lit_at(v, a, "as") && a + 2 < n && ws_char(v[a + 2]) {
            let b = skip_ws(v, a + 2);
            let c = word_end(v, b);
            if c > b {
                Some(c)
            } else {
                None
            }
        } else {
            None
        }
    } else if word_char(v[i]) {
        let e = word_end(v, i + 1);
        proof {
            assert(spec_word_end(v@, i as int) == spec_word_end(v@, i + 1));
        }
        Some(e)
    } else {
        None
    }
}

fn clause_list_end(v: &Vec<char>, i: usize) -> (r: Option<usize>)
    requires
        i <= v@.len(),
    ensures
        match r {
            Some(e) => Some(e as int) == spec_clause_list_end(v@, i as int) && i < e <= v@.len(),
            None => spec_clause_list_end(v@, i as int) is None,
        },
    decreases v@.len() - i,
{
    let n = v.len();
    match clause_end(v, i) {
        None => None,
        Some(e) => {
            let t = skip_ws(v, e);
            if t < n && v[t] == ',' {
                let u = skip_ws(v, t + 1);
                let cont = clause_end(v, u);
                if u > i && cont.is_some() {
                    clause_list_end(v, u)
                } else {
                    Some(e)
                }
            } else {
                Some(e)
            }
        },
    }
}

fn from_part(v: &Vec<char>, e: usize) -> (r: Option<usize>)
    requires
        e <= v@.len(),
    ensures
        match r {
            Some(q) => Some(q as int) == spec_from_part(v@, e as int) && e < q <= v@.len(),
            None => spec_from_part(v@, e as int) is None,
        },
{
    proof {
        reveal_strlit("from");
    }
    let n = v.len();
    if e < n && ws_char(v[e]) {
        let a = skip_ws(v, e);
        if lit_at(v, a, "from") && a + 4 < n && ws_char(v[a + 4]) {
            Some(skip_ws(v, a + 4))
        } else {
            None
        }
    } else {
        None
    }
}

fn js_terminator(v: &Vec<char>, p: usize) -> (r: bool)
    requires
        p <= v@.len(),
    ensures
        r == spec_js_terminator(v@, p as int),
{
    let n = v.len();
    if p < n && v[p] == ';' {
        return true;
    }
    let e = match find_char_at(v, '\n', p) {
        Some(j) => {
            proof {
                lemma_find_at_props(v@, '\n', p as int);
            }
            j
        },
        None => n,
    };
    range_is_blank(v, p, e)
}

fn quoted_module(v: &Vec<char>, q: usize) -> (r: Option<(usize, usize, usize)>)
    requires
        q <= v@.len(),
    ensures
        match r {
            Some((a, b, e)) => a <= b <= v@.len() && q < e <= v@.len() && spec_quoted_module(
                v@,
                q as int,
            ) == Some((v@.subrange(a as int, b as int), e as int)),
            None => spec_quoted_module(v@, q as int) is None,
        },
{
    let n = v.len();
    if q < n && (v[q] == '\'' || v[q] == '"') {
        match find_quote(v, q + 1) {
            Some(m) => {
                let line_ok = match find_char_at(v, '\n', q + 1) {
                    Some(w) => w >= m,
                    None => true,
                };
                if m > q + 1 && line_ok && js_terminator(v, m + 1) {
                    let e = if m + 1 < n && v[m + 1] == ';' {
                        m + 2
                    } else {
                        m + 1
                    };
                    Some((q + 1, m, e))
                } else {
                    None
                }
            },
            None => None,
        }
    } else {
        None
    }
}

fn decl_kw_end(v: &Vec<char>, i: usize) -> (r: Option<usize>)
    requires
        i <= v@.len(),
    ensures
        match r {
            Some(d) => Some(d as int) == spec_decl_kw_end(v@, i as int) && i < d <= v@.len(),
            None => spec_decl_kw_end(v@, i as int) is None,
        },
{
    proof {
        reveal_strlit("const");
        reveal_strlit("let");
        reveal_strlit("var");
    }
    let n = v.len();
    if lit_at(v, i, "const") && i + 5 < n && ws_char(v[i + 5]) {
        Some(skip_ws(v, i + 5))
    } else if lit_at(v, i, "let") && i + 3 < n && ws_char(v[i + 3]) {
        Some(skip_ws(v, i + 3))
    } else if lit_at(v, i, "var") && i + 3 < n && ws_char(v[i + 3]) {
        Some(skip_ws(v, i + 3))
    } else {
        None
    }
}

fn binder_end(v: &Vec<char>, d: usize) -> (r: Option<usize>)
    requires
        d <= v@.len(),
    ensures
        match r {
            Some(e) => Some(e as int) == spec_binder_end(v@, d as int) && d < e <= v@.len(),
            None => spec_binder_end(v@, d as int) is None,
        },
{
    let n = v.len();
    if d >= n {
        return None;
    }
    if v[d] == '{' {
        match find_char_at(v, '}', d + 1) {
            Some(j) => {
                proof {
                    lemma_find_at_props(v@, '}', d + 1);
                }
                Some(j + 1)
            },
            None => None,
        }
    } else if word_char(v[d]) {
        let e = word_end(v, d + 1);
        proof {
            assert(spec_word_end(v@, d as int) == spec_word_end(v@, d + 1));
        }
        Some(e)
    } else {
        None
    }
}

fn require_quoted(v: &Vec<char>, x: usize) -> (r: Option<(usize, usize, usize)>)
    requires
        x <= v@.len(),
    ensures
        match r {
            Some((a, b, e)) => a <= b <= v@.len() && x < e <= v@.len() && spec_require_quoted(
                v@,
                x as int,
            ) == Some((v@.subrange(a as int, b as int), e as int)),
            None => spec_require_quoted(v@, x as int) is None,
        },
{
    let n = v.len();
    if x < n && (v[x] == '\'' || v[x] == '"') {
        match find_quote(v, x + 1) {
            Some(m) => {
                let line_ok = match find_char_at(v, '\n', x + 1) {
                    Some(w) => w >= m,
                    None => true,
                };
                if m > x + 1 && line_ok {
                    let y = skip_ws(v, m + 1);
                    if y < n && v[y] == ')' && js_terminator(v, y + 1) {
                        let e = if y + 1 < n && v[y + 1] == ';' {
                            y + 2
                        } else {
                            y + 1
                        };
                        Some((x + 1, m, e))
                    } else {
                        None
                    }
                } else {
                    None
                }
            },
            None => None,
        }
    } else {
        None
    }
}

fn require_at(v: &Vec<char>, i: usize) -> (r: Option<(usize, usize, usize)>)
    requires
        i <= v@.len(),
    ensures
        match r {
            Some((a, b, e)) => a <= b <= v@.len() && i < e <= v@.len() && spec_require_at(
                v@,
                i as int,
            ) == Some((v@.subrange(a as int, b as int), e as int)),
            None => spec_require_at(v@, i as int) is None,
        },
{
    proof {
        reveal_strlit("require");
    }
    let n = v.len();
    match decl_kw_end(v, i) {
        None => None,
        Some(d) => match binder_end(v, d) {
            None => None,
            Some(e) => {
                let t = skip_ws(v, e);
                if t < n && v[t] == '=' {
                    let u = skip_ws(v, t + 1);
                    if lit_at(v, u, "require") {
                        let w = skip_ws(v, u + 7);
                        if w < n && v[w] == '(' {
                            let x = skip_ws(v, w + 1);
                            require_quoted(v, x)
                        } else {
                            None
                        }
                    } else {
                        None
                    }
                } else {
                    None
                }
            },
        },
    }
}

fn import_at(v: &Vec<char>, p: usize) -> (r: Option<(usize, usize, usize)>)
    requires
        p <= v@.len(),
    ensures
        match r {
            Some((a, b, e)) => a <= b <= v@.len() && p < e <= v@.len() && spec_import_at(
                v@,
                p as int,
            ) == Some((v@.subrange(a as int, b as int), e as int)),
            None => spec_import_at(v@, p as int) is None,
        },
{
    proof {
        reveal_strlit("import");
    }
    let n = v.len();
    let i = skip_blanks(v, p);
    if lit_at(v, i, "import") && i + 6 < n && ws_char(v[i + 6]) {
        let j = skip_ws(v, i + 6);
        let q = match clause_list_end(v, j) {
            Some(e) => match from_part(v, e) {
                Some(q0) => q0,
                None => j,
            },
            None => j,
        };
        quoted_module(v, q)
    } else {
        require_at(v, i)
    }
}

// ---------------------------------------------------------------------
// The balanced-brace body scan and the keyword-count complexity proxy.
// ---------------------------------------------------------------------

/// The body a balanced-brace scan extracts from the text following the
/// opening brace at `e`: whole lines, each re-terminated by `'\n'`, up
/// to and including the first line on which the running brace count
/// returns to zero.  The count starts at one, for the already-consumed
/// opening brace.
pub open spec fn spec_js_body(s: Seq<char>, e: int) -> Seq<char> {
    let lines = spec_lines_from(s, e);
    spec_concat_nl(lines.subrange(0, spec_take_balanced(lines, 1)))
}

/// The body characters and the number of lines the scan took.
fn body_chars(v: &Vec<char>, start: usize) -> (r: (Vec<char>, usize))
    requires
        start <= v@.len(),
    ensures
        r.0@ == spec_js_body(v@, start as int),
        r.1 as int == spec_take_balanced(spec_lines_from(v@, start as int), 1),
{
    let ranges = line_ranges(v, start);
    let ghost lines = spec_lines_from(v@, start as int);
    let n = ranges.len();
    let mut body: Vec<char> = Vec::new();
    let mut depth: i128 = 1;
    let mut k: usize = 0;
    let mut stop: bool = false;
    proof {
        lemma_take_balanced_bounds(lines, 1);
        assert(lines.subrange(0, 0) =~= Seq::<Seq<char>>::empty());
        assert(lines.skip(0) =~= lines);
    }
    while k < n && !stop
        invariant
            k <= n == ranges@.len(),
            n == lines.len(),
            start <= v@.len(),
            lines == spec_lines_from(v@, start as int),
            forall|t: int|
                0 <= t < n ==> start <= #[trigger] ranges@[t].start <= ranges@[t].end <= v@.len()
                    && lines[t] == v@.subrange(ranges@[t].start as int, ranges@[t].end as int),
            forall|t: int|
                0 <= t && t + 1 < n ==> (#[trigger] ranges@[t].end) < ranges@[t + 1].start,
            body@ == spec_concat_nl(lines.subrange(0, k as int)),
            !stop ==> spec_take_balanced(lines, 1) == k + spec_take_balanced(
                lines.skip(k as int),
                depth as int,
            ),
            stop ==> spec_take_balanced(lines, 1) == k,
            !stop && k == 0 ==> depth == 1,
            !stop && k > 0 ==> -(ranges@[k - 1].end as int) <= depth as int <= 1 + ranges@[k
                - 1].end as int,
        decreases n - k,
    {
        let a = ranges[k].start;
        let b = ranges[k].end;
        let opens = count_char_in(v, a, b, '{');
        let closes = count_char_in(v, a, b, '}');
        let ghost body0 = body@;
        let mut t: usize = a;
        while t < b
            invariant
                a <= t <= b <= v@.len(),
                body@ == body0 + v@.subrange(a as int, t as int),
            decreases b - t,
        {
            body.push(v[t]);
            t = t + 1;
            proof {
                assert(body@ =~= body0 + v@.subrange(a as int, t as int));
            }
        }
        body.push('\n');
        proof {
            if a == b {
                assert(v@.subrange(a as int, b as int) =~= Seq::<char>::empty());
            }
            assert(lines.subrange(0, k + 1).drop_last() =~= lines.subrange(0, k as int));
            assert(lines.subrange(0, k + 1).last() == lines[k as int]);
            assert(body@ =~= spec_concat_nl(lines.subrange(0, k + 1)));
        }
        let new_depth = depth + opens as i128 - closes as i128;
        proof {
            assert(lines.skip(k as int)[0] == lines[k as int]);
            assert(lines.skip(k as int).drop_first() =~= lines.skip(k + 1));
            assert(spec_brace_delta(lines[k as int]) == opens - closes);
        }
        if new_depth == 0 {
            stop = true;
        }
        depth = new_depth;
        k = k + 1;
    }
    proof {
        if !stop {
            assert(lines.skip(n as int) =~= Seq::<Seq<char>>::empty());
        }
        assert(spec_take_balanced(lines, 1) == k as int);
    }
    (body, k)
}

// ---------------------------------------------------------------------
// Declaration prefixes and the function-head grammar.
// ---------------------------------------------------------------------

/// Past an optional `export` modifier followed by whitespace.
pub open spec fn spec_export_prefix_end(s: Seq<char>, i: int) -> int {
    if spec_lit_at(s, i, "export"@) && i + 6 < s.len() && is_ws_char(s[i + 6]) {
        spec_skip_ws(s, i + 6)
    } else {
        i
    }
}

/// Past an optional `async` modifier followed by whitespace.
pub open spec fn spec_async_prefix_end(s: Seq<char>, i: int) -> int {
    if spec_lit_at(s, i, "async"@) && i + 5 < s.len() && is_ws_char(s[i + 5]) {
        spec_skip_ws(s, i + 5)
    } else {
        i
    }
}

/// A named function declaration at the line starting at `p`: optional
/// `export` and `async` modifiers, `function`, a name, a same-line
/// parameter list, an optional `: type` annotation, and the opening
/// brace.  The result carries name, parameters, return annotation (empty
/// when absent) and the position just after the opening brace.
pub open spec fn spec_js_fun_at(s: Seq<char>, p: int) -> Option<
    (Seq<char>, Seq<char>, Seq<char>, int),
> {
    let i = spec_async_prefix_end(s, spec_export_prefix_end(s, spec_skip_blanks(s, p)));
    if spec_lit_at(s, i, "function"@) && i + 8 < s.len() && is_ws_char(s[i + 8]) {
        let n0 = spec_skip_ws(s, i + 8);
        let n1 = spec_word_end(s, n0);
        let p0 = spec_skip_ws(s, n1);
        if n1 > n0 && 0 <= p0 < s.len() && s[p0] == '(' {
            match spec_find_at(s, ')', p0 + 1) {
                Some(pe) => if (match spec_find_at(s, '\n', p0 + 1) {
                    Some(w) => w >= pe,
                    None => true,
                }) {
                    spec_js_head_tail(s, s.subrange(n0, n1), s.subrange(p0 + 1, pe), pe + 1)
                } else {
                    None
                },
                None => None,
            }
        } else {
            None
        }
    } else {
        None
    }
}

/// After the parameter list of a named declaration: an optional
/// `: type` annotation running to the opening brace, or the brace
/// itself.
pub open spec fn spec_js_head_tail(s: Seq<char>, name: Seq<char>, params: Seq<char>, q: int)
    -> Option<(Seq<char>, Seq<char>, Seq<char>, int)> {
    let t = spec_skip_ws(s, q);
    if 0 <= t < s.len() && s[t] == ':' {
        let u = spec_skip_ws(s, t + 1);
        match spec_find_at(s, '{', u) {
            Some(w) => if w > u {
                Some((name, params, s.subrange(u, w), w + 1))
            } else {
                None
            },
            None => None,
        }
    } else if 0 <= t < s.len() && s[t] == '{' {
        Some((name, params, Seq::empty(), t + 1))
    } else {
        None
    }
}

/// An arrow-function assignment at the line starting at `p`: optional
/// `export`, a `const`/`let`/`var` binder, `=`, optional `async`, a
/// same-line parameter list, an optional `: type` annotation, and `=>`.
pub open spec fn spec_js_arrow_at(s: Seq<char>, p: int) -> Option<
    (Seq<char>, Seq<char>, Seq<char>, int),
> {
    let i = spec_export_prefix_end(s, spec_skip_blanks(s, p));
    match spec_decl_kw_end(s, i) {
        None => None,
        Some(n0) => {
            let n1 = spec_word_end(s, n0);
            let t = spec_skip_ws(s, n1);
            if n1 > n0 && 0 <= t < s.len() && s[t] == '=' {
                let a = spec_async_prefix_end(s, spec_skip_ws(s, t + 1));
                if 0 <= a < s.len() && s[a] == '(' {
                    match spec_find_at(s, ')', a + 1) {
                        Some(pe) => if (match spec_find_at(s, '\n', a + 1) {
                            Some(w) => w >= pe,
                            None => true,
                        }) {
                            spec_js_arrow_tail(
                                s,
                                s.subrange(n0, n1),
                                s.subrange(a + 1, pe),
                                pe + 1,
                            )
                        } else {
                            None
                        },
                        None => None,
                    }
                } else {
                    None
                }
            } else {
                None
            }
        },
    }
}

/// After the parameter list of an arrow assignment: an optional
/// `: type` annotation running to the arrow, or the arrow itself.
pub open spec fn spec_js_arrow_tail(s: Seq<char>, name: Seq<char>, params: Seq<char>, q: int)
    -> Option<(Seq<char>, Seq<char>, Seq<char>, int)> {
    let t = spec_skip_ws(s, q);
    if 0 <= t < s.len() && s[t] == ':' {
        let u = spec_skip_ws(s, t + 1);
        match spec_find_at(s, '=', u) {
            Some(w) => if w > u && w + 1 < s.len() && s[w + 1] == '>' {
                Some((name, params, s.subrange(u, w), w + 2))
            } else {
                None
            },
            None => None,
        }
    } else if 0 <= t && t + 1 < s.len() && s[t] == '=' && s[t + 1] == '>' {
        Some((name, params, Seq::empty(), t + 2))
    } else {
        None
    }
}

/// All named-declaration heads of `s`, in line order: one match
/// attempt per line start, except that no attempt is made on a line an
/// earlier head runs into — the scan resumes on the first line after
/// the head's opening brace.
pub open spec fn spec_js_named_heads(s: Seq<char>, p: int) -> Seq<
    (Seq<char>, Seq<char>, Seq<char>, int),
>
    decreases s.len() - p,
{
    if p < 0 || p >= s.len() {
        Seq::empty()
    } else {
        match spec_js_fun_at(s, p) {
            Some(h) => {
                let next = spec_next_line(s, h.3);
                if p < next <= s.len() {
                    seq![h] + spec_js_named_heads(s, next)
                } else {
                    seq![h]
                }
            },
            None => {
                let next = spec_next_line(s, p);
                if p < next <= s.len() {
                    spec_js_named_heads(s, next)
                } else {
                    Seq::empty()
                }
            },
        }
    }
}

/// All arrow-assignment heads of `s`, in line order: one match attempt
/// per line start, except that no attempt is made on a line an earlier
/// head runs into — the scan resumes on the first line after the arrow.
pub open spec fn spec_js_arrow_heads(s: Seq<char>, p: int) -> Seq<
    (Seq<char>, Seq<char>, Seq<char>, int),
>
    decreases s.len() - p,
{
    if p < 0 || p >= s.len() {
        Seq::empty()
    } else {
        match spec_js_arrow_at(s, p) {
            Some(h) => {
                let next = spec_next_line(s, h.3);
                if p < next <= s.len() {
                    seq![h] + spec_js_arrow_heads(s, next)
                } else {
                    seq![h]
                }
            },
            None => {
                let next = spec_next_line(s, p);
                if p < next <= s.len() {
                    spec_js_arrow_heads(s, next)
                } else {
                    Seq::empty()
                }
            },
        }
    }
}

/// The keyword and operator alternatives of the complexity proxy.
pub open spec fn spec_js_keywords() -> Seq<Seq<char>> {
    seq![
        "if"@,
        "else"@,
        "for"@,
        "while"@,
        "do"@,
        "switch"@,
        "case"@,
        "catch"@,
        "&&"@,
        "||"@,
    ]
}

fn js_keywords() -> (r: Vec<Vec<char>>)
    ensures
        r@.map_values(|k: Vec<char>| k@) =~= spec_js_keywords(),
        forall|j: int| 0 <= j < r@.len() ==> (#[trigger] r@[j])@.len() >= 1,
{
    proof {
        reveal_strlit("if");
        reveal_strlit("else");
        reveal_strlit("for");
        reveal_strlit("while");
        reveal_strlit("do");
        reveal_strlit("switch");
        reveal_strlit("case");
        reveal_strlit("catch");
        reveal_strlit("&&");
        reveal_strlit("||");
    }
    let mut r: Vec<Vec<char>> = Vec::new();
    r.push(chars_of("if"));
    r.push(chars_of("else"));
    r.push(chars_of("for"));
    r.push(chars_of("while"));
    r.push(chars_of("do"));
    r.push(chars_of("switch"));
    r.push(chars_of("case"));
    r.push(chars_of("catch"));
    r.push(chars_of("&&"));
    r.push(chars_of("||"));
    r
}

/// The complexity proxy of a brace-delimited body: the baseline path,
/// plus one per word-bounded control-flow keyword and one per
/// short-circuit operator occurrence, stopping at the largest
/// representable count.
pub open spec fn spec_js_cc(s: Seq<char>) -> int {
    let c = 1 + spec_count_keywords(s, spec_js_keywords(), 0);
    if c <= usize::MAX {
        c
    } else {
        usize::MAX as int
    }
}

// ---------------------------------------------------------------------
// Executable twins of the head grammar.
// ---------------------------------------------------------------------

struct JsHead {
    n0: usize,
    n1: usize,
    ps: usize,
    pe: usize,
    rs: usize,
    re: usize,
    end: usize,
}

impl JsHead {
    spec fn wf(&self, s: Seq<char>) -> bool {
        self.n0 <= self.n1 <= s.len() && self.ps <= self.pe <= s.len() && self.rs <= self.re
            <= s.len() && self.end <= s.len()
    }

    spec fn as_tuple(&self, s: Seq<char>) -> (Seq<char>, Seq<char>, Seq<char>, int) {
        (
            s.subrange(self.n0 as int, self.n1 as int),
            s.subrange(self.ps as int, self.pe as int),
            s.subrange(self.rs as int, self.re as int),
            self.end as int,
        )
    }
}

fn export_prefix_end(v: &Vec<char>, i: usize) -> (r: usize)
    requires
        i <= v@.len(),
    ensures
        r as int == spec_export_prefix_end(v@, i as int),
        i <= r <= v@.len(),
{
    proof {
        reveal_strlit("export");
    }
    let n = v.len();
    if lit_at(v, i, "export") && i + 6 < n && ws_char(v[i + 6]) {
        skip_ws(v, i + 6)
    } else {
        i
    }
}

fn async_prefix_end(v: &Vec<char>, i: usize) -> (r: usize)
    requires
        i <= v@.len(),
    ensures
        r as int == spec_async_prefix_end(v@, i as int),
        i <= r <= v@.len(),
{
    proof {
        reveal_strlit("async");
    }
    let n = v.len();
    if lit_at(v, i, "async") && i + 5 < n && ws_char(v[i + 5]) {
        skip_ws(v, i + 5)
    } else {
        i
    }
}

fn js_fun_at(v: &Vec<char>, p: usize) -> (r: Option<JsHead>)
    requires
        p <= v@.len(),
    ensures
        match r {
            Some(h) => h.wf(v@) && p < h.end && spec_js_fun_at(v@, p as int) == Some(
                h.as_tuple(v@),
            ),
            None => spec_js_fun_at(v@, p as int) is None,
        },
{
    proof {
        reveal_strlit("function");
    }
    let n = v.len();
    let i0 = skip_blanks(v, p);
    let i1 = export_prefix_end(v, i0);
    let i = async_prefix_end(v, i1);
    if lit_at(v, i, "function") && i + 8 < n && ws_char(v[i + 8]) {
        let n0 = skip_ws(v, i + 8);
        let n1 = word_end(v, n0);
        let p0 = skip_ws(v, n1);
        if n1 > n0 && p0 < n && v[p0] == '(' {
            match find_char_at(v, ')', p0 + 1) {
                Some(pe) => {
                    proof {
                        lemma_find_at_props(v@, ')', p0 + 1);
                    }
                    let line_ok = match find_char_at(v, '\n', p0 + 1) {
                        Some(w) => w >= pe,
                        None => true,
                    };
                    if line_ok {
                        js_head_tail(v, n0, n1, p0 + 1, pe, pe + 1)
                    } else {
                        None
                    }
                },
                None => None,
            }
        } else {
            None
        }
    } else {
        None
    }
}

fn js_head_tail(v: &Vec<char>, n0: usize, n1: usize, ps: usize, pe: usize, q: usize) -> (r:
    Option<JsHead>)
    requires
        n0 <= n1 <= v@.len(),
        ps <= pe <= v@.len(),
        q <= v@.len(),
    ensures
        match r {
            Some(h) => h.wf(v@) && h.end > q && spec_js_head_tail(
                v@,
                v@.subrange(n0 as int, n1 as int),
                v@.subrange(ps as int, pe as int),
                q as int,
            ) == Some(h.as_tuple(v@)) && h.n0 == n0 && h.n1 == n1 && h.ps == ps && h.pe == pe,
            None => spec_js_head_tail(
                v@,
                v@.subrange(n0 as int, n1 as int),
                v@.subrange(ps as int, pe as int),
                q as int,
            ) is None,
        },
{
    let n = v.len();
    let t = skip_ws(v, q);
    if t < n && v[t] == ':' {
        let u = skip_ws(v, t + 1);
        match find_char_at(v, '{', u) {
            Some(w) => {
                proof {
                    lemma_find_at_props(v@, '{', u as int);
                }
                if w > u {
                    Some(JsHead { n0, n1, ps, pe, rs: u, re: w, end: w + 1 })
                } else {
                    None
                }
            },
            None => None,
        }
    } else if t < n && v[t] == '{' {
        proof {
            assert(v@.subrange(t as int, t as int) =~= Seq::<char>::empty());
        }
        Some(JsHead { n0, n1, ps, pe, rs: t, re: t, end: t + 1 })
    } else {
        None
    }
}

fn js_arrow_at(v: &Vec<char>, p: usize) -> (r: Option<JsHead>)
    requires
        p <= v@.len(),
    ensures
        match r {
            Some(h) => h.wf(v@) && p < h.end && spec_js_arrow_at(v@, p as int) == Some(
                h.as_tuple(v@),
            ),
            None => spec_js_arrow_at(v@, p as int) is None,
        },
{
    let n = v.len();
    let i0 = skip_blanks(v, p);
    let i = export_prefix_end(v, i0);
    match decl_kw_end(v, i) {
        None => None,
        Some(n0) => {
            let n1 = word_end(v, n0);
            let t = skip_ws(v, n1);
            if n1 > n0 && t < n && v[t] == '=' {
                let a = async_prefix_end(v, skip_ws(v, t + 1));
                if a < n && v[a] == '(' {
                    match find_char_at(v, ')', a + 1) {
                        Some(pe) => {
                            proof {
                                lemma_find_at_props(v@, ')', a + 1);
                            }
                            let line_ok = match find_char_at(v, '\n', a + 1) {
                                Some(w) => w >= pe,
                                None => true,
                            };
                            if line_ok {
                                js_arrow_tail(v, n0, n1, a + 1, pe, pe + 1)
                            } else {
                                None
                            }
                        },
                        None => None,
                    }
                } else {
                    None
                }
            } else {
                None
            }
        },
    }
}

fn js_arrow_tail(v: &Vec<char>, n0: usize, n1: usize, ps: usize, pe: usize, q: usize) -> (r:
    Option<JsHead>)
    requires
        n0 <= n1 <= v@.len(),
        ps <= pe <= v@.len(),
        q <= v@.len(),
    ensures
        match r {
            Some(h) => h.wf(v@) && h.end > q && spec_js_arrow_tail(
                v@,
                v@.subrange(n0 as int, n1 as int),
                v@.subrange(ps as int, pe as int),
                q as int,
            ) == Some(h.as_tuple(v@)) && h.n0 == n0 && h.n1 == n1 && h.ps == ps && h.pe == pe,
            None => spec_js_arrow_tail(
                v@,
                v@.subrange(n0 as int, n1 as int),
                v@.subrange(ps as int, pe as int),
                q as int,
            ) is None,
        },
{
    let n = v.len();
    let t = skip_ws(v, q);
    if t < n && v[t] == ':' {
        let u = skip_ws(v, t + 1);
        match find_char_at(v, '=', u) {
            Some(w) => {
                proof {
                    lemma_find_at_props(v@, '=', u as int);
                }
                if w > u && w + 1 < n && v[w + 1] == '>' {
                    Some(JsHead { n0, n1, ps, pe, rs: u, re: w, end: w + 2 })
                } else {
                    None
                }
            },
            None => None,
        }
    } else if t < n && v[t] == '=' && t + 1 < n && v[t + 1] == '>' {
        proof {
            assert(v@.subrange(t as int, t as int) =~= Seq::<char>::empty());
        }
        Some(JsHead { n0, n1, ps, pe, rs: t, re: t, end: t + 2 })
    } else {
        None
    }
}

// ---------------------------------------------------------------------
// Type declarations and exported symbols.
// ---------------------------------------------------------------------

/// A `type` or `interface` declaration at the line starting at `p`,
/// optionally preceded by `export`: the captured name and where the
/// match ends.
pub open spec fn spec_js_type_at(s: Seq<char>, p: int) -> Option<(Seq<char>, int)> {
    let i = spec_export_prefix_end(s, spec_skip_blanks(s, p));
    let n0 = if spec_lit_at(s, i, "type"@) && i + 4 < s.len() && is_ws_char(s[i + 4]) {
        spec_skip_ws(s, i + 4)
    } else if spec_lit_at(s, i, "interface"@) && i + 9 < s.len() && is_ws_char(s[i + 9]) {
        spec_skip_ws(s, i + 9)
    } else {
        -1
    };
    if n0 >= 0 {
        let n1 = spec_word_end(s, n0);
        if n1 > n0 {
            Some((s.subrange(n0, n1), n1))
        } else {
            None
        }
    } else {
        None
    }
}

/// After `export` and whitespace: one of the declaration keywords,
/// followed by mandatory whitespace.
pub open spec fn spec_export_kw_end(s: Seq<char>, j: int) -> Option<int> {
    if spec_lit_at(s, j, "const"@) && j + 5 < s.len() && is_ws_char(s[j + 5]) {
        Some(spec_skip_ws(s, j + 5))
    } else if spec_lit_at(s, j, "let"@) && j + 3 < s.len() && is_ws_char(s[j + 3]) {
        Some(spec_skip_ws(s, j + 3))
    } else if spec_lit_at(s, j, "var"@) && j + 3 < s.len() && is_ws_char(s[j + 3]) {
        Some(spec_skip_ws(s, j + 3))
    } else if spec_lit_at(s, j, "function"@) && j + 8 < s.len() && is_ws_char(s[j + 8]) {
        Some(spec_skip_ws(s, j + 8))
    } else if spec_lit_at(s, j, "class"@) && j + 5 < s.len() && is_ws_char(s[j + 5]) {
        Some(spec_skip_ws(s, j + 5))
    } else if spec_lit_at(s, j, "type"@) && j + 4 < s.len() && is_ws_char(s[j + 4]) {
        Some(spec_skip_ws(s, j + 4))
    } else if spec_lit_at(s, j, "interface"@) && j + 9 < s.len() && is_ws_char(s[j + 9]) {
        Some(spec_skip_ws(s, j + 9))
    } else {
        None
    }
}

/// An exported symbol at the very start of the line at `p`: a leading
/// `export` keyword, a declaration keyword, the captured name, and
/// where the match ends.
pub open spec fn spec_js_export_at(s: Seq<char>, p: int) -> Option<(Seq<char>, int)> {
    if spec_lit_at(s, p, "export"@) && p + 6 < s.len() && is_ws_char(s[p + 6]) {
        match spec_export_kw_end(s, spec_skip_ws(s, p + 6)) {
            Some(n0) => {
                let n1 = spec_word_end(s, n0);
                if n1 > n0 {
                    Some((s.subrange(n0, n1), n1))
                } else {
                    None
                }
            },
            None => None,
        }
    } else {
        None
    }
}

/// All type-declaration names of `s`, in line order; no attempt is
/// made on a line an earlier match runs into.
pub open spec fn spec_js_types_from(s: Seq<char>, p: int) -> Seq<Seq<char>>
    decreases s.len() - p,
{
    if p < 0 || p >= s.len() {
        Seq::empty()
    } else {
        match spec_js_type_at(s, p) {
            Some((cap, e)) => {
                let next = spec_next_line(s, e);
                if p < next <= s.len() {
                    seq![cap] + spec_js_types_from(s, next)
                } else {
                    seq![cap]
                }
            },
            None => {
                let next = spec_next_line(s, p);
                if p < next <= s.len() {
                    spec_js_types_from(s, next)
                } else {
                    Seq::<Seq<char>>::empty()
                }
            },
        }
    }
}

/// All exported-symbol names of `s`, in line order; no attempt is
/// made on a line an earlier match runs into.
pub open spec fn spec_js_exports_from(s: Seq<char>, p: int) -> Seq<Seq<char>>
    decreases s.len() - p,
{
    if p < 0 || p >= s.len() {
        Seq::empty()
    } else {
        match spec_js_export_at(s, p) {
            Some((cap, e)) => {
                let next = spec_next_line(s, e);
                if p < next <= s.len() {
                    seq![cap] + spec_js_exports_from(s, next)
                } else {
                    seq![cap]
                }
            },
            None => {
                let next = spec_next_line(s, p);
                if p < next <= s.len() {
                    spec_js_exports_from(s, next)
                } else {
                    Seq::<Seq<char>>::empty()
                }
            },
        }
    }
}

fn js_type_at(v: &Vec<char>, p: usize) -> (r: Option<(usize, usize)>)
    requires
        p <= v@.len(),
    ensures
        match r {
            Some((a, b)) => a <= b <= v@.len() && p < b && spec_js_type_at(v@, p as int) == Some(
                (v@.subrange(a as int, b as int), b as int),
            ),
            None => spec_js_type_at(v@, p as int) is None,
        },
{
    proof {
        reveal_strlit("type");
        reveal_strlit("interface");
    }
    let n = v.len();
    let i = export_prefix_end(v, skip_blanks(v, p));
    let n0 = if lit_at(v, i, "type") && i + 4 < n && ws_char(v[i + 4]) {
        skip_ws(v, i + 4)
    } else if lit_at(v, i, "interface") && i + 9 < n && ws_char(v[i + 9]) {
        skip_ws(v, i + 9)
    } else {
        return None;
    };
    let n1 = word_end(v, n0);
    if n1 > n0 {
        Some((n0, n1))
    } else {
        None
    }
}

fn export_kw_end(v: &Vec<char>, j: usize) -> (r: Option<usize>)
    requires
        j <= v@.len(),
    ensures
        match r {
            Some(e) => Some(e as int) == spec_export_kw_end(v@, j as int) && j < e <= v@.len(),
            None => spec_export_kw_end(v@, j as int) is None,
        },
{
    proof {
        reveal_strlit("const");
        reveal_strlit("let");
        reveal_strlit("var");
        reveal_strlit("function");
        reveal_strlit("class");
        reveal_strlit("type");
        reveal_strlit("interface");
    }
    let n = v.len();
    if lit_at(v, j, "const") && j + 5 < n && ws_char(v[j + 5]) {
        Some(skip_ws(v, j + 5))
    } else if lit_at(v, j, "let") && j + 3 < n && ws_char(v[j + 3]) {
        Some(skip_ws(v, j + 3))
    } else if lit_at(v, j, "var") && j + 3 < n && ws_char(v[j + 3]) {
        Some(skip_ws(v, j + 3))
    } else if lit_at(v, j, "function") && j + 8 < n && ws_char(v[j + 8]) {
        Some(skip_ws(v, j + 8))
    } else if lit_at(v, j, "class") && j + 5 < n && ws_char(v[j + 5]) {
        Some(skip_ws(v, j + 5))
    } else if lit_at(v, j, "type") && j + 4 < n && ws_char(v[j + 4]) {
        Some(skip_ws(v, j + 4))
    } else if lit_at(v, j, "interface") && j + 9 < n && ws_char(v[j + 9]) {
        Some(skip_ws(v, j + 9))
    } else {
        None
    }
}

fn js_export_at(v: &Vec<char>, p: usize) -> (r: Option<(usize, usize)>)
    requires
        p <= v@.len(),
    ensures
        match r {
            Some((a, b)) => a <= b <= v@.len() && p < b && spec_js_export_at(v@, p as int)
                == Some((v@.subrange(a as int, b as int), b as int)),
            None => spec_js_export_at(v@, p as int) is None,
        },
{
    proof {
        reveal_strlit("export");
    }
    let n = v.len();
    if lit_at(v, p, "export") && p + 6 < n && ws_char(v[p + 6]) {
        match export_kw_end(v, skip_ws(v, p + 6)) {
            Some(n0) => {
                let n1 = word_end(v, n0);
                if n1 > n0 {
                    Some((n0, n1))
                } else {
                    None
                }
            },
            None => None,
        }
    } else {
        None
    }
}

// ---------------------------------------------------------------------
// The public extractors.
// ---------------------------------------------------------------------

/// The rendered signature of an extracted function: both declaration
/// styles are normalised to the same `const name = (params): type => `
/// spelling.
pub open spec fn spec_js_signature(name: Seq<char>, params: Seq<char>, ret: Seq<char>) -> Seq<
    char,
> {
    "const "@ + name + " = ("@ + params + ")"@ + (if ret.len() == 0 {
        Seq::<char>::empty()
    } else {
        ": "@ + ret
    }) + "=> "@
}

/// What one extracted function record holds for the head `h` found in
/// the content `s`.
pub open spec fn spec_js_fun_matches(
    s: Seq<char>,
    h: (Seq<char>, Seq<char>, Seq<char>, int),
    f: FunctionAnalysis,
) -> bool {
    let body = spec_js_body(s, h.3);
    &&& f.name@ == h.0
    &&& f.signature@ == spec_js_signature(h.0, h.1, h.2)
    &&& f.types@ == Seq::<char>::empty()
    &&& match f.body {
        Some(b) => b@ == body,
        None => false,
    }
    &&& f.lines_of_code as int == spec_take_balanced(spec_lines_from(s, h.3), 1)
    &&& f.cyclomatic_complexity as int == spec_js_cc(body)
    &&& f.parameters as int == spec_param_count(h.1, 0)
    &&& f.returns == (h.2.len() > 0)
    &&& f.summary is None
}

impl JavaScriptAnalyzer {
    /// Collects every import of the content, in line order: the module
    /// path of each ES-module import statement or require assignment.
    pub fn extract_imports(content: &str) -> (r: Vec<String>)
        ensures
            r@.map_values(|x: String| x@) =~= spec_imports_from(content@, 0),
    {
        let v = chars_of(content);
        let n = v.len();
        let mut r: Vec<String> = Vec::new();
        let mut p: usize = 0;
        while p < n
            invariant
                p <= n == v@.len(),
                v@ == content@,
                spec_imports_from(v@, 0) =~= r@.map_values(|x: String| x@) + spec_imports_from(
                    v@,
                    p as int,
                ),
            decreases n - p,
        {
            let ghost done = r@.map_values(|x: String| x@);
            let ghost head_seq = match spec_import_at(v@, p as int) {
                Some((c, e)) => seq![c],
                None => Seq::<Seq<char>>::empty(),
            };
            let p2 = match import_at(&v, p) {
                Some((a, b, e)) => {
                    let cap = string_of_range(&v, a, b);
                    r.push(cap);
                    proof {
                        assert(r@.map_values(|x: String| x@) =~= done + head_seq);
                    }
                    next_line(&v, e)
                },
                None => {
                    proof {
                        assert(r@.map_values(|x: String| x@) =~= done + head_seq);
                    }
                    next_line(&v, p)
                },
            };
            proof {
                assert(spec_imports_from(v@, p as int) =~= head_seq + spec_imports_from(
                    v@,
                    p2 as int,
                ));
            }
            p = p2;
        }
        proof {
            assert(spec_imports_from(v@, p as int) =~= Seq::<Seq<char>>::empty());
        }
        r
    }

    /// Collects every `type`/`interface` declaration name, in line
    /// order.
    pub fn extract_types(content: &str) -> (r: Vec<String>)
        ensures
            r@.map_values(|x: String| x@) =~= spec_js_types_from(content@, 0),
    {
        let v = chars_of(content);
        let n = v.len();
        let mut r: Vec<String> = Vec::new();
        let mut p: usize = 0;
        while p < n
            invariant
                p <= n == v@.len(),
                v@ == content@,
                spec_js_types_from(v@, 0) =~= r@.map_values(|x: String| x@) + spec_js_types_from(
                    v@,
                    p as int,
                ),
            decreases n - p,
        {
            let ghost done = r@.map_values(|x: String| x@);
            let ghost head_seq = match spec_js_type_at(v@, p as int) {
                Some((c, e)) => seq![c],
                None => Seq::<Seq<char>>::empty(),
            };
            let p2 = match js_type_at(&v, p) {
                Some((a, b)) => {
                    let cap = string_of_range(&v, a, b);
                    r.push(cap);
                    proof {
                        assert(r@.map_values(|x: String| x@) =~= done + head_seq);
                    }
                    next_line(&v, b)
                },
                None => {
                    proof {
                        assert(r@.map_values(|x: String| x@) =~= done + head_seq);
                    }
                    next_line(&v, p)
                },
            };
            proof {
                assert(spec_js_types_from(v@, p as int) =~= head_seq + spec_js_types_from(
                    v@,
                    p2 as int,
                ));
            }
            p = p2;
        }
        proof {
            assert(spec_js_types_from(v@, p as int) =~= Seq::<Seq<char>>::empty());
        }
        r
    }

    /// Collects every exported symbol name, in line order.
    pub fn extract_exports(content: &str) -> (r: Vec<String>)
        ensures
            r@.map_values(|x: String| x@) =~= spec_js_exports_from(content@, 0),
    {
        let v = chars_of(content);
        let n = v.len();
        let mut r: Vec<String> = Vec::new();
        let mut p: usize = 0;
        while p < n
            invariant
                p <= n == v@.len(),
                v@ == content@,
                spec_js_exports_from(v@, 0) =~= r@.map_values(|x: String| x@)
                    + spec_js_exports_from(v@, p as int),
            decreases n - p,
        {
            let ghost done = r@.map_values(|x: String| x@);
            let ghost head_seq = match spec_js_export_at(v@, p as int) {
                Some((c, e)) => seq![c],
                None => Seq::<Seq<char>>::empty(),
            };
            let p2 = match js_export_at(&v, p) {
                Some((a, b)) => {
                    let cap = string_of_range(&v, a, b);
                    r.push(cap);
                    proof {
                        assert(r@.map_values(|x: String| x@) =~= done + head_seq);
                    }
                    next_line(&v, b)
                },
                None => {
                    proof {
                        assert(r@.map_values(|x: String| x@) =~= done + head_seq);
                    }
                    next_line(&v, p)
                },
            };
            proof {
                assert(spec_js_exports_from(v@, p as int) =~= head_seq + spec_js_exports_from(
                    v@,
                    p2 as int,
                ));
            }
            p = p2;
        }
        proof {
            assert(spec_js_exports_from(v@, p as int) =~= Seq::<Seq<char>>::empty());
        }
        r
    }

    /// The balanced-brace body following the opening brace: whole lines
    /// accumulate, each re-terminated by a newline, until the running
    /// brace count — starting at one for the consumed opening brace —
    /// first returns to zero; that line is included.  The scan does not
    /// understand string or comment literals, by design.
    ///
    /// `start` is the character position just after the opening brace.
    pub fn extract_function_body(content: &str, start: usize) -> (r: String)
        requires
            start <= content@.len(),
        ensures
            r@ == spec_js_body(content@, start as int),
    {
        let v = chars_of(content);
        let (body, _taken) = body_chars(&v, start);
        string_of_chars(&body)
    }

    /// One plus the number of control-flow keyword (word bounded) and
    /// short-circuit operator (substring) occurrences in the body.
    pub fn calculate_cyclomatic_complexity(function_body: &str) -> (r: usize)
        ensures
            r as int == spec_js_cc(function_body@),
            r >= 1,
    {
        let v = chars_of(function_body);
        let kws = js_keywords();
        let c = count_keywords(&v, &kws);
        sat_add(1, c)
    }
}

fn collect_named_heads(v: &Vec<char>) -> (r: Vec<JsHead>)
    ensures
        r@.len() == spec_js_named_heads(v@, 0).len(),
        forall|k: int|
            0 <= k < r@.len() ==> (#[trigger] r@[k]).wf(v@) && r@[k].as_tuple(v@)
                == spec_js_named_heads(v@, 0)[k],
{
    let n = v.len();
    let mut r: Vec<JsHead> = Vec::new();
    let mut p: usize = 0;
    while p < n
        invariant
            p <= n == v@.len(),
            forall|k: int| 0 <= k < r@.len() ==> (#[trigger] r@[k]).wf(v@),
            spec_js_named_heads(v@, 0) =~= r@.map_values(|h: JsHead| h.as_tuple(v@))
                + spec_js_named_heads(v@, p as int),
        decreases n - p,
    {
        let ghost done = r@.map_values(|h: JsHead| h.as_tuple(v@));
        let ghost head_seq = match spec_js_fun_at(v@, p as int) {
            Some(h) => seq![h],
            None => Seq::<(Seq<char>, Seq<char>, Seq<char>, int)>::empty(),
        };
        let p2 = match js_fun_at(v, p) {
            Some(h) => {
                let e = h.end;
                r.push(h);
                proof {
                    assert(r@.map_values(|hh: JsHead| hh.as_tuple(v@)) =~= done + head_seq);
                }
                next_line(v, e)
            },
            None => {
                proof {
                    assert(r@.map_values(|hh: JsHead| hh.as_tuple(v@)) =~= done + head_seq);
                }
                next_line(v, p)
            },
        };
        proof {
            assert(spec_js_named_heads(v@, p as int) =~= head_seq + spec_js_named_heads(
                v@,
                p2 as int,
            ));
        }
        p = p2;
    }
    proof {
        assert(spec_js_named_heads(v@, p as int) =~= Seq::<
            (Seq<char>, Seq<char>, Seq<char>, int),
        >::empty());
        let m = r@.map_values(|h: JsHead| h.as_tuple(v@));
        assert(spec_js_named_heads(v@, 0) =~= m);
        assert forall|k: int| 0 <= k < r@.len() implies r@[k].as_tuple(v@) == spec_js_named_heads(
            v@,
            0,
        )[k] by {
            assert(m[k] == r@[k].as_tuple(v@));
        }
    }
    r
}

fn collect_arrow_heads(v: &Vec<char>) -> (r: Vec<JsHead>)
    ensures
        r@.len() == spec_js_arrow_heads(v@, 0).len(),
        forall|k: int|
            0 <= k < r@.len() ==> (#[trigger] r@[k]).wf(v@) && r@[k].as_tuple(v@)
                == spec_js_arrow_heads(v@, 0)[k],
{
    let n = v.len();
    let mut r: Vec<JsHead> = Vec::new();
    let mut p: usize = 0;
    while p < n
        invariant
            p <= n == v@.len(),
            forall|k: int| 0 <= k < r@.len() ==> (#[trigger] r@[k]).wf(v@),
            spec_js_arrow_heads(v@, 0) =~= r@.map_values(|h: JsHead| h.as_tuple(v@))
                + spec_js_arrow_heads(v@, p as int),
        decreases n - p,
    {
        let ghost done = r@.map_values(|h: JsHead| h.as_tuple(v@));
        let ghost head_seq = match spec_js_arrow_at(v@, p as int) {
            Some(h) => seq![h],
            None => Seq::<(Seq<char>, Seq<char>, Seq<char>, int)>::empty(),
        };
        let p2 = match js_arrow_at(v, p) {
            Some(h) => {
                let e = h.end;
                r.push(h);
                proof {
                    assert(r@.map_values(|hh: JsHead| hh.as_tuple(v@)) =~= done + head_seq);
                }
                next_line(v, e)
            },
            None => {
                proof {
                    assert(r@.map_values(|hh: JsHead| hh.as_tuple(v@)) =~= done + head_seq);
                }
                next_line(v, p)
            },
        };
        proof {
            assert(spec_js_arrow_heads(v@, p as int) =~= head_seq + spec_js_arrow_heads(
                v@,
                p2 as int,
            ));
        }
        p = p2;
    }
    proof {
        assert(spec_js_arrow_heads(v@, p as int) =~= Seq::<
            (Seq<char>, Seq<char>, Seq<char>, int),
        >::empty());
        let m = r@.map_values(|h: JsHead| h.as_tuple(v@));
        assert(spec_js_arrow_heads(v@, 0) =~= m);
        assert forall|k: int| 0 <= k < r@.len() implies r@[k].as_tuple(v@) == spec_js_arrow_heads(
            v@,
            0,
        )[k] by {
            assert(m[k] == r@[k].as_tuple(v@));
        }
    }
    r
}

/// Builds the per-function record for one recognised head.
fn build_fun(v: &Vec<char>, h: &JsHead) -> (f: FunctionAnalysis)
    requires
        h.wf(v@),
    ensures
        spec_js_fun_matches(v@, h.as_tuple(v@), f),
        f.wf(),
{
    let name = string_of_range(v, h.n0, h.n1);
    let params = string_of_range(v, h.ps, h.pe);
    let ret = string_of_range(v, h.rs, h.re);
    let mut signature = String::new();
    signature.append("const ");
    signature.append(name.as_str());
    signature.append(" = (");
    signature.append(params.as_str());
    signature.append(")");
    if h.re > h.rs {
        signature.append(": ");
        signature.append(ret.as_str());
    }
    signature.append("=> ");
    proof {
        assert(signature@ =~= spec_js_signature(
            v@.subrange(h.n0 as int, h.n1 as int),
            v@.subrange(h.ps as int, h.pe as int),
            v@.subrange(h.rs as int, h.re as int),
        ));
    }
    let (body_vec, taken) = body_chars(v, h.end);
    let kws = js_keywords();
    let count = count_keywords(&body_vec, &kws);
    let cyclomatic_complexity = sat_add(1, count);
    proof {
        lemma_count_keywords_nonneg(body_vec@, spec_js_keywords(), 0);
    }
    let parameters = param_count_in(v, h.ps, h.pe);
    let body = string_of_chars(&body_vec);
    FunctionAnalysis {
        name,
        signature,
        types: String::new(),
        body: Some(body),
        lines_of_code: taken,
        cyclomatic_complexity,
        parameters,
        returns: h.re > h.rs,
        summary: None,
    }
}

impl JavaScriptAnalyzer {
    /// Extracts every function the two head patterns recognise: all
    /// named declarations first, then all arrow assignments, each with
    /// its normalised signature, balanced-brace body and metrics.
    pub fn extract_functions(content: &str) -> (r: Vec<FunctionAnalysis>)
        ensures
            ({
                let heads = spec_js_named_heads(content@, 0) + spec_js_arrow_heads(content@, 0);
                &&& r@.len() == heads.len()
                &&& forall|k: int|
                    0 <= k < heads.len() ==> spec_js_fun_matches(
                        content@,
                        heads[k],
                        #[trigger] r@[k],
                    )
            }),
    {
        let v = chars_of(content);
        let ghost heads = spec_js_named_heads(v@, 0) + spec_js_arrow_heads(v@, 0);
        let named = collect_named_heads(&v);
        let arrows = collect_arrow_heads(&v);
        let mut r: Vec<FunctionAnalysis> = Vec::new();
        let nn = named.len();
        let mut k: usize = 0;
        while k < nn
            invariant
                k <= nn == named@.len(),
                heads == spec_js_named_heads(v@, 0) + spec_js_arrow_heads(v@, 0),
                v@ == content@,
                named@.len() == spec_js_named_heads(v@, 0).len(),
                forall|t: int|
                    0 <= t < named@.len() ==> (#[trigger] named@[t]).wf(v@) && named@[t].as_tuple(
                        v@,
                    ) == spec_js_named_heads(v@, 0)[t],
                r@.len() == k,
                forall|t: int|
                    0 <= t < k ==> spec_js_fun_matches(v@, heads[t], #[trigger] r@[t]),
            decreases nn - k,
        {
            proof {
                assert(heads[k as int] == spec_js_named_heads(v@, 0)[k as int]);
            }
            let f = build_fun(&v, &named[k]);
            r.push(f);
            k = k + 1;
        }
        let na = arrows.len();
        let mut t2: usize = 0;
        while t2 < na
            invariant
                t2 <= na == arrows@.len(),
                heads == spec_js_named_heads(v@, 0) + spec_js_arrow_heads(v@, 0),
                v@ == content@,
                nn == named@.len() == spec_js_named_heads(v@, 0).len(),
                arrows@.len() == spec_js_arrow_heads(v@, 0).len(),
                forall|t: int|
                    0 <= t < arrows@.len() ==> (#[trigger] arrows@[t]).wf(v@)
                        && arrows@[t].as_tuple(v@) == spec_js_arrow_heads(v@, 0)[t],
                r@.len() == nn + t2,
                forall|t: int|
                    0 <= t < r@.len() ==> spec_js_fun_matches(v@, heads[t], #[trigger] r@[t]),
            decreases na - t2,
        {
            proof {
                assert(heads[nn + t2] == spec_js_arrow_heads(v@, 0)[t2 as int]);
            }
            let f = build_fun(&v, &arrows[t2]);
            r.push(f);
            t2 = t2 + 1;
        }
        r
    }
}

/// What the analyzer's full record holds for the content `s`.
pub open spec fn spec_js_analysis(s: Seq<char>, a: CodeAnalysis) -> bool {
    let heads = spec_js_named_heads(s, 0) + spec_js_arrow_heads(s, 0);
    &&& a.imports@.map_values(|x: String| x@) == spec_imports_from(s, 0)
    &&& a.functions@.len() == heads.len()
    &&& forall|k: int|
        0 <= k < heads.len() ==> spec_js_fun_matches(s, heads[k], #[trigger] a.functions@[k])
    &&& a.types@.map_values(|x: String| x@) == spec_js_types_from(s, 0)
    &&& a.exports@.map_values(|x: String| x@) == spec_js_exports_from(s, 0)
}

impl LanguageAnalyzer for JavaScriptAnalyzer {
    open spec fn applies_spec(&self, path: Seq<char>) -> bool {
        spec_ends_with(path, ".js"@) || spec_ends_with(path, ".ts"@)
    }

    /// Applies to `.js` and `.ts` files.
    fn can_analyze(&self, file_path: &str) -> (r: bool) {
        str_ends_with(file_path, ".js") || str_ends_with(file_path, ".ts")
    }

    /// Pattern-based extraction never fails: absent patterns simply
    /// yield empty lists.
    fn analyze(&self, content: &str) -> (r: Result<CodeAnalysis, FolderSummaryError>)
        ensures
            match r {
                Ok(a) => spec_js_analysis(content@, a),
                Err(_) => false,
            },
    {
        let a = CodeAnalysis {
            imports: JavaScriptAnalyzer::extract_imports(content),
            functions: JavaScriptAnalyzer::extract_functions(content),
            types: JavaScriptAnalyzer::extract_types(content),
            exports: JavaScriptAnalyzer::extract_exports(content),
        };
        proof {
            let heads = spec_js_named_heads(content@, 0) + spec_js_arrow_heads(content@, 0);
            assert forall|k: int| 0 <= k < a.functions@.len() implies (
            #[trigger] a.functions@[k]).wf() by {
                assert(spec_js_fun_matches(content@, heads[k], a.functions@[k]));
                lemma_count_keywords_nonneg(spec_js_body(content@, heads[k].3), spec_js_keywords(), 0);
            }
        }
        Ok(a)
    }
}

} // verus!
