//! The dynamic-language analyzer: pattern-based extraction for
//! indentation-delimited sources.
//!
//! Imports are `import X` and `from X import Y` lines, rendered as
//! `Y from X` when a source module is present.  Function heads are
//! `def name(params) -> type:` lines; the body is every following line
//! at least as indented as the block's first line, up to the first
//! blank or less-indented line.  Classes are the declared types; the
//! language has no explicit export keyword, so export extraction
//! yields nothing.

use vstd::prelude::*;

use crate::analyzer::{CodeAnalysis, LanguageAnalyzer};
use crate::error::FolderSummaryError;
use crate::static_analysis::{sat_add, FunctionAnalysis};
use crate::text::{
    chars_of, count_keywords, find_char_at, is_blank, is_ws_char, lemma_count_keywords_nonneg,
    lemma_find_at_props, line_ranges, lit_at, nonws_end, param_count_in, range_is_blank,
    next_line, range_starts_with, skip_blanks, skip_ws, spec_count_keywords, spec_ends_with,
    spec_find_at, spec_join_nl, spec_lines_from, spec_lit_at, spec_next_line, spec_nonws_end,
    spec_param_count, spec_skip_blanks, spec_skip_ws, spec_starts_with, spec_word_end,
    str_ends_with, string_of_chars, string_of_range, word_end, ws_char,
};

verus! {

/// The analyzer for indentation-delimited, dynamically typed sources.
pub struct PythonAnalyzer;

// ---------------------------------------------------------------------
// The import grammar.
// ---------------------------------------------------------------------

/// The position where the raw capture of an import line ends: the line
/// end, terminator characters excluded from nothing — a trailing
/// carriage return stays part of the capture.
pub open spec fn spec_line_end_raw(s: Seq<char>, c: int) -> int {
    match spec_find_at(s, '\n', c) {
        Some(j) => j,
        None => s.len() as int,
    }
}

/// An import recognised at the very start of the line at `p`, already
/// rendered: `Y from X` for a `from X import Y` line, the raw imported
/// names otherwise.  The second component is where the match ends: the
/// end of the line the capture runs to.
pub open spec fn spec_py_import_at(s: Seq<char>, p: int) -> Option<(Seq<char>, int)> {
    if spec_lit_at(s, p, "from"@) && p + 4 < s.len() && is_ws_char(s[p + 4]) {
        let a = spec_skip_ws(s, p + 4);
        let me = spec_nonws_end(s, a);
        if me > a && me < s.len() && is_ws_char(s[me]) {
            let b = spec_skip_ws(s, me);
            if spec_lit_at(s, b, "import"@) && b + 6 < s.len() && is_ws_char(s[b + 6]) {
                let c = spec_skip_ws(s, b + 6);
                let e = spec_line_end_raw(s, c);
                if c < e <= s.len() {
                    Some((s.subrange(c, e) + " from "@ + s.subrange(a, me), e))
                } else {
                    spec_py_plain_import_at(s, p)
                }
            } else {
                spec_py_plain_import_at(s, p)
            }
        } else {
            spec_py_plain_import_at(s, p)
        }
    } else {
        spec_py_plain_import_at(s, p)
    }
}

/// A plain `import X` line at `p`: the raw capture after the keyword,
/// and the end of the line it runs to.
pub open spec fn spec_py_plain_import_at(s: Seq<char>, p: int) -> Option<(Seq<char>, int)> {
    if spec_lit_at(s, p, "import"@) && p + 6 < s.len() && is_ws_char(s[p + 6]) {
        let c = spec_skip_ws(s, p + 6);
        let e = spec_line_end_raw(s, c);
        if c < e <= s.len() {
            Some((s.subrange(c, e), e))
        } else {
            None
        }
    } else {
        None
    }
}

/// All rendered imports of `s`, in line order: one match attempt per
/// line start, except that no attempt is made on a line an earlier
/// match runs into.
pub open spec fn spec_py_imports_from(s: Seq<char>, p: int) -> Seq<Seq<char>>
    decreases s.len() - p,
{
    if p < 0 || p >= s.len() {
        Seq::empty()
    } else {
        match spec_py_import_at(s, p) {
            Some((cap, e)) => {
                let next = spec_next_line(s, e);
                if p < next <= s.len() {
                    seq![cap] + spec_py_imports_from(s, next)
                } else {
                    seq![cap]
                }
            },
            None => {
                let next = spec_next_line(s, p);
                if p < next <= s.len() {
                    spec_py_imports_from(s, next)
                } else {
                    Seq::<Seq<char>>::empty()
                }
            },
        }
    }
}

// ---------------------------------------------------------------------
// Function heads and the indentation-based body.
// ---------------------------------------------------------------------

/// A `def` header at the line starting at `p`: the name, a same-line
/// parameter list, an optional `-> type` annotation, and the position
/// just after the colon.
pub open spec fn spec_py_def_at(s: Seq<char>, p: int) -> Option<
    (Seq<char>, Seq<char>, Seq<char>, int),
> {
    let i = spec_skip_blanks(s, p);
    if spec_lit_at(s, i, "def"@) && i + 3 < s.len() && is_ws_char(s[i + 3]) {
        let n0 = spec_skip_ws(s, i + 3);
        let n1 = spec_word_end(s, n0);
        let p0 = spec_skip_ws(s, n1);
        if n1 > n0 && 0 <= p0 < s.len() && s[p0] == '(' {
            match spec_find_at(s, ')', p0 + 1) {
                Some(pe) => if (match spec_find_at(s, '\n', p0 + 1) {
                    Some(w) => w >= pe,
                    None => true,
                }) {
                    spec_py_def_tail(s, s.subrange(n0, n1), s.subrange(p0 + 1, pe), pe + 1)
                } else {
                    None
                },
                None => None,
            }
        } else {
            None
        }
    } else {
        None
    }
}

/// After the parameter list: an optional `-> type` annotation running
/// to the colon, or the colon itself.
pub open spec fn spec_py_def_tail(s: Seq<char>, name: Seq<char>, params: Seq<char>, q: int)
    -> Option<(Seq<char>, Seq<char>, Seq<char>, int)> {
    let t = spec_skip_ws(s, q);
    if 0 <= t < s.len() && s[t] == '-' && t + 1 < s.len() && s[t + 1] == '>' {
        let u = spec_skip_ws(s, t + 2);
        match spec_find_at(s, ':', u) {
            Some(w) => if w > u {
                Some((name, params, s.subrange(u, w), w + 1))
            } else {
                None
            },
            None => None,
        }
    } else if 0 <= t < s.len() && s[t] == ':' {
        Some((name, params, Seq::empty(), t + 1))
    } else {
        None
    }
}

/// All def heads of `s`, in line order: one match attempt per line
/// start, except that no attempt is made on a line an earlier head
/// runs into — the scan resumes on the first line after the colon.
pub open spec fn spec_py_heads(s: Seq<char>, p: int) -> Seq<(Seq<char>, Seq<char>, Seq<char>, int)>
    decreases s.len() - p,
{
    if p < 0 || p >= s.len() {
        Seq::empty()
    } else {
        match spec_py_def_at(s, p) {
            Some(h) => {
                let next = spec_next_line(s, h.3);
                if p < next <= s.len() {
                    seq![h] + spec_py_heads(s, next)
                } else {
                    seq![h]
                }
            },
            None => {
                let next = spec_next_line(s, p);
                if p < next <= s.len() {
                    spec_py_heads(s, next)
                } else {
                    Seq::<(Seq<char>, Seq<char>, Seq<char>, int)>::empty()
                }
            },
        }
    }
}

/// How many leading blank lines the body scan skips.
pub open spec fn spec_skip_blank_lines(lines: Seq<Seq<char>>) -> int
    decreases lines.len(),
{
    if lines.len() == 0 {
        0
    } else if is_blank(lines[0]) {
        1 + spec_skip_blank_lines(lines.drop_first())
    } else {
        0
    }
}

pub proof fn lemma_skip_blank_lines_bounds(lines: Seq<Seq<char>>)
    ensures
        0 <= spec_skip_blank_lines(lines) <= lines.len(),
    decreases lines.len(),
{
    if lines.len() > 0 && is_blank(lines[0]) {
        lemma_skip_blank_lines_bounds(lines.drop_first());
    }
}

/// How many lines belong to the body: non-blank lines starting with
/// the block's established indentation.
pub open spec fn spec_py_take(lines: Seq<Seq<char>>, indent: Seq<char>) -> int
    decreases lines.len(),
{
    if lines.len() == 0 {
        0
    } else if spec_starts_with(lines[0], indent) && !is_blank(lines[0]) {
        1 + spec_py_take(lines.drop_first(), indent)
    } else {
        0
    }
}

pub proof fn lemma_py_take_bounds(lines: Seq<Seq<char>>, indent: Seq<char>)
    ensures
        0 <= spec_py_take(lines, indent) <= lines.len(),
    decreases lines.len(),
{
    if lines.len() > 0 && spec_starts_with(lines[0], indent) && !is_blank(lines[0]) {
        lemma_py_take_bounds(lines.drop_first(), indent);
    }
}

/// The leading spaces and tabs of a line.
pub open spec fn spec_established_indent(line: Seq<char>) -> Seq<char> {
    line.subrange(0, spec_skip_blanks(line, 0))
}

/// The indentation-based body following the header that ends at `e`:
/// leading blank lines are skipped; the first non-blank line
/// establishes the block's indentation, and lines accumulate while
/// non-blank and at least as indented — starting with that prefix; the
/// first blank or less-indented line ends the body.  The kept lines
/// are joined by newlines, with no trailing terminator.
pub open spec fn spec_py_body(s: Seq<char>, e: int) -> Seq<char> {
    let lines = spec_lines_from(s, e);
    let sk = spec_skip_blank_lines(lines);
    if 0 <= sk < lines.len() {
        let ind = spec_established_indent(lines[sk]);
        spec_join_nl(lines.subrange(sk, sk + spec_py_take(lines.skip(sk), ind)))
    } else {
        Seq::empty()
    }
}

/// The number of lines the body scan keeps.
pub open spec fn spec_py_body_count(s: Seq<char>, e: int) -> int {
    let lines = spec_lines_from(s, e);
    let sk = spec_skip_blank_lines(lines);
    if 0 <= sk < lines.len() {
        spec_py_take(lines.skip(sk), spec_established_indent(lines[sk]))
    } else {
        0
    }
}

/// The body characters and the number of lines kept.
fn py_body_chars(v: &Vec<char>, start: usize) -> (r: (Vec<char>, usize))
    requires
        start <= v@.len(),
    ensures
        r.0@ == spec_py_body(v@, start as int),
        r.1 as int == spec_py_body_count(v@, start as int),
{
    let ranges = line_ranges(v, start);
    let ghost lines = spec_lines_from(v@, start as int);
    let n = ranges.len();
    proof {
        lemma_skip_blank_lines_bounds(lines);
        assert(lines.skip(0) =~= lines);
    }
    // skip leading blank lines
    let mut k: usize = 0;
    while k < n && range_is_blank(v, ranges[k].start, ranges[k].end)
        invariant
            k <= n == ranges@.len(),
            n == lines.len(),
            start <= v@.len(),
            lines == spec_lines_from(v@, start as int),
            forall|t: int|
                0 <= t < n ==> start <= #[trigger] ranges@[t].start <= ranges@[t].end <= v@.len()
                    && lines[t] == v@.subrange(ranges@[t].start as int, ranges@[t].end as int),
            spec_skip_blank_lines(lines) == k + spec_skip_blank_lines(lines.skip(k as int)),
        decreases n - k,
    {
        proof {
            assert(lines.skip(k as int)[0] == lines[k as int]);
            assert(lines.skip(k as int).drop_first() =~= lines.skip(k + 1));
        }
        k = k + 1;
    }
    proof {
        if k == n {
            assert(lines.skip(n as int) =~= Seq::<Seq<char>>::empty());
        }
        assert(spec_skip_blank_lines(lines) == k as int);
    }
    let sk = k;
    if sk == n {
        return (Vec::new(), 0);
    }
    // the first body line establishes the block's indentation
    let a0 = ranges[sk].start;
    let b0 = ranges[sk].end;
    let ghost first = lines[sk as int];
    let mut e0: usize = a0;
    while e0 < b0 && (v[e0] == ' ' || v[e0] == '\t')
        invariant
            a0 <= e0 <= b0 <= v@.len(),
            first == v@.subrange(a0 as int, b0 as int),
            spec_skip_blanks(first, 0) == spec_skip_blanks(first, e0 - a0),
        decreases b0 - e0,
    {
        proof {
            assert(first[e0 - a0] == v@[e0 as int]);
        }
        e0 = e0 + 1;
    }
    proof {
        if e0 < b0 {
            assert(first[e0 - a0] == v@[e0 as int]);
        }
        assert(spec_skip_blanks(first, 0) == e0 - a0);
        assert(spec_established_indent(first) =~= v@.subrange(a0 as int, e0 as int));
    }
    let mut ind: Vec<char> = Vec::new();
    let mut t0: usize = a0;
    while t0 < e0
        invariant
            a0 <= t0 <= e0 <= v@.len(),
            ind@ == v@.subrange(a0 as int, t0 as int),
        decreases e0 - t0,
    {
        ind.push(v[t0]);
        t0 = t0 + 1;
        proof {
            assert(ind@ =~= v@.subrange(a0 as int, t0 as int));
        }
    }
    proof {
        assert(ind@ == spec_established_indent(first));
        lemma_py_take_bounds(lines.skip(sk as int), ind@);
    }
    // take the indented run
    let mut body: Vec<char> = Vec::new();
    let mut taken: usize = 0;
    while k < n && taken == k - sk && range_starts_with(v, ranges[k].start, ranges[k].end, &ind)
        && !range_is_blank(v, ranges[k].start, ranges[k].end)
        invariant
            sk <= k <= n == ranges@.len(),
            n == lines.len(),
            start <= v@.len(),
            taken == k - sk,
            lines == spec_lines_from(v@, start as int),
            sk as int == spec_skip_blank_lines(lines),
            sk < n,
            ind@ == spec_established_indent(lines[sk as int]),
            forall|t: int|
                0 <= t < n ==> start <= #[trigger] ranges@[t].start <= ranges@[t].end <= v@.len()
                    && lines[t] == v@.subrange(ranges@[t].start as int, ranges@[t].end as int),
            spec_py_take(lines.skip(sk as int), ind@) == (k - sk) + spec_py_take(
                lines.skip(k as int),
                ind@,
            ),
            body@ == spec_join_nl(lines.subrange(sk as int, k as int)),
        decreases n - k,
    {
        proof {
            assert(lines.skip(k as int)[0] == lines[k as int]);
            assert(lines.skip(k as int).drop_first() =~= lines.skip(k + 1));
        }
        let a = ranges[k].start;
        let b = ranges[k].end;
        let ghost body0 = body@;
        if k > sk {
            body.push('\n');
        }
        let mut t: usize = a;
        while t < b
            invariant
                a <= t <= b <= v@.len(),
                body@ == body0 + (if k > sk {
                    seq!['\n']
                } else {
                    Seq::<char>::empty()
                }) + v@.subrange(a as int, t as int),
            decreases b - t,
        {
            body.push(v[t]);
            t = t + 1;
            proof {
                assert(body@ =~= body0 + (if k > sk {
                    seq!['\n']
                } else {
                    Seq::<char>::empty()
                }) + v@.subrange(a as int, t as int));
            }
        }
        proof {
            assert(lines.subrange(sk as int, k + 1).drop_last() =~= lines.subrange(
                sk as int,
                k as int,
            ));
            assert(lines.subrange(sk as int, k + 1).last() == lines[k as int]);
            if k == sk {
                assert(lines.subrange(sk as int, k + 1).len() == 1);
                assert(lines.subrange(sk as int, k + 1)[0] == lines[k as int]);
            }
            assert(body@ =~= spec_join_nl(lines.subrange(sk as int, k + 1)));
        }
        k = k + 1;
        taken = taken + 1;
    }
    proof {
        if k == n {
            assert(lines.skip(n as int) =~= Seq::<Seq<char>>::empty());
        }
        assert(spec_py_take(lines.skip(sk as int), ind@) == taken as int);
    }
    (body, taken)
}

// ---------------------------------------------------------------------
// Executable twins of the import and head grammars.
// ---------------------------------------------------------------------

fn py_plain_import_at(v: &Vec<char>, p: usize) -> (r: Option<(usize, usize)>)
    requires
        p <= v@.len(),
    ensures
        match r {
            Some((c, e)) => c <= e <= v@.len() && p < e && spec_py_plain_import_at(v@, p as int)
                == Some((v@.subrange(c as int, e as int), e as int)),
            None => spec_py_plain_import_at(v@, p as int) is None,
        },
{
    proof {
        reveal_strlit("import");
    }
    let n = v.len();
    if lit_at(v, p, "import") && p + 6 < n && ws_char(v[p + 6]) {
        let c = skip_ws(v, p + 6);
        let e = match find_char_at(v, '\n', c) {
            Some(j) => {
                proof {
                    lemma_find_at_props(v@, '\n', c as int);
                }
                j
            },
            None => n,
        };
        if c < e {
            Some((c, e))
        } else {
            None
        }
    } else {
        None
    }
}

/// The pieces of a recognised `from X import Y` line: the capture and
/// the module, still as ranges of the content.
struct PyImport {
    cap_s: usize,
    cap_e: usize,
    has_from: bool,
    mod_s: usize,
    mod_e: usize,
}

fn py_import_at(v: &Vec<char>, p: usize) -> (r: Option<PyImport>)
    requires
        p <= v@.len(),
    ensures
        match r {
            Some(im) => im.cap_s <= im.cap_e <= v@.len() && im.mod_s <= im.mod_e <= v@.len() && p
                < im.cap_e && spec_py_import_at(v@, p as int) == Some(
                (
                    if im.has_from {
                        v@.subrange(im.cap_s as int, im.cap_e as int) + " from "@ + v@.subrange(
                            im.mod_s as int,
                            im.mod_e as int,
                        )
                    } else {
                        v@.subrange(im.cap_s as int, im.cap_e as int)
                    },
                    im.cap_e as int,
                ),
            ),
            None => spec_py_import_at(v@, p as int) is None,
        },
{
    proof {
        reveal_strlit("from");
        reveal_strlit("import");
    }
    let n = v.len();
    if lit_at(v, p, "from") && p + 4 < n && ws_char(v[p + 4]) {
        let a = skip_ws(v, p + 4);
        let me = nonws_end(v, a);
        if me > a && me < n && ws_char(v[me]) {
            let b = skip_ws(v, me);
            if lit_at(v, b, "import") && b + 6 < n && ws_char(v[b + 6]) {
                let c = skip_ws(v, b + 6);
                let e = match find_char_at(v, '\n', c) {
                    Some(j) => {
                        proof {
                            lemma_find_at_props(v@, '\n', c as int);
                        }
                        j
                    },
                    None => n,
                };
                if c < e {
                    return Some(PyImport { cap_s: c, cap_e: e, has_from: true, mod_s: a, mod_e: me });
                }
            }
        }
    }
    match py_plain_import_at(v, p) {
        Some((c, e)) => Some(PyImport { cap_s: c, cap_e: e, has_from: false, mod_s: 0, mod_e: 0 }),
        None => None,
    }
}

struct PyHead {
    n0: usize,
    n1: usize,
    ps: usize,
    pe: usize,
    rs: usize,
    re: usize,
    end: usize,
}

impl PyHead {
    spec fn wf(&self, s: Seq<char>) -> bool {
        self.n0 <= self.n1 <= s.len() && self.ps <= self.pe <= s.len() && self.rs <= self.re
            <= s.len() && self.end <= s.len()
    }

    spec fn as_tuple(&self, s: Seq<char>) -> (Seq<char>, Seq<char>, Seq<char>, int) {
        (
            s.subrange(self.n0 as int, self.n1 as int),
            s.subrange(self.ps as int, self.pe as int),
            s.subrange(self.rs as int, self.re as int),
            self.end as int,
        )
    }
}

fn py_def_at(v: &Vec<char>, p: usize) -> (r: Option<PyHead>)
    requires
        p <= v@.len(),
    ensures
        match r {
            Some(h) => h.wf(v@) && p < h.end && spec_py_def_at(v@, p as int) == Some(
                h.as_tuple(v@),
            ),
            None => spec_py_def_at(v@, p as int) is None,
        },
{
    proof {
        reveal_strlit("def");
    }
    let n = v.len();
    let i = skip_blanks(v, p);
    if lit_at(v, i, "def") && i + 3 < n && ws_char(v[i + 3]) {
        let n0 = skip_ws(v, i + 3);
        let n1 = word_end(v, n0);
        let p0 = skip_ws(v, n1);
        if n1 > n0 && p0 < n && v[p0] == '(' {
            match find_char_at(v, ')', p0 + 1) {
                Some(pe) => {
                    proof {
                        lemma_find_at_props(v@, ')', p0 + 1);
                    }
                    let line_ok = match find_char_at(v, '\n', p0 + 1) {
                        Some(w) => w >= pe,
                        None => true,
                    };
                    if line_ok {
                        py_def_tail(v, n0, n1, p0 + 1, pe, pe + 1)
                    } else {
                        None
                    }
                },
                None => None,
            }
        } else {
            None
        }
    } else {
        None
    }
}

fn py_def_tail(v: &Vec<char>, n0: usize, n1: usize, ps: usize, pe: usize, q: usize) -> (r:
    Option<PyHead>)
    requires
        n0 <= n1 <= v@.len(),
        ps <= pe <= v@.len(),
        q <= v@.len(),
    ensures
        match r {
            Some(h) => h.wf(v@) && h.end > q && spec_py_def_tail(
                v@,
                v@.subrange(n0 as int, n1 as int),
                v@.subrange(ps as int, pe as int),
                q as int,
            ) == Some(h.as_tuple(v@)),
            None => spec_py_def_tail(
                v@,
                v@.subrange(n0 as int, n1 as int),
                v@.subrange(ps as int, pe as int),
                q as int,
            ) is None,
        },
{
    let n = v.len();
    let t = skip_ws(v, q);
    if t < n && v[t] == '-' && t + 1 < n && v[t + 1] == '>' {
        let u = skip_ws(v, t + 2);
        match find_char_at(v, ':', u) {
            Some(w) => {
                proof {
                    lemma_find_at_props(v@, ':', u as int);
                }
                if w > u {
                    Some(PyHead { n0, n1, ps, pe, rs: u, re: w, end: w + 1 })
                } else {
                    None
                }
            },
            None => None,
        }
    } else if t < n && v[t] == ':' {
        proof {
            assert(v@.subrange(t as int, t as int) =~= Seq::<char>::empty());
        }
        Some(PyHead { n0, n1, ps, pe, rs: t, re: t, end: t + 1 })
    } else {
        None
    }
}

// ---------------------------------------------------------------------
// Classes, complexity, and the public extractors.
// ---------------------------------------------------------------------

/// A `class` statement at the line starting at `p`: the captured name
/// and where the match ends.
pub open spec fn spec_py_class_at(s: Seq<char>, p: int) -> Option<(Seq<char>, int)> {
    let i = spec_skip_blanks(s, p);
    if spec_lit_at(s, i, "class"@) && i + 5 < s.len() && is_ws_char(s[i + 5]) {
        let n0 = spec_skip_ws(s, i + 5);
        let n1 = spec_word_end(s, n0);
        if n1 > n0 {
            Some((s.subrange(n0, n1), n1))
        } else {
            None
        }
    } else {
        None
    }
}

/// All class names of `s`, in line order: one match attempt per line
/// start, except that no attempt is made on a line an earlier match
/// runs into.
pub open spec fn spec_py_classes_from(s: Seq<char>, p: int) -> Seq<Seq<char>>
    decreases s.len() - p,
{
    if p < 0 || p >= s.len() {
        Seq::empty()
    } else {
        match spec_py_class_at(s, p) {
            Some((cap, e)) => {
                let next = spec_next_line(s, e);
                if p < next <= s.len() {
                    seq![cap] + spec_py_classes_from(s, next)
                } else {
                    seq![cap]
                }
            },
            None => {
                let next = spec_next_line(s, p);
                if p < next <= s.len() {
                    spec_py_classes_from(s, next)
                } else {
                    Seq::<Seq<char>>::empty()
                }
            },
        }
    }
}

fn py_class_at(v: &Vec<char>, p: usize) -> (r: Option<(usize, usize)>)
    requires
        p <= v@.len(),
    ensures
        match r {
            Some((a, b)) => a <= b <= v@.len() && p < b && spec_py_class_at(v@, p as int)
                == Some((v@.subrange(a as int, b as int), b as int)),
            None => spec_py_class_at(v@, p as int) is None,
        },
{
    proof {
        reveal_strlit("class");
    }
    let n = v.len();
    let i = skip_blanks(v, p);
    if lit_at(v, i, "class") && i + 5 < n && ws_char(v[i + 5]) {
        let n0 = skip_ws(v, i + 5);
        let n1 = word_end(v, n0);
        if n1 > n0 {
            Some((n0, n1))
        } else {
            None
        }
    } else {
        None
    }
}

/// The keyword alternatives of the complexity proxy.
pub open spec fn spec_py_keywords() -> Seq<Seq<char>> {
    seq!["if"@, "elif"@, "for"@, "while"@, "except"@, "and"@, "or"@]
}

fn py_keywords() -> (r: Vec<Vec<char>>)
    ensures
        r@.map_values(|k: Vec<char>| k@) =~= spec_py_keywords(),
        forall|j: int| 0 <= j < r@.len() ==> (#[trigger] r@[j])@.len() >= 1,
{
    proof {
        reveal_strlit("if");
        reveal_strlit("elif");
        reveal_strlit("for");
        reveal_strlit("while");
        reveal_strlit("except");
        reveal_strlit("and");
        reveal_strlit("or");
    }
    let mut r: Vec<Vec<char>> = Vec::new();
    r.push(chars_of("if"));
    r.push(chars_of("elif"));
    r.push(chars_of("for"));
    r.push(chars_of("while"));
    r.push(chars_of("except"));
    r.push(chars_of("and"));
    r.push(chars_of("or"));
    r
}

/// The complexity proxy of an indentation-delimited body: the
/// baseline path plus one per word-bounded keyword, stopping at the
/// largest representable count.
pub open spec fn spec_py_cc(s: Seq<char>) -> int {
    let c = 1 + spec_count_keywords(s, spec_py_keywords(), 0);
    if c <= usize::MAX {
        c
    } else {
        usize::MAX as int
    }
}

/// The rendered signature of an extracted function.
pub open spec fn spec_py_signature(name: Seq<char>, params: Seq<char>, ret: Seq<char>) -> Seq<
    char,
> {
    "def "@ + name + "("@ + params + ")"@ + (if ret.len() == 0 {
        Seq::<char>::empty()
    } else {
        " -> "@ + ret
    }) + ":"@
}

/// What one extracted function record holds for the head `h` found in
/// the content `s`.
pub open spec fn spec_py_fun_matches(
    s: Seq<char>,
    h: (Seq<char>, Seq<char>, Seq<char>, int),
    f: FunctionAnalysis,
) -> bool {
    let body = spec_py_body(s, h.3);
    &&& f.name@ == h.0
    &&& f.signature@ == spec_py_signature(h.0, h.1, h.2)
    &&& f.types@ == h.2
    &&& match f.body {
        Some(b) => b@ == body,
        None => false,
    }
    &&& f.lines_of_code as int == spec_py_body_count(s, h.3)
    &&& f.cyclomatic_complexity as int == spec_py_cc(body)
    &&& f.parameters as int == spec_param_count(h.1, 0)
    &&& f.returns == (h.2.len() > 0)
    &&& f.summary is None
}

fn collect_py_heads(v: &Vec<char>) -> (r: Vec<PyHead>)
    ensures
        r@.len() == spec_py_heads(v@, 0).len(),
        forall|k: int|
            0 <= k < r@.len() ==> (#[trigger] r@[k]).wf(v@) && r@[k].as_tuple(v@) == spec_py_heads(
                v@,
                0,
            )[k],
{
    let n = v.len();
    let mut r: Vec<PyHead> = Vec::new();
    let mut p: usize = 0;
    while p < n
        invariant
            p <= n == v@.len(),
            forall|k: int| 0 <= k < r@.len() ==> (#[trigger] r@[k]).wf(v@),
            spec_py_heads(v@, 0) =~= r@.map_values(|h: PyHead| h.as_tuple(v@)) + spec_py_heads(
                v@,
                p as int,
            ),
        decreases n - p,
    {
        let ghost done = r@.map_values(|h: PyHead| h.as_tuple(v@));
        let ghost head_seq = match spec_py_def_at(v@, p as int) {
            Some(h) => seq![h],
            None => Seq::<(Seq<char>, Seq<char>, Seq<char>, int)>::empty(),
        };
        let p2 = match py_def_at(v, p) {
            Some(h) => {
                let e = h.end;
                r.push(h);
                proof {
                    assert(r@.map_values(|hh: PyHead| hh.as_tuple(v@)) =~= done + head_seq);
                }
                next_line(v, e)
            },
            None => {
                proof {
                    assert(r@.map_values(|hh: PyHead| hh.as_tuple(v@)) =~= done + head_seq);
                }
                next_line(v, p)
            },
        };
        proof {
            assert(spec_py_heads(v@, p as int) =~= head_seq + spec_py_heads(v@, p2 as int));
        }
        p = p2;
    }
    proof {
        assert(spec_py_heads(v@, p as int) =~= Seq::<
            (Seq<char>, Seq<char>, Seq<char>, int),
        >::empty());
        let m = r@.map_values(|h: PyHead| h.as_tuple(v@));
        assert(spec_py_heads(v@, 0) =~= m);
        assert forall|k: int| 0 <= k < r@.len() implies r@[k].as_tuple(v@) == spec_py_heads(
            v@,
            0,
        )[k] by {
            assert(m[k] == r@[k].as_tuple(v@));
        }
    }
    r
}

/// Builds the per-function record for one recognised header.
fn build_py_fun(v: &Vec<char>, h: &PyHead) -> (f: FunctionAnalysis)
    requires
        h.wf(v@),
    ensures
        spec_py_fun_matches(v@, h.as_tuple(v@), f),
        f.wf(),
{
    let name = string_of_range(v, h.n0, h.n1);
    let params = string_of_range(v, h.ps, h.pe);
    let ret = string_of_range(v, h.rs, h.re);
    let mut signature = String::new();
    signature.append("def ");
    signature.append(name.as_str());
    signature.append("(");
    signature.append(params.as_str());
    signature.append(")");
    if h.re > h.rs {
        signature.append(" -> ");
        signature.append(ret.as_str());
    }
    signature.append(":");
    proof {
        assert(signature@ =~= spec_py_signature(
            v@.subrange(h.n0 as int, h.n1 as int),
            v@.subrange(h.ps as int, h.pe as int),
            v@.subrange(h.rs as int, h.re as int),
        ));
    }
    let (body_vec, taken) = py_body_chars(v, h.end);
    let kws = py_keywords();
    let count = count_keywords(&body_vec, &kws);
    let cyclomatic_complexity = sat_add(1, count);
    proof {
        lemma_count_keywords_nonneg(body_vec@, spec_py_keywords(), 0);
    }
    let parameters = param_count_in(v, h.ps, h.pe);
    let body = string_of_chars(&body_vec);
    FunctionAnalysis {
        name,
        signature,
        types: ret,
        body: Some(body),
        lines_of_code: taken,
        cyclomatic_complexity,
        parameters,
        returns: h.re > h.rs,
        summary: None,
    }
}

impl PythonAnalyzer {
    /// Collects every import line, rendered, in line order.
    pub fn extract_imports(content: &str) -> (r: Vec<String>)
        ensures
            r@.map_values(|x: String| x@) =~= spec_py_imports_from(content@, 0),
    {
        let v = chars_of(content);
        let n = v.len();
        let mut r: Vec<String> = Vec::new();
        let mut p: usize = 0;
        while p < n
            invariant
                p <= n == v@.len(),
                v@ == content@,
                spec_py_imports_from(v@, 0) =~= r@.map_values(|x: String| x@)
                    + spec_py_imports_from(v@, p as int),
            decreases n - p,
        {
            let ghost done = r@.map_values(|x: String| x@);
            let ghost head_seq = match spec_py_import_at(v@, p as int) {
                Some((c, e)) => seq![c],
                None => Seq::<Seq<char>>::empty(),
            };
            let p2 = match py_import_at(&v, p) {
                Some(im) => {
                    let mut cap = string_of_range(&v, im.cap_s, im.cap_e);
                    if im.has_from {
                        cap.append(" from ");
                        let m = string_of_range(&v, im.mod_s, im.mod_e);
                        cap.append(m.as_str());
                    }
                    r.push(cap);
                    proof {
                        assert(r@.map_values(|x: String| x@) =~= done + head_seq);
                    }
                    next_line(&v, im.cap_e)
                },
                None => {
                    proof {
                        assert(r@.map_values(|x: String| x@) =~= done + head_seq);
                    }
                    next_line(&v, p)
                },
            };
            proof {
                assert(spec_py_imports_from(v@, p as int) =~= head_seq + spec_py_imports_from(
                    v@,
                    p2 as int,
                ));
            }
            p = p2;
        }
        proof {
            assert(spec_py_imports_from(v@, p as int) =~= Seq::<Seq<char>>::empty());
        }
        r
    }

    /// Extracts every function a `def` header introduces, with its
    /// indentation-based body and metrics.
    pub fn extract_functions(content: &str) -> (r: Vec<FunctionAnalysis>)
        ensures
            r@.len() == spec_py_heads(content@, 0).len(),
            forall|k: int|
                0 <= k < r@.len() ==> spec_py_fun_matches(
                    content@,
                    spec_py_heads(content@, 0)[k],
                    #[trigger] r@[k],
                ),
    {
        let v = chars_of(content);
        let heads = collect_py_heads(&v);
        let mut r: Vec<FunctionAnalysis> = Vec::new();
        let nn = heads.len();
        let mut k: usize = 0;
        while k < nn
            invariant
                k <= nn == heads@.len(),
                v@ == content@,
                heads@.len() == spec_py_heads(v@, 0).len(),
                forall|t: int|
                    0 <= t < heads@.len() ==> (#[trigger] heads@[t]).wf(v@)
                        && heads@[t].as_tuple(v@) == spec_py_heads(v@, 0)[t],
                r@.len() == k,
                forall|t: int|
                    0 <= t < k ==> spec_py_fun_matches(
                        v@,
                        spec_py_heads(v@, 0)[t],
                        #[trigger] r@[t],
                    ),
            decreases nn - k,
        {
            let f = build_py_fun(&v, &heads[k]);
            r.push(f);
            k = k + 1;
        }
        r
    }

    /// The indentation-based body of the function whose header ends at
    /// character position `start`: leading blank lines are skipped, the
    /// first non-blank line establishes the block's indentation, and
    /// lines accumulate while non-blank and at least as indented; the
    /// first blank or less-indented line ends the body.
    pub fn extract_function_body(content: &str, start: usize) -> (r: String)
        requires
            start <= content@.len(),
        ensures
            r@ == spec_py_body(content@, start as int),
    {
        let v = chars_of(content);
        let (body, _taken) = py_body_chars(&v, start);
        string_of_chars(&body)
    }

    /// Collects every class name, in line order.
    pub fn extract_types(content: &str) -> (r: Vec<String>)
        ensures
            r@.map_values(|x: String| x@) =~= spec_py_classes_from(content@, 0),
    {
        let v = chars_of(content);
        let n = v.len();
        let mut r: Vec<String> = Vec::new();
        let mut p: usize = 0;
        while p < n
            invariant
                p <= n == v@.len(),
                v@ == content@,
                spec_py_classes_from(v@, 0) =~= r@.map_values(|x: String| x@)
                    + spec_py_classes_from(v@, p as int),
            decreases n - p,
        {
            let ghost done = r@.map_values(|x: String| x@);
            let ghost head_seq = match spec_py_class_at(v@, p as int) {
                Some((c, e)) => seq![c],
                None => Seq::<Seq<char>>::empty(),
            };
            let p2 = match py_class_at(&v, p) {
                Some((a, b)) => {
                    let cap = string_of_range(&v, a, b);
                    r.push(cap);
                    proof {
                        assert(r@.map_values(|x: String| x@) =~= done + head_seq);
                    }
                    next_line(&v, b)
                },
                None => {
                    proof {
                        assert(r@.map_values(|x: String| x@) =~= done + head_seq);
                    }
                    next_line(&v, p)
                },
            };
            proof {
                assert(spec_py_classes_from(v@, p as int) =~= head_seq + spec_py_classes_from(
                    v@,
                    p2 as int,
                ));
            }
            p = p2;
        }
        proof {
            assert(spec_py_classes_from(v@, p as int) =~= Seq::<Seq<char>>::empty());
        }
        r
    }

    /// The language has no explicit export keyword: export extraction
    /// is a deliberate no-op.
    pub fn extract_exports(_content: &str) -> (r: Vec<String>)
        ensures
            r@.len() == 0,
    {
        Vec::new()
    }

    /// One plus the number of word-bounded keyword occurrences in the
    /// body.
    pub fn calculate_cyclomatic_complexity(function_body: &str) -> (r: usize)
        ensures
            r as int == spec_py_cc(function_body@),
            r >= 1,
    {
        let v = chars_of(function_body);
        let kws = py_keywords();
        let c = count_keywords(&v, &kws);
        sat_add(1, c)
    }
}

/// What the analyzer's full record holds for the content `s`.
pub open spec fn spec_py_analysis(s: Seq<char>, a: CodeAnalysis) -> bool {
    &&& a.imports@.map_values(|x: String| x@) == spec_py_imports_from(s, 0)
    &&& a.functions@.len() == spec_py_heads(s, 0).len()
    &&& forall|k: int|
        0 <= k < a.functions@.len() ==> spec_py_fun_matches(
            s,
            spec_py_heads(s, 0)[k],
            #[trigger] a.functions@[k],
        )
    &&& a.types@.map_values(|x: String| x@) == spec_py_classes_from(s, 0)
    &&& a.exports@.len() == 0
}

impl LanguageAnalyzer for PythonAnalyzer {
    open spec fn applies_spec(&self, path: Seq<char>) -> bool {
        spec_ends_with(path, ".py"@)
    }

    /// Applies to `.py` files.
    fn can_analyze(&self, file_path: &str) -> (r: bool) {
        str_ends_with(file_path, ".py")
    }

    /// Pattern-based extraction never fails: absent patterns simply
    /// yield empty lists.
    fn analyze(&self, content: &str) -> (r: Result<CodeAnalysis, FolderSummaryError>)
        ensures
            match r {
                Ok(a) => spec_py_analysis(content@, a),
                Err(_) => false,
            },
    {
        let a = CodeAnalysis {
            imports: PythonAnalyzer::extract_imports(content),
            functions: PythonAnalyzer::extract_functions(content),
            types: PythonAnalyzer::extract_types(content),
            exports: PythonAnalyzer::extract_exports(content),
        };
        proof {
            assert forall|k: int| 0 <= k < a.functions@.len() implies (
            #[trigger] a.functions@[k]).wf() by {
                let h = spec_py_heads(content@, 0)[k];
                assert(spec_py_fun_matches(content@, h, a.functions@[k]));
                lemma_count_keywords_nonneg(spec_py_body(content@, h.3), spec_py_keywords(), 0);
            }
        }
        Ok(a)
    }
}

} // verus!
