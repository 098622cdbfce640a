//! Character-level text utilities shared by the pattern-based analyzers.
//!
//! Source content is handled as a vector of characters; a line model
//! (`spec_lines_from`) mirrors the standard library's line splitting:
//! lines end at `'\n'`, a `'\r'` just before the `'\n'` is not part of
//! the line, and a trailing newline does not open an empty final line.

use vstd::prelude::*;

verus! {

/// The whitespace characters the scanners recognise: the full set
/// `char::is_whitespace` accepts.
pub open spec fn is_ws_char(c: char) -> bool {
    c == ' ' || c == '\t' || c == '\n' || c == '\r' || c == '\u{b}' || c == '\u{c}'
        || c == '\u{85}' || c == '\u{a0}' || c == '\u{1680}' || ('\u{2000}' <= c && c
        <= '\u{200a}') || c == '\u{2028}' || c == '\u{2029}' || c == '\u{202f}' || c == '\u{205f}'
        || c == '\u{3000}'
}

/// A word character: ASCII letter, digit or underscore.  Word-class
/// characters outside ASCII are not recognised, so an identifier using
/// them is not captured.
pub open spec fn is_word_char(c: char) -> bool {
    ('a' <= c && c <= 'z') || ('A' <= c && c <= 'Z') || ('0' <= c && c <= '9') || c == '_'
}

/// Executable twin of `is_ws_char`.
pub fn ws_char(c: char) -> (r: bool)
    ensures
        r == is_ws_char(c),
{
    c == ' ' || c == '\t' || c == '\n' || c == '\r' || c == '\u{b}' || c == '\u{c}'
        || c == '\u{85}' || c == '\u{a0}' || c == '\u{1680}' || ('\u{2000}' <= c && c
        <= '\u{200a}') || c == '\u{2028}' || c == '\u{2029}' || c == '\u{202f}' || c == '\u{205f}'
        || c == '\u{3000}'
}

/// Executable twin of `is_word_char`.
pub fn word_char(c: char) -> (r: bool)
    ensures
        r == is_word_char(c),
{
    ('a' <= c && c <= 'z') || ('A' <= c && c <= 'Z') || ('0' <= c && c <= '9') || c == '_'
}

/// The characters of `s`, in order.
pub fn chars_of(s: &str) -> (v: Vec<char>)
    ensures
        v@ == s@,
{
    let n = s.unicode_len();
    let mut v: Vec<char> = Vec::new();
    let mut i: usize = 0;
    while i < n
        invariant
            n == s@.len(),
            i <= n,
            v@ == s@.subrange(0, i as int),
        decreases n - i,
    {
        let c = s.get_char(i);
        v.push(c);
        i = i + 1;
        proof {
            assert(v@ =~= s@.subrange(0, i as int));
        }
    }
    proof {
        assert(v@ =~= s@);
    }
    v
}

/// Relies on `String::push` from std: appends exactly one character.
#[verifier::external_body]
pub fn push_char(s: &mut String, c: char)
    ensures
        final(s)@ == old(s)@.push(c),
{
    s.push(c);
}

/// The substring of `v` between `from` and `to`, as an owned string.
pub fn string_of_range(v: &Vec<char>, from: usize, to: usize) -> (r: String)
    requires
        from <= to <= v@.len(),
    ensures
        r@ == v@.subrange(from as int, to as int),
{
    let mut r = String::new();
    let mut i: usize = from;
    while i < to
        invariant
            from <= i <= to <= v@.len(),
            r@ == v@.subrange(from as int, i as int),
        decreases to - i,
    {
        push_char(&mut r, v[i]);
        i = i + 1;
        proof {
            assert(r@ =~= v@.subrange(from as int, i as int));
        }
    }
    r
}

/// Whether two strings hold the same characters.
pub fn str_eq(a: &str, b: &str) -> (r: bool)
    ensures
        r == (a@ == b@),
{
    let n = a.unicode_len();
    let m = b.unicode_len();
    if n != m {
        return false;
    }
    let mut k: usize = 0;
    while k < n
        invariant
            n == a@.len() == b@.len(),
            k <= n,
            forall|t: int| 0 <= t < k ==> a@[t] == b@[t],
        decreases n - k,
    {
        if a.get_char(k) != b.get_char(k) {
            return false;
        }
        k = k + 1;
    }
    proof {
        assert(a@ =~= b@);
    }
    true
}

/// The characters of `v`, as an owned string.
pub fn string_of_chars(v: &Vec<char>) -> (r: String)
    ensures
        r@ == v@,
{
    let n = v.len();
    let r = string_of_range(v, 0, n);
    proof {
        assert(v@.subrange(0, n as int) =~= v@);
    }
    r
}

/// The first position `>= from` holding `c`, if any.
pub open spec fn spec_find_at(s: Seq<char>, c: char, from: int) -> Option<int>
    decreases s.len() - from,
{
    if from < 0 || from >= s.len() {
        None
    } else if s[from] == c {
        Some(from)
    } else {
        spec_find_at(s, c, from + 1)
    }
}

pub proof fn lemma_find_at_props(s: Seq<char>, c: char, from: int)
    requires
        0 <= from,
    ensures
        match spec_find_at(s, c, from) {
            Some(j) => from <= j < s.len() && s[j] == c && (forall|k: int|
                from <= k < j ==> s[k] != c),
            None => forall|k: int| from <= k < s.len() ==> s[k] != c,
        },
    decreases s.len() - from,
{
    if from < 0 || from >= s.len() {
    } else if s[from] == c {
    } else {
        lemma_find_at_props(s, c, from + 1);
    }
}

/// Executable twin of `spec_find_at`.
pub fn find_char_at(v: &Vec<char>, c: char, from: usize) -> (r: Option<usize>)
    ensures
        match r {
            Some(j) => Some(j as int) == spec_find_at(v@, c, from as int),
            None => spec_find_at(v@, c, from as int) is None,
        },
{
    let n = v.len();
    let mut i: usize = from;
    while i < n
        invariant
            n == v@.len(),
            from <= i,
            spec_find_at(v@, c, from as int) == spec_find_at(v@, c, i as int),
        decreases n - i,
    {
        if v[i] == c {
            return Some(i);
        }
        i = i + 1;
    }
    None
}

/// The start of the first line after position `p`: just past the next
/// line terminator, or the end of the text.
pub open spec fn spec_next_line(s: Seq<char>, p: int) -> int {
    match spec_find_at(s, '\n', p) {
        Some(j) => j + 1,
        None => s.len() as int,
    }
}

/// Executable twin of `spec_next_line`.
pub fn next_line(v: &Vec<char>, p: usize) -> (r: usize)
    requires
        p <= v@.len(),
    ensures
        r as int == spec_next_line(v@, p as int),
        p <= r <= v@.len(),
        p < r || r == v@.len(),
{
    let n = v.len();
    match find_char_at(v, '\n', p) {
        Some(j) => {
            proof {
                lemma_find_at_props(v@, '\n', p as int);
            }
            j + 1
        },
        None => n,
    }
}

/// How many characters of the prefix `s[..upto]` equal `c`.
pub open spec fn count_char_upto(s: Seq<char>, c: char, upto: int) -> int
    decreases upto,
{
    if upto <= 0 || upto > s.len() {
        0
    } else {
        count_char_upto(s, c, upto - 1) + if s[upto - 1] == c {
            1int
        } else {
            0int
        }
    }
}

/// How many characters of `s` equal `c`.
pub open spec fn count_char(s: Seq<char>, c: char) -> int {
    count_char_upto(s, c, s.len() as int)
}

/// Executable twin of `count_char`.
pub fn count_char_in(v: &Vec<char>, from: usize, to: usize, c: char) -> (r: usize)
    requires
        from <= to <= v@.len(),
    ensures
        r == count_char(v@.subrange(from as int, to as int), c),
        r <= to - from,
{
    let ghost s = v@.subrange(from as int, to as int);
    let mut i: usize = from;
    let mut r: usize = 0;
    while i < to
        invariant
            from <= i <= to <= v@.len(),
            s == v@.subrange(from as int, to as int),
            r == count_char_upto(s, c, i - from),
            r <= i - from,
        decreases to - i,
    {
        proof {
            assert(s[i - from] == v@[i as int]);
        }
        if v[i] == c {
            r = r + 1;
        }
        i = i + 1;
    }
    r
}

/// `p` is a prefix of `s`.
pub open spec fn spec_starts_with(s: Seq<char>, p: Seq<char>) -> bool {
    p.len() <= s.len() && s.subrange(0, p.len() as int) == p
}

/// Whether the range `[from, to)` of `v` starts with the characters of `p`.
pub fn range_starts_with(v: &Vec<char>, from: usize, to: usize, p: &Vec<char>) -> (r: bool)
    requires
        from <= to <= v@.len(),
    ensures
        r == spec_starts_with(v@.subrange(from as int, to as int), p@),
{
    let ghost s = v@.subrange(from as int, to as int);
    if to - from < p.len() {
        return false;
    }
    let n = p.len();
    let mut i: usize = 0;
    while i < n
        invariant
            n == p@.len(),
            i <= n,
            from + n <= to <= v@.len(),
            s == v@.subrange(from as int, to as int),
            forall|k: int| 0 <= k < i ==> s[k] == p@[k],
        decreases n - i,
    {
        proof {
            assert(s[i as int] == v@[from + i]);
        }
        if v[from + i] != p[i] {
            proof {
                assert(s.subrange(0, p@.len() as int)[i as int] == s[i as int]);
            }
            return false;
        }
        i = i + 1;
    }
    proof {
        assert(s.subrange(0, p@.len() as int) =~= p@);
    }
    true
}

/// Every character of `s` is whitespace.
pub open spec fn is_blank(s: Seq<char>) -> bool {
    forall|k: int| 0 <= k < s.len() ==> is_ws_char(s[k])
}

/// Whether the range `[from, to)` of `v` is all whitespace.
pub fn range_is_blank(v: &Vec<char>, from: usize, to: usize) -> (r: bool)
    requires
        from <= to <= v@.len(),
    ensures
        r == is_blank(v@.subrange(from as int, to as int)),
{
    let ghost s = v@.subrange(from as int, to as int);
    let mut i: usize = from;
    while i < to
        invariant
            from <= i <= to <= v@.len(),
            s == v@.subrange(from as int, to as int),
            forall|k: int| 0 <= k < i - from ==> is_ws_char(s[k]),
        decreases to - i,
    {
        proof {
            assert(s[i - from] == v@[i as int]);
        }
        if !ws_char(v[i]) {
            return false;
        }
        i = i + 1;
    }
    true
}

/// The first position `>= i` whose character is not whitespace (or the end).
pub open spec fn spec_skip_ws(s: Seq<char>, i: int) -> int
    decreases s.len() - i,
{
    if i < 0 || i >= s.len() {
        i
    } else if is_ws_char(s[i]) {
        spec_skip_ws(s, i + 1)
    } else {
        i
    }
}

pub proof fn lemma_skip_ws_props(s: Seq<char>, i: int)
    requires
        0 <= i <= s.len(),
    ensures
        i <= spec_skip_ws(s, i) <= s.len(),
        spec_skip_ws(s, i) < s.len() ==> !is_ws_char(s[spec_skip_ws(s, i)]),
        forall|k: int| i <= k < spec_skip_ws(s, i) ==> is_ws_char(s[k]),
    decreases s.len() - i,
{
    if i < s.len() && is_ws_char(s[i]) {
        lemma_skip_ws_props(s, i + 1);
    }
}

/// Executable twin of `spec_skip_ws`.
pub fn skip_ws(v: &Vec<char>, from: usize) -> (r: usize)
    requires
        from <= v@.len(),
    ensures
        r as int == spec_skip_ws(v@, from as int),
        from <= r <= v@.len(),
{
    let n = v.len();
    let mut i: usize = from;
    while i < n
        invariant
            from <= i <= n == v@.len(),
            spec_skip_ws(v@, from as int) == spec_skip_ws(v@, i as int),
        decreases n - i,
    {
        if !ws_char(v[i]) {
            return i;
        }
        i = i + 1;
    }
    n
}

/// There is a word character at position `p` of `s` (outside the text
/// counts as non-word).
pub open spec fn word_at(s: Seq<char>, p: int) -> bool {
    0 <= p < s.len() && is_word_char(s[p])
}

/// The keyword `kw` occurs at position `i` of `s`.  A boundary is
/// demanded only on a side where the keyword's edge is itself a word
/// character: a word keyword must not touch an adjacent word character,
/// while an operator made of non-word characters matches as a plain
/// substring occurrence.
pub open spec fn spec_kw_at(s: Seq<char>, kw: Seq<char>, i: int) -> bool {
    &&& 0 <= i
    &&& kw.len() >= 1
    &&& i + kw.len() <= s.len()
    &&& s.subrange(i, i + kw.len()) == kw
    &&& (is_word_char(kw[0]) ==> !word_at(s, i - 1))
    &&& (is_word_char(kw[kw.len() - 1]) ==> !word_at(s, i + kw.len()))
}

/// The first keyword of `kws` (from index `k` on) that occurs at `i`.
pub open spec fn spec_kw_match(s: Seq<char>, kws: Seq<Seq<char>>, i: int, k: int) -> Option<int>
    decreases kws.len() - k,
{
    if k < 0 || k >= kws.len() {
        None
    } else if spec_kw_at(s, kws[k], i) {
        Some(k)
    } else {
        spec_kw_match(s, kws, i, k + 1)
    }
}

pub proof fn lemma_kw_match_props(s: Seq<char>, kws: Seq<Seq<char>>, i: int, k: int)
    requires
        0 <= k,
    ensures
        match spec_kw_match(s, kws, i, k) {
            Some(j) => k <= j < kws.len() && spec_kw_at(s, kws[j], i),
            None => true,
        },
    decreases kws.len() - k,
{
    if k < kws.len() && !spec_kw_at(s, kws[k], i) {
        lemma_kw_match_props(s, kws, i, k + 1);
    }
}

/// How many keyword occurrences a left-to-right scan of `s` counts from
/// position `i` on: at each position the first listed keyword that occurs
/// there is counted and skipped, else the scan moves on one character.
pub open spec fn spec_count_keywords(s: Seq<char>, kws: Seq<Seq<char>>, i: int) -> int
    decreases s.len() - i,
{
    if i < 0 || i >= s.len() {
        0
    } else {
        match spec_kw_match(s, kws, i, 0) {
            Some(j) => if 1 <= kws[j].len() && i + kws[j].len() <= s.len() {
                1 + spec_count_keywords(s, kws, i + kws[j].len())
            } else {
                0
            },
            None => spec_count_keywords(s, kws, i + 1),
        }
    }
}

pub proof fn lemma_count_keywords_nonneg(s: Seq<char>, kws: Seq<Seq<char>>, i: int)
    ensures
        spec_count_keywords(s, kws, i) >= 0,
    decreases s.len() - i,
{
    if 0 <= i < s.len() {
        match spec_kw_match(s, kws, i, 0) {
            Some(j) => {
                if 1 <= kws[j].len() && i + kws[j].len() <= s.len() {
                    lemma_count_keywords_nonneg(s, kws, i + kws[j].len());
                }
            },
            None => {
                lemma_count_keywords_nonneg(s, kws, i + 1);
            },
        }
    }
}

/// Whether `kw` occurs at position `i` of `v`, bounded as
/// `spec_kw_at` demands.
pub fn kw_at(v: &Vec<char>, kw: &Vec<char>, i: usize) -> (r: bool)
    requires
        i <= v@.len(),
    ensures
        r == spec_kw_at(v@, kw@, i as int),
{
    let n = v.len();
    let m = kw.len();
    if m < 1 || m > n - i {
        return false;
    }
    // a word keyword must not touch a word character on the left
    if word_char(kw[0]) && i > 0 && word_char(v[i - 1]) {
        return false;
    }
    // nor on the right
    if word_char(kw[m - 1]) && i + m < n && word_char(v[i + m]) {
        return false;
    }
    let mut k: usize = 0;
    while k < m
        invariant
            i + m <= n == v@.len(),
            m == kw@.len(),
            k <= m,
            forall|t: int| 0 <= t < k ==> v@[i + t] == kw@[t],
        decreases m - k,
    {
        if v[i + k] != kw[k] {
            proof {
                assert(v@.subrange(i as int, i + kw@.len())[k as int] == v@[i + k]);
            }
            return false;
        }
        k = k + 1;
    }
    proof {
        assert(v@.subrange(i as int, i + kw@.len()) =~= kw@);
    }
    true
}

/// The first keyword of `kws` that occurs at `i`, bounded as
/// `spec_kw_at` demands.
pub fn first_kw_match(v: &Vec<char>, kws: &Vec<Vec<char>>, i: usize) -> (r: Option<usize>)
    requires
        i <= v@.len(),
    ensures
        match r {
            Some(j) => {
                &&& Some(j as int) == spec_kw_match(
                    v@,
                    kws@.map_values(|k: Vec<char>| k@),
                    i as int,
                    0,
                )
                &&& j < kws@.len()
            },
            None => spec_kw_match(v@, kws@.map_values(|k: Vec<char>| k@), i as int, 0) is None,
        },
{
    let ghost sk = kws@.map_values(|k: Vec<char>| k@);
    let n = kws.len();
    let mut k: usize = 0;
    while k < n
        invariant
            i <= v@.len(),
            k <= n == kws@.len(),
            sk == kws@.map_values(|kk: Vec<char>| kk@),
            spec_kw_match(v@, sk, i as int, 0) == spec_kw_match(v@, sk, i as int, k as int),
        decreases n - k,
    {
        if kw_at(v, &kws[k], i) {
            return Some(k);
        }
        k = k + 1;
    }
    None
}

/// Counts keyword occurrences in `v` — word keywords bounded, plain
/// operators as substrings — scanning left to right and never counting
/// overlapping occurrences twice.
pub fn count_keywords(v: &Vec<char>, kws: &Vec<Vec<char>>) -> (r: usize)
    requires
        forall|j: int| 0 <= j < kws@.len() ==> (#[trigger] kws@[j])@.len() >= 1,
    ensures
        r as int == spec_count_keywords(v@, kws@.map_values(|k: Vec<char>| k@), 0),
        r <= v@.len(),
{
    let ghost sk = kws@.map_values(|k: Vec<char>| k@);
    let n = v.len();
    let mut i: usize = 0;
    let mut r: usize = 0;
    while i < n
        invariant
            i <= n == v@.len(),
            r <= i,
            sk == kws@.map_values(|kk: Vec<char>| kk@),
            forall|j: int| 0 <= j < kws@.len() ==> (#[trigger] kws@[j])@.len() >= 1,
            spec_count_keywords(v@, sk, 0) == r + spec_count_keywords(v@, sk, i as int),
        decreases n - i,
    {
        match first_kw_match(v, kws, i) {
            Some(j) => {
                proof {
                    lemma_kw_match_props(v@, sk, i as int, 0);
                    assert(sk[j as int] == kws@[j as int]@);
                }
                let m = kws[j].len();
                r = r + 1;
                i = i + m;
            },
            None => {
                i = i + 1;
            },
        }
    }
    r
}

/// The concatenation of `parts` behind an already-emitted first part:
/// every part is preceded by `sep` unless it is the first overall.
pub open spec fn spec_join_tail(parts: Seq<Seq<char>>, sep: Seq<char>, first: bool) -> Seq<char>
    decreases parts.len(),
{
    if parts.len() == 0 {
        Seq::empty()
    } else if first {
        parts[0] + spec_join_tail(parts.drop_first(), sep, false)
    } else {
        sep + parts[0] + spec_join_tail(parts.drop_first(), sep, false)
    }
}

/// `parts` joined by the separator `sep`.
pub open spec fn spec_join_sep(parts: Seq<Seq<char>>, sep: Seq<char>) -> Seq<char> {
    spec_join_tail(parts, sep, true)
}

/// The first position `>= i` that is not a space or tab (or the end).
pub open spec fn spec_skip_blanks(s: Seq<char>, i: int) -> int
    decreases s.len() - i,
{
    if i < 0 || i >= s.len() {
        i
    } else if s[i] == ' ' || s[i] == '\t' {
        spec_skip_blanks(s, i + 1)
    } else {
        i
    }
}

/// Executable twin of `spec_skip_blanks`.
pub fn skip_blanks(v: &Vec<char>, from: usize) -> (r: usize)
    requires
        from <= v@.len(),
    ensures
        r as int == spec_skip_blanks(v@, from as int),
        from <= r <= v@.len(),
{
    let n = v.len();
    let mut i: usize = from;
    while i < n && (v[i] == ' ' || v[i] == '\t')
        invariant
            from <= i <= n == v@.len(),
            spec_skip_blanks(v@, from as int) == spec_skip_blanks(v@, i as int),
        decreases n - i,
    {
        i = i + 1;
    }
    i
}

/// The literal `lit` occurs at position `i` of `s`.
pub open spec fn spec_lit_at(s: Seq<char>, i: int, lit: Seq<char>) -> bool {
    0 <= i && i + lit.len() <= s.len() && s.subrange(i, i + lit.len()) == lit
}

/// Executable twin of `spec_lit_at`.
pub fn lit_at(v: &Vec<char>, i: usize, lit: &str) -> (r: bool)
    requires
        i <= v@.len(),
    ensures
        r == spec_lit_at(v@, i as int, lit@),
{
    let m = lit.unicode_len();
    let n = v.len();
    if m > n - i {
        return false;
    }
    let mut k: usize = 0;
    while k < m
        invariant
            i + m <= n == v@.len(),
            m == lit@.len(),
            k <= m,
            forall|t: int| 0 <= t < k ==> v@[i + t] == lit@[t],
        decreases m - k,
    {
        if v[i + k] != lit.get_char(k) {
            proof {
                assert(v@.subrange(i as int, i + lit@.len())[k as int] == v@[i + k]);
            }
            return false;
        }
        k = k + 1;
    }
    proof {
        assert(v@.subrange(i as int, i + lit@.len()) =~= lit@);
    }
    true
}

/// The first position `>= i` whose character is not a word character.
pub open spec fn spec_word_end(s: Seq<char>, i: int) -> int
    decreases s.len() - i,
{
    if i < 0 || i >= s.len() {
        i
    } else if is_word_char(s[i]) {
        spec_word_end(s, i + 1)
    } else {
        i
    }
}

/// Executable twin of `spec_word_end`.
pub fn word_end(v: &Vec<char>, from: usize) -> (r: usize)
    requires
        from <= v@.len(),
    ensures
        r as int == spec_word_end(v@, from as int),
        from <= r <= v@.len(),
{
    let n = v.len();
    let mut i: usize = from;
    while i < n && word_char(v[i])
        invariant
            from <= i <= n == v@.len(),
            spec_word_end(v@, from as int) == spec_word_end(v@, i as int),
        decreases n - i,
    {
        i = i + 1;
    }
    i
}

/// The first position `>= i` whose character is whitespace (or the end).
pub open spec fn spec_nonws_end(s: Seq<char>, i: int) -> int
    decreases s.len() - i,
{
    if i < 0 || i >= s.len() {
        i
    } else if !is_ws_char(s[i]) {
        spec_nonws_end(s, i + 1)
    } else {
        i
    }
}

/// Executable twin of `spec_nonws_end`.
pub fn nonws_end(v: &Vec<char>, from: usize) -> (r: usize)
    requires
        from <= v@.len(),
    ensures
        r as int == spec_nonws_end(v@, from as int),
        from <= r <= v@.len(),
{
    let n = v.len();
    let mut i: usize = from;
    while i < n && !ws_char(v[i])
        invariant
            from <= i <= n == v@.len(),
            spec_nonws_end(v@, from as int) == spec_nonws_end(v@, i as int),
        decreases n - i,
    {
        i = i + 1;
    }
    i
}

/// `suf` is a suffix of `s`.
pub open spec fn spec_ends_with(s: Seq<char>, suf: Seq<char>) -> bool {
    suf.len() <= s.len() && s.subrange(s.len() - suf.len(), s.len() as int) == suf
}

/// Whether `s` ends with the characters of `suffix`.
pub fn str_ends_with(s: &str, suffix: &str) -> (r: bool)
    ensures
        r == spec_ends_with(s@, suffix@),
{
    let n = s.unicode_len();
    let m = suffix.unicode_len();
    if m > n {
        return false;
    }
    let mut k: usize = 0;
    while k < m
        invariant
            m <= n,
            n == s@.len(),
            m == suffix@.len(),
            k <= m,
            forall|t: int| 0 <= t < k ==> s@[n - m + t] == suffix@[t],
        decreases m - k,
    {
        if s.get_char(n - m + k) != suffix.get_char(k) {
            proof {
                assert(s@.subrange(s@.len() - suffix@.len(), s@.len() as int)[k as int] == s@[n - m
                    + k]);
            }
            return false;
        }
        k = k + 1;
    }
    proof {
        assert(s@.subrange(s@.len() - suffix@.len(), s@.len() as int) =~= suffix@);
    }
    true
}

/// A string-literal quote of the scripting language: `'` or `"`.
pub open spec fn is_quote_char(c: char) -> bool {
    c == '\'' || c == '"'
}

/// The first position `>= i` holding a quote character, if any.
pub open spec fn spec_find_quote(s: Seq<char>, i: int) -> Option<int>
    decreases s.len() - i,
{
    if i < 0 || i >= s.len() {
        None
    } else if is_quote_char(s[i]) {
        Some(i)
    } else {
        spec_find_quote(s, i + 1)
    }
}

/// Executable twin of `spec_find_quote`.
pub fn find_quote(v: &Vec<char>, from: usize) -> (r: Option<usize>)
    requires
        from <= v@.len(),
    ensures
        match r {
            Some(j) => Some(j as int) == spec_find_quote(v@, from as int) && from <= j
                < v@.len(),
            None => spec_find_quote(v@, from as int) is None,
        },
{
    let n = v.len();
    let mut i: usize = from;
    while i < n
        invariant
            from <= i <= n == v@.len(),
            spec_find_quote(v@, from as int) == spec_find_quote(v@, i as int),
        decreases n - i,
    {
        if v[i] == '\'' || v[i] == '"' {
            return Some(i);
        }
        i = i + 1;
    }
    None
}

/// How many comma-separated segments of `s[i..]` are not all whitespace.
pub open spec fn spec_param_count(s: Seq<char>, i: int) -> int
    decreases s.len() - i,
{
    if i < 0 || i > s.len() {
        0
    } else {
        match spec_find_at(s, ',', i) {
            Some(j) => if i <= j < s.len() {
                (if is_blank(s.subrange(i, j)) {
                    0int
                } else {
                    1int
                }) + spec_param_count(s, j + 1)
            } else {
                0
            },
            None => if is_blank(s.subrange(i, s.len() as int)) {
                0
            } else {
                1
            },
        }
    }
}

/// Counts the comma-separated parameters of the range `[from, to)` of
/// `v` that hold more than whitespace.
pub fn param_count_in(v: &Vec<char>, from: usize, to: usize) -> (r: usize)
    requires
        from <= to <= v@.len(),
    ensures
        r as int == spec_param_count(v@.subrange(from as int, to as int), 0),
{
    let ghost s = v@.subrange(from as int, to as int);
    let mut i: usize = from;
    let mut r: usize = 0;
    while i < to
        invariant
            from <= i <= to <= v@.len(),
            s == v@.subrange(from as int, to as int),
            r <= i - from,
            spec_param_count(s, 0) == r + spec_param_count(s, i - from),
        decreases to - i,
    {
        // find the next comma within the range
        let mut j: usize = i;
        while j < to && v[j] != ','
            invariant
                from <= i <= j <= to <= v@.len(),
                s == v@.subrange(from as int, to as int),
                spec_find_at(s, ',', i - from) == spec_find_at(s, ',', j - from),
                forall|k: int| i - from <= k < j - from ==> s[k] != ',',
            decreases to - j,
        {
            proof {
                assert(s[j - from] == v@[j as int]);
            }
            j = j + 1;
        }
        let blank = range_is_blank(v, i, j);
        proof {
            assert(s.subrange(i - from, j - from) =~= v@.subrange(i as int, j as int));
        }
        if j < to {
            // a comma at j: one segment ends here
            proof {
                assert(s[j - from] == v@[j as int]);
            }
            if !blank {
                r = r + 1;
            }
            i = j + 1;
        } else {
            // last segment
            proof {
                lemma_find_at_props(s, ',', i - from);
                assert(s.subrange(i - from, s.len() as int) =~= v@.subrange(i as int, to as int));
            }
            if !blank {
                r = r + 1;
            }
            i = to;
            proof {
                assert(spec_param_count(s, to - from) == 0);
            }
        }
    }
    proof {
        if from == to {
            assert(s.subrange(0, 0) =~= Seq::<char>::empty());
        }
    }
    r
}

/// The last position of `s` holding `c`, if any.
pub open spec fn spec_rfind(s: Seq<char>, c: char) -> Option<int>
    decreases s.len(),
{
    if s.len() == 0 {
        None
    } else if s[s.len() - 1] == c {
        Some(s.len() - 1)
    } else {
        spec_rfind(s.drop_last(), c)
    }
}

pub proof fn lemma_rfind_props(s: Seq<char>, c: char)
    ensures
        match spec_rfind(s, c) {
            Some(j) => 0 <= j < s.len() && s[j] == c && (forall|k: int|
                j < k < s.len() ==> s[k] != c),
            None => forall|k: int| 0 <= k < s.len() ==> s[k] != c,
        },
    decreases s.len(),
{
    if s.len() > 0 && s[s.len() - 1] != c {
        lemma_rfind_props(s.drop_last(), c);
        assert(forall|k: int| 0 <= k < s.len() - 1 ==> s.drop_last()[k] == s[k]);
    }
}

/// Executable twin of `spec_rfind`, over the range `[from, to)` of `v`.
pub fn rfind_char_in(v: &Vec<char>, from: usize, to: usize, c: char) -> (r: Option<usize>)
    requires
        from <= to <= v@.len(),
    ensures
        match r {
            Some(j) => from <= j < to && Some(j - from) == spec_rfind(
                v@.subrange(from as int, to as int),
                c,
            ),
            None => spec_rfind(v@.subrange(from as int, to as int), c) is None,
        },
{
    let ghost s = v@.subrange(from as int, to as int);
    proof {
        assert(s.subrange(0, to - from) =~= s);
    }
    let mut j: usize = to;
    while j > from
        invariant
            from <= j <= to <= v@.len(),
            s == v@.subrange(from as int, to as int),
            spec_rfind(s, c) == spec_rfind(s.subrange(0, j - from), c),
        decreases j,
    {
        proof {
            assert(s.subrange(0, j - from).last() == v@[j - 1]);
            assert(s.subrange(0, j - from).drop_last() =~= s.subrange(0, j - 1 - from));
        }
        if v[j - 1] == c {
            return Some(j - 1);
        }
        j = j - 1;
    }
    proof {
        assert(s.subrange(0, 0) =~= Seq::<char>::empty());
    }
    None
}

/// The index past the last non-whitespace character of `s`.
pub open spec fn spec_trim_end_idx(s: Seq<char>) -> int
    decreases s.len(),
{
    if s.len() > 0 && is_ws_char(s[s.len() - 1]) {
        spec_trim_end_idx(s.drop_last())
    } else {
        s.len() as int
    }
}

/// `s` with leading and trailing whitespace removed.
pub open spec fn spec_trim(s: Seq<char>) -> Seq<char> {
    if spec_skip_ws(s, 0) >= spec_trim_end_idx(s) {
        Seq::empty()
    } else {
        s.subrange(spec_skip_ws(s, 0), spec_trim_end_idx(s))
    }
}

pub proof fn lemma_trim_end_idx_bounds(s: Seq<char>)
    ensures
        0 <= spec_trim_end_idx(s) <= s.len(),
    decreases s.len(),
{
    if s.len() > 0 && is_ws_char(s[s.len() - 1]) {
        lemma_trim_end_idx_bounds(s.drop_last());
    }
}

/// The bounds `(a, b)` of the trimmed middle of the range `[from, to)`:
/// `v[a..b]` is that range with surrounding whitespace removed.
pub fn trim_in(v: &Vec<char>, from: usize, to: usize) -> (r: (usize, usize))
    requires
        from <= to <= v@.len(),
    ensures
        from <= r.0 <= r.1 <= to,
        spec_trim(v@.subrange(from as int, to as int)) == v@.subrange(r.0 as int, r.1 as int),
{
    let ghost s = v@.subrange(from as int, to as int);
    proof {
        assert(s.subrange(0, to - from) =~= s);
        lemma_trim_end_idx_bounds(s);
    }
    let mut b: usize = to;
    while b > from && ws_char(v[b - 1])
        invariant
            from <= b <= to <= v@.len(),
            s == v@.subrange(from as int, to as int),
            spec_trim_end_idx(s) == spec_trim_end_idx(s.subrange(0, b - from)),
            spec_trim_end_idx(s.subrange(0, b - from)) <= b - from,
        decreases b,
    {
        proof {
            assert(s.subrange(0, b - from).last() == v@[b - 1]);
            assert(s.subrange(0, b - from).drop_last() =~= s.subrange(0, b - 1 - from));
            lemma_trim_end_idx_bounds(s.subrange(0, b - 1 - from));
        }
        b = b - 1;
    }
    proof {
        if b == from {
            assert(s.subrange(0, 0) =~= Seq::<char>::empty());
        } else {
            assert(s.subrange(0, b - from).last() == v@[b - 1]);
        }
        assert(spec_trim_end_idx(s) == b - from);
    }
    let mut a: usize = from;
    while a < b && ws_char(v[a])
        invariant
            from <= a <= b <= to <= v@.len(),
            s == v@.subrange(from as int, to as int),
            spec_trim_end_idx(s) == b - from,
            spec_skip_ws(s, 0) == spec_skip_ws(s, a - from),
        decreases b - a,
    {
        proof {
            assert(s[a - from] == v@[a as int]);
        }
        a = a + 1;
    }
    proof {
        if a < b {
            assert(s[a - from] == v@[a as int]);
        }
    }
    proof {
        lemma_skip_ws_props(s, a - from);
        if a < b {
            assert(spec_skip_ws(s, a - from) == a - from);
            assert(spec_trim(s) =~= v@.subrange(a as int, b as int));
        } else {
            assert(spec_skip_ws(s, 0) >= b - from);
            assert(spec_trim(s) =~= v@.subrange(a as int, b as int));
        }
    }
    (a, b)
}

/// Opening minus closing braces on one line.
pub open spec fn spec_brace_delta(line: Seq<char>) -> int {
    count_char(line, '{') - count_char(line, '}')
}

/// How many lines a balanced-brace scan takes, starting at nesting
/// depth `d`: lines accumulate while the running depth is non-zero, and
/// the line on which it returns to zero is included.
pub open spec fn spec_take_balanced(lines: Seq<Seq<char>>, d: int) -> int
    decreases lines.len(),
{
    if lines.len() == 0 {
        0
    } else {
        let d2 = d + spec_brace_delta(lines[0]);
        if d2 == 0 {
            1
        } else {
            1 + spec_take_balanced(lines.drop_first(), d2)
        }
    }
}

pub proof fn lemma_take_balanced_bounds(lines: Seq<Seq<char>>, d: int)
    ensures
        0 <= spec_take_balanced(lines, d) <= lines.len(),
    decreases lines.len(),
{
    if lines.len() > 0 {
        lemma_take_balanced_bounds(lines.drop_first(), d + spec_brace_delta(lines[0]));
    }
}

/// The given lines, each re-terminated by `'\n'`, concatenated.
pub open spec fn spec_concat_nl(lines: Seq<Seq<char>>) -> Seq<char>
    decreases lines.len(),
{
    if lines.len() == 0 {
        Seq::empty()
    } else {
        spec_concat_nl(lines.drop_last()) + lines.last() + seq!['\n']
    }
}

/// The given lines joined by `'\n'`, with no trailing terminator.
pub open spec fn spec_join_nl(lines: Seq<Seq<char>>) -> Seq<char>
    decreases lines.len(),
{
    if lines.len() == 0 {
        Seq::empty()
    } else if lines.len() == 1 {
        lines[0]
    } else {
        spec_join_nl(lines.drop_last()) + seq!['\n'] + lines.last()
    }
}

/// A line terminated by `'\n'` loses a final `'\r'`; the rest keeps it.
pub open spec fn strip_cr(s: Seq<char>) -> Seq<char> {
    if s.len() > 0 && s[s.len() - 1] == '\r' {
        s.drop_last()
    } else {
        s
    }
}

/// The lines of the suffix `s[from..]`, in the standard library's sense.
pub open spec fn spec_lines_from(s: Seq<char>, from: int) -> Seq<Seq<char>>
    decreases s.len() - from,
{
    if from < 0 || from >= s.len() {
        Seq::empty()
    } else {
        match spec_find_at(s, '\n', from) {
            None => seq![s.subrange(from, s.len() as int)],
            Some(j) => if from <= j < s.len() {
                seq![strip_cr(s.subrange(from, j))] + spec_lines_from(s, j + 1)
            } else {
                Seq::empty()
            },
        }
    }
}

/// The bounds of one line: the range `[start, end)` of its characters.
#[derive(Clone, Copy, PartialEq, Eq, Structural, Debug)]
pub struct LineRange {
    pub start: usize,
    pub end: usize,
}

/// Line ranges of the suffix `v[from..]`: the `k`-th range delimits the
/// `k`-th line of the suffix, `'\r'`/`'\n'` terminators excluded.
pub fn line_ranges(v: &Vec<char>, from: usize) -> (r: Vec<LineRange>)
    requires
        from <= v@.len(),
    ensures
        r@.len() == spec_lines_from(v@, from as int).len(),
        forall|k: int|
            0 <= k < r@.len() ==> from <= #[trigger] r@[k].start <= r@[k].end <= v@.len()
                && spec_lines_from(v@, from as int)[k] == v@.subrange(
                r@[k].start as int,
                r@[k].end as int,
            ),
        forall|k: int| 0 <= k && k + 1 < r@.len() ==> (#[trigger] r@[k].end) < r@[k + 1].start,
{
    let n = v.len();
    let mut r: Vec<LineRange> = Vec::new();
    let mut i: usize = from;
    while i < n
        invariant
            from <= i <= n == v@.len(),
            spec_lines_from(v@, from as int) =~= r@.map_values(
                |lr: LineRange| v@.subrange(lr.start as int, lr.end as int),
            ) + spec_lines_from(v@, i as int),
            forall|k: int|
                0 <= k < r@.len() ==> from <= #[trigger] r@[k].start <= r@[k].end <= v@.len(),
            forall|k: int| 0 <= k && k + 1 < r@.len() ==> (#[trigger] r@[k].end) < r@[k + 1].start,
            r@.len() > 0 ==> r@.last().end < i || i >= n,
        decreases n - i,
    {
        let ghost done = r@.map_values(|lr: LineRange| v@.subrange(lr.start as int, lr.end as int));
        match find_char_at(v, '\n', i) {
            Some(j) => {
                proof {
                    lemma_find_at_props(v@, '\n', i as int);
                }
                let end = if j > i && v[j - 1] == '\r' {
                    j - 1
                } else {
                    j
                };
                proof {
                    assert(strip_cr(v@.subrange(i as int, j as int)) =~= v@.subrange(
                        i as int,
                        end as int,
                    ));
                }
                let ghost prev = r@;
                r.push(LineRange { start: i, end });
                proof {
                    assert(r@.map_values(
                        |lr: LineRange| v@.subrange(lr.start as int, lr.end as int),
                    ) =~= done.push(v@.subrange(i as int, end as int)));
                    assert forall|k: int| 0 <= k && k + 1 < r@.len() implies (#[trigger] r@[k].end)
                        < r@[k + 1].start by {
                        if k + 1 < prev.len() {
                            assert(r@[k] == prev[k]);
                            assert(r@[k + 1] == prev[k + 1]);
                        } else {
                            assert(r@[k] == prev.last());
                            assert(r@[k + 1].start == i);
                        }
                    }
                }
                i = j + 1;
            },
            None => {
                proof {
                    lemma_find_at_props(v@, '\n', i as int);
                }
                let ghost prev = r@;
                r.push(LineRange { start: i, end: n });
                proof {
                    assert(r@.map_values(
                        |lr: LineRange| v@.subrange(lr.start as int, lr.end as int),
                    ) =~= done.push(v@.subrange(i as int, n as int)));
                    assert forall|k: int| 0 <= k && k + 1 < r@.len() implies (#[trigger] r@[k].end)
                        < r@[k + 1].start by {
                        if k + 1 < prev.len() {
                            assert(r@[k] == prev[k]);
                            assert(r@[k + 1] == prev[k + 1]);
                        } else {
                            assert(r@[k] == prev.last());
                            assert(r@[k + 1].start == i);
                        }
                    }
                }
                i = n;
                proof {
                    assert(spec_lines_from(v@, i as int) =~= Seq::<Seq<char>>::empty());
                }
            },
        }
    }
    proof {
        let m = r@.map_values(|lr: LineRange| v@.subrange(lr.start as int, lr.end as int));
        assert(spec_lines_from(v@, from as int) =~= m);
        assert forall|k: int| 0 <= k < r@.len() implies spec_lines_from(v@, from as int)[k]
            == v@.subrange(r@[k].start as int, r@[k].end as int) by {
            assert(m[k] == v@.subrange(r@[k].start as int, r@[k].end as int));
        }
    }
    r
}

} // verus!
