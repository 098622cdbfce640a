//! What the library computes around the text-generation collaborator.
//!
//! The collaborator itself — backend selection, credentials, the HTTP
//! calls — is the embedding's concern.  The one computation the
//! pipeline needs from this layer is the whitespace-split token
//! estimate used for performance accounting.

use vstd::prelude::*;

use crate::text::{chars_of, is_ws_char, nonws_end, spec_nonws_end, ws_char};

verus! {

/// How many whitespace-separated words `s` holds from position `i` on.
pub open spec fn spec_token_count(s: Seq<char>, i: int) -> int
    decreases s.len() - i,
{
    if i < 0 || i >= s.len() {
        0
    } else if is_ws_char(s[i]) {
        spec_token_count(s, i + 1)
    } else {
        let e = spec_nonws_end(s, i + 1);
        if i < e <= s.len() {
            1 + spec_token_count(s, e)
        } else {
            0
        }
    }
}

/// A simple token-count approximation: the number of
/// whitespace-separated words.
pub fn calculate_tokens(text: &str) -> (r: usize)
    ensures
        r as int == spec_token_count(text@, 0),
        r <= text@.len(),
{
    let v = chars_of(text);
    let n = v.len();
    let mut r: usize = 0;
    let mut i: usize = 0;
    while i < n
        invariant
            i <= n == v@.len(),
            v@ == text@,
            r <= i,
            spec_token_count(v@, 0) == r + spec_token_count(v@, i as int),
        decreases n - i,
    {
        if ws_char(v[i]) {
            i = i + 1;
        } else {
            let e = nonws_end(&v, i + 1);
            r = r + 1;
            i = e;
        }
    }
    r
}

} // verus!
