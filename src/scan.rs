//! Position-based scanning over the characters of a text: case-insensitive
//! tags, white-space runs, lines and trimmed spans.

use vstd::prelude::*;
use crate::text::{is_whitespace, is_ws, substring};

verus! {

/// Whether `c` matches the pattern character `p` without regard to case;
/// for an upper-case ASCII letter that is also its lower-case form and any
/// other character that folds to it (`ſ` for `S`, the Kelvin sign for `K`).
pub open spec fn ci_match(c: char, p: char) -> bool {
    ||| c == p
    ||| ('A' <= p <= 'Z' && c as u32 == p as u32 + 32)
    ||| (p == 'S' && c as u32 == 0x17f)
    ||| (p == 'K' && c as u32 == 0x212a)
}

/// Whether the pattern `pat` occurs in `s` at `i`, without regard to case.
pub open spec fn tag_at(s: Seq<char>, i: int, pat: Seq<char>) -> bool {
    &&& 0 <= i
    &&& i + pat.len() <= s.len()
    &&& forall|k: int| 0 <= k < pat.len() ==> #[trigger] ci_match(s[i + k], pat[k])
}

/// The first position at or after `i` that is not white space (or the end).
pub open spec fn skip_ws(s: Seq<char>, i: int) -> int
    decreases s.len() - i,
{
    if 0 <= i < s.len() && is_ws(s[i]) {
        skip_ws(s, i + 1)
    } else {
        i
    }
}

/// The first position at or after `i` that holds a line break (or the end).
pub open spec fn line_end(s: Seq<char>, i: int) -> int
    decreases s.len() - i,
{
    if 0 <= i < s.len() && s[i] != '\n' {
        line_end(s, i + 1)
    } else {
        i
    }
}

/// The last position at or after `lo` and at or before `hi` that follows no
/// white space inside the span (`hi` with trailing white space dropped).
pub open spec fn trim_end(s: Seq<char>, lo: int, hi: int) -> int
    decreases hi - lo,
{
    if lo < hi && is_ws(s[hi - 1]) {
        trim_end(s, lo, hi - 1)
    } else {
        hi
    }
}

/// The span `[lo, hi)` of `s` without white space at either end.
pub open spec fn trimmed(s: Seq<char>, lo: int, hi: int) -> Seq<char> {
    let a = skip_ws(s.take(hi), lo);
    s.subrange(a, trim_end(s, a, hi))
}

/// Whether `c` matches `p` without regard to case.
pub fn ci_matches(c: char, p: char) -> (r: bool)
    ensures
        r == ci_match(c, p),
{
    let u = c as u32;
    let q = p as u32;
    c == p || ('A' <= p && p <= 'Z' && u == q + 32) || (p == 'S' && u == 0x17f) || (p == 'K'
        && u == 0x212a)
}

/// Whether `pat` occurs in `s` at `i`, without regard to case.
pub fn tag_at_pos(s: &Vec<char>, i: usize, pat: &Vec<char>) -> (r: bool)
    ensures
        r == tag_at(s@, i as int, pat@),
{
    if i > s.len() || pat.len() > s.len() - i {
        return false;
    }
    let mut k: usize = 0;
    while k < pat.len()
        invariant
            i + pat@.len() <= s.len(),
            k <= pat@.len(),
            forall|q: int| 0 <= q < k ==> #[trigger] ci_match(s@[i + q], pat@[q]),
        decreases pat@.len() - k,
    {
        if !ci_matches(s[i + k], pat[k]) {
            return false;
        }
        k = k + 1;
    }
    true
}

/// The first position at or after `i` that is not white space.
pub fn skip_ws_from(s: &Vec<char>, i: usize) -> (r: usize)
    requires
        i <= s@.len(),
    ensures
        r as int == skip_ws(s@, i as int),
        i <= r <= s@.len(),
{
    let mut j = i;
    while j < s.len() && is_whitespace(s[j])
        invariant
            i <= j <= s@.len(),
            skip_ws(s@, i as int) == skip_ws(s@, j as int),
        decreases s@.len() - j,
    {
        j = j + 1;
    }
    j
}

/// The first position at or after `i` that holds a line break.
pub fn line_end_from(s: &Vec<char>, i: usize) -> (r: usize)
    requires
        i <= s@.len(),
    ensures
        r as int == line_end(s@, i as int),
        i <= r <= s@.len(),
{
    let mut j = i;
    while j < s.len() && s[j] != '\n'
        invariant
            i <= j <= s@.len(),
            line_end(s@, i as int) == line_end(s@, j as int),
        decreases s@.len() - j,
    {
        j = j + 1;
    }
    j
}

proof fn lemma_skip_ws_take(s: Seq<char>, lo: int, hi: int)
    requires
        0 <= lo <= hi <= s.len(),
    ensures
        lo <= skip_ws(s.take(hi), lo) <= hi,
    decreases hi - lo,
{
    if lo < hi && is_ws(s.take(hi)[lo]) {
        lemma_skip_ws_take(s, lo + 1, hi);
    }
}

proof fn lemma_trim_end_bounds(s: Seq<char>, lo: int, hi: int)
    requires
        lo <= hi,
    ensures
        lo <= trim_end(s, lo, hi) <= hi,
    decreases hi - lo,
{
    if lo < hi && is_ws(s[hi - 1]) {
        lemma_trim_end_bounds(s, lo, hi - 1);
    }
}

/// The span `[lo, hi)` of `text` (whose characters are `s`) without white
/// space at either end, as a new string.
pub fn trimmed_text(text: &str, s: &Vec<char>, lo: usize, hi: usize) -> (r: String)
    requires
        s@ == text@,
        lo <= hi <= s@.len(),
    ensures
        r@ == trimmed(s@, lo as int, hi as int),
{
    let ghost t = s@.take(hi as int);
    let mut a = lo;
    while a < hi && is_whitespace(s[a])
        invariant
            lo <= a <= hi <= s@.len(),
            t == s@.take(hi as int),
            skip_ws(t, lo as int) == skip_ws(t, a as int),
        decreases hi - a,
    {
        a = a + 1;
    }
    let mut b = hi;
    while b > a && is_whitespace(s[b - 1])
        invariant
            a <= b <= hi,
            hi <= s@.len(),
            trim_end(s@, a as int, hi as int) == trim_end(s@, a as int, b as int),
        decreases b,
    {
        b = b - 1;
    }
    substring(text, a, b)
}

} // verus!
