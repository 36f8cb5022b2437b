//! Extracting confidence-scored insights from model text, and turning the
//! confident ones into a delta.

use vstd::prelude::*;
use crate::bullets::create_bullet;
use crate::platform::now_micros;
use crate::scan::{line_end, line_end_from, skip_ws, skip_ws_from, tag_at, tag_at_pos, trimmed, trimmed_text};
use crate::text::{chars_of, views};
use crate::types::{ContextBullet, DeltaUpdate, Insight, FULL_CONFIDENCE};

verus! {

/// The lowest confidence, in millionths, of an insight that reaches memory.
pub const MIN_CONFIDENCE: u32 = 500000;

/// The tag that opens an insight.
pub open spec fn content_tag() -> Seq<char> {
    seq!['[', 'C', 'O', 'N', 'T', 'E', 'N', 'T', ':']
}

/// The tag before an insight's type.
pub open spec fn type_tag() -> Seq<char> {
    seq!['T', 'Y', 'P', 'E', ':']
}

/// The tag before an insight's confidence.
pub open spec fn confidence_tag() -> Seq<char> {
    seq!['C', 'O', 'N', 'F', 'I', 'D', 'E', 'N', 'C', 'E', ':']
}

/// A character of a confidence number: a decimal digit or `.`.
pub open spec fn is_num_char(c: char) -> bool {
    ('0' <= c <= '9') || c == '.'
}

/// The first position at or after `i` that holds no number character.
pub open spec fn num_end(s: Seq<char>, i: int) -> int
    decreases s.len() - i,
{
    if 0 <= i < s.len() && is_num_char(s[i]) {
        num_end(s, i + 1)
    } else {
        i
    }
}

/// Where the text after the tag that follows a `;` at `e` starts.
pub open spec fn after_tag(s: Seq<char>, e: int, tag_len: int) -> int {
    skip_ws(s, skip_ws(s, e + 1) + tag_len)
}

/// At `e`: `;`, white space, and the type tag.
pub open spec fn type_sep_at(s: Seq<char>, e: int) -> bool {
    &&& 0 <= e < s.len()
    &&& s[e] == ';'
    &&& tag_at(s, skip_ws(s, e + 1), type_tag())
}

/// At `e`: `;`, white space, the confidence tag, white space, a number, `]`.
pub open spec fn confidence_sep_at(s: Seq<char>, e: int) -> bool {
    &&& 0 <= e < s.len()
    &&& s[e] == ';'
    &&& tag_at(s, skip_ws(s, e + 1), confidence_tag())
    &&& after_tag(s, e, 11) < num_end(s, after_tag(s, e, 11))
    &&& num_end(s, after_tag(s, e, 11)) < s.len()
    &&& s[num_end(s, after_tag(s, e, 11))] == ']'
}

/// The first position in `[e, hi)` where `type_sep_at` holds.
pub open spec fn first_type_sep(s: Seq<char>, e: int, hi: int) -> Option<int>
    decreases hi - e,
{
    if e < 0 || e >= hi {
        None
    } else if type_sep_at(s, e) {
        Some(e)
    } else {
        first_type_sep(s, e + 1, hi)
    }
}

/// The first position in `[e, hi)` where `confidence_sep_at` holds.
pub open spec fn first_confidence_sep(s: Seq<char>, e: int, hi: int) -> Option<int>
    decreases hi - e,
{
    if e < 0 || e >= hi {
        None
    } else if confidence_sep_at(s, e) {
        Some(e)
    } else {
        first_confidence_sep(s, e + 1, hi)
    }
}

/// Where the content of an insight opening at `i` starts.
pub open spec fn content_start(s: Seq<char>, i: int) -> int {
    skip_ws(s, i + 9)
}

/// Where the content of an insight opening at `i` ends: at the first
/// `; Type:` on its line, after at least one character.
pub open spec fn content_end(s: Seq<char>, i: int) -> Option<int> {
    let c0 = content_start(s, i);
    if c0 < s.len() {
        first_type_sep(s, c0 + 1, line_end(s, c0))
    } else {
        None
    }
}

/// Where the type that follows a content ending at `ce` starts.
pub open spec fn type_start(s: Seq<char>, ce: int) -> int {
    after_tag(s, ce, 5)
}

/// Where the type that starts at `t0` ends: at the first
/// `; Confidence: <number>]` on its line, after at least one character.
pub open spec fn type_end(s: Seq<char>, t0: int) -> Option<int> {
    if t0 < s.len() {
        first_confidence_sep(s, t0 + 1, line_end(s, t0))
    } else {
        None
    }
}

/// A whole insight opens at `i`.
pub open spec fn insight_at(s: Seq<char>, i: int) -> bool {
    &&& tag_at(s, i, content_tag())
    &&& content_end(s, i) is Some
    &&& type_end(s, type_start(s, content_end(s, i)->0)) is Some
}

/// The first position at or after `i` where a whole insight opens.
pub open spec fn first_insight(s: Seq<char>, i: int) -> Option<int>
    decreases s.len() - i,
{
    if i < 0 || i >= s.len() {
        None
    } else if insight_at(s, i) {
        Some(i)
    } else {
        first_insight(s, i + 1)
    }
}

/// Where the type of the insight at `i` ends.
pub open spec fn insight_type_end(s: Seq<char>, i: int) -> int {
    type_end(s, type_start(s, content_end(s, i)->0))->0
}

/// Where the number of the insight at `i` starts.
pub open spec fn number_start(s: Seq<char>, i: int) -> int {
    after_tag(s, insight_type_end(s, i), 11)
}

/// Where the number of the insight at `i` ends (at its closing `]`).
pub open spec fn number_end(s: Seq<char>, i: int) -> int {
    num_end(s, number_start(s, i))
}

/// The first position in `[a, b)` that holds `.`, or `b`.
pub open spec fn dot_pos(s: Seq<char>, a: int, b: int) -> int
    decreases b - a,
{
    if a < b && s[a] != '.' {
        dot_pos(s, a + 1, b)
    } else {
        a
    }
}

/// The value of the decimal digits in `[a, b)`.
pub open spec fn digits_value(s: Seq<char>, a: int, b: int) -> int
    decreases b - a,
{
    if a >= b {
        0
    } else {
        10 * digits_value(s, a, b - 1) + (s[b - 1] as int - 48)
    }
}

/// The first `k` digits of `[a, b)`, padded with zeros, as a number.
pub open spec fn padded_digits(s: Seq<char>, a: int, b: int, k: nat) -> int
    decreases k,
{
    if k == 0 {
        0
    } else {
        10 * padded_digits(s, a, b, (k - 1) as nat) + (if a + k - 1 < b {
            s[a + k - 1] as int - 48
        } else {
            0
        })
    }
}

/// Where the fraction digits of the number in `[a, b)` start.
pub open spec fn fraction_start(s: Seq<char>, a: int, b: int) -> int {
    if dot_pos(s, a, b) < b {
        dot_pos(s, a, b) + 1
    } else {
        b
    }
}

/// The number characters in `[a, b)` form a number in `[0, 1]`: at least
/// one digit, at most one `.`, and a value no greater than one.
pub open spec fn valid_confidence(s: Seq<char>, a: int, b: int) -> bool {
    let d = dot_pos(s, a, b);
    let f = fraction_start(s, a, b);
    &&& dot_pos(s, f, b) == b
    &&& (d > a || b > f)
    &&& (digits_value(s, a, d) == 0 || (digits_value(s, a, d) == 1 && digits_value(s, f, b) == 0))
}

/// The number in `[a, b)` in millionths, rounded down.
pub open spec fn confidence_value(s: Seq<char>, a: int, b: int) -> int {
    if digits_value(s, a, dot_pos(s, a, b)) == 1 {
        FULL_CONFIDENCE as int
    } else {
        padded_digits(s, fraction_start(s, a, b), b, 6)
    }
}

/// What an insight holds: content, type and confidence in millionths.
pub open spec fn found_at(s: Seq<char>, i: int) -> (Seq<char>, Seq<char>, int) {
    let c0 = content_start(s, i);
    let ce = content_end(s, i)->0;
    let t0 = type_start(s, ce);
    (
        trimmed(s, c0, ce),
        trimmed(s, t0, insight_type_end(s, i)),
        confidence_value(s, number_start(s, i), number_end(s, i)),
    )
}

/// The insights found from `pos` on: each whole insight, left to right and
/// without overlap, that carries a valid confidence.
pub open spec fn found_from(s: Seq<char>, pos: int) -> Seq<(Seq<char>, Seq<char>, int)>
    decreases s.len() - pos,
{
    match first_insight(s, pos) {
        None => seq![],
        Some(i) => {
            let me = number_end(s, i) + 1;
            if pos < me <= s.len() {
                let rest = found_from(s, me);
                if valid_confidence(s, number_start(s, i), number_end(s, i)) {
                    seq![found_at(s, i)] + rest
                } else {
                    rest
                }
            } else {
                seq![]
            }
        },
    }
}

/// What an insight holds, as mathematical values.
pub open spec fn insight_view(x: Insight) -> (Seq<char>, Seq<char>, int, Seq<char>) {
    (x.content@, x.insight_type@, x.confidence as int, x.source_id@)
}

/// The insights of a response: those found, each with `source_id`; when none
/// is found, a single fallback insight.
pub open spec fn insights_of(s: Seq<char>, source_id: Seq<char>) -> Seq<
    (Seq<char>, Seq<char>, int, Seq<char>),
> {
    let f = found_from(s, 0);
    if f.len() > 0 {
        f.map_values(|x: (Seq<char>, Seq<char>, int)| (x.0, x.1, x.2, source_id))
    } else {
        seq![("Task completed successfully"@, "strategy"@, MIN_CONFIDENCE as int, source_id)]
    }
}

/// Every character before `num_end` is a number character.
proof fn lemma_num_end(s: Seq<char>, i: int)
    requires
        0 <= i,
    ensures
        i <= num_end(s, i),
        num_end(s, i) <= s.len() || num_end(s, i) == i,
        forall|k: int| i <= k < num_end(s, i) ==> #[trigger] is_num_char(s[k]),
    decreases s.len() - i,
{
    if 0 <= i < s.len() && is_num_char(s[i]) {
        lemma_num_end(s, i + 1);
    }
}

/// No character before `dot_pos` is a `.`.
proof fn lemma_dot_pos(s: Seq<char>, a: int, b: int)
    requires
        a <= b,
    ensures
        a <= dot_pos(s, a, b) <= b,
        forall|k: int| a <= k < dot_pos(s, a, b) ==> #[trigger] s[k] != '.',
    decreases b - a,
{
    if a < b && s[a] != '.' {
        lemma_dot_pos(s, a + 1, b);
    }
}

/// The first position at or after `i` that holds no number character.
fn num_end_from(s: &Vec<char>, i: usize) -> (r: usize)
    requires
        i <= s@.len(),
    ensures
        r as int == num_end(s@, i as int),
        i <= r <= s@.len(),
{
    let mut j = i;
    while j < s.len() && (('0' <= s[j] && s[j] <= '9') || s[j] == '.')
        invariant
            i <= j <= s@.len(),
            num_end(s@, i as int) == num_end(s@, j as int),
        decreases s@.len() - j,
    {
        j = j + 1;
    }
    j
}

/// The first position in `[a, b)` that holds `.`, or `b`.
fn dot_pos_in(s: &Vec<char>, a: usize, b: usize) -> (r: usize)
    requires
        a <= b <= s@.len(),
    ensures
        r as int == dot_pos(s@, a as int, b as int),
        a <= r <= b,
{
    let mut j = a;
    while j < b && s[j] != '.'
        invariant
            a <= j <= b <= s@.len(),
            dot_pos(s@, a as int, b as int) == dot_pos(s@, j as int, b as int),
        decreases b - j,
    {
        j = j + 1;
    }
    j
}

/// The value of the digits in `[a, b)`, or `cap` if it is larger.
fn digits_capped(s: &Vec<char>, a: usize, b: usize, cap: u64) -> (r: u64)
    requires
        a <= b <= s@.len(),
        cap <= 10,
        forall|k: int| a <= k < b ==> '0' <= #[trigger] s@[k] <= '9',
    ensures
        r == if digits_value(s@, a as int, b as int) < cap {
            digits_value(s@, a as int, b as int)
        } else {
            cap as int
        },
{
    let mut v: u64 = 0;
    let mut k = a;
    while k < b
        invariant
            a <= k <= b <= s@.len(),
            cap <= 10,
            forall|q: int| a <= q < b ==> '0' <= #[trigger] s@[q] <= '9',
            digits_value(s@, a as int, k as int) >= 0,
            v == if digits_value(s@, a as int, k as int) < cap {
                digits_value(s@, a as int, k as int)
            } else {
                cap as int
            },
        decreases b - k,
    {
        let d = (s[k] as u32 - 48) as u64;
        let w = 10 * v + d;
        v = if w < cap { w } else { cap };
        k = k + 1;
    }
    v
}

/// The first six digits of `[a, b)`, padded with zeros, as a number.
fn padded_six(s: &Vec<char>, a: usize, b: usize) -> (r: u32)
    requires
        a <= b <= s@.len(),
        forall|k: int| a <= k < b ==> '0' <= #[trigger] s@[k] <= '9',
    ensures
        r == padded_digits(s@, a as int, b as int, 6),
        r < FULL_CONFIDENCE,
{
    let mut v: u32 = 0;
    let mut k: usize = 0;
    while k < 6
        invariant
            a <= b <= s@.len(),
            forall|q: int| a <= q < b ==> '0' <= #[trigger] s@[q] <= '9',
            k <= 6,
            v == padded_digits(s@, a as int, b as int, k as nat),
            k == 0 ==> v < 1,
            k == 1 ==> v < 10,
            k == 2 ==> v < 100,
            k == 3 ==> v < 1000,
            k == 4 ==> v < 10000,
            k == 5 ==> v < 100000,
            k == 6 ==> v < 1000000,
        decreases 6 - k,
    {
        let d: u32 = if k < b - a {
            s[a + k] as u32 - 48
        } else {
            0
        };
        v = 10 * v + d;
        k = k + 1;
    }
    v
}

/// Whether the number characters in `[a, b)` form a number in `[0, 1]`, and
/// if so its value in millionths.
fn read_confidence(s: &Vec<char>, a: usize, b: usize) -> (r: Option<u32>)
    requires
        a <= b <= s@.len(),
        forall|k: int| a <= k < b ==> #[trigger] is_num_char(s@[k]),
    ensures
        r is Some <==> valid_confidence(s@, a as int, b as int),
        r matches Some(v) ==> v == confidence_value(s@, a as int, b as int) && v <= FULL_CONFIDENCE,
{
    let d = dot_pos_in(s, a, b);
    proof {
        lemma_dot_pos(s@, a as int, b as int);
    }
    let f = if d < b { d + 1 } else { b };
    let d2 = dot_pos_in(s, f, b);
    proof {
        lemma_dot_pos(s@, f as int, b as int);
    }
    if d2 != b || !(d > a || b > f) {
        return None;
    }
    assert(forall|k: int| a <= k < d ==> '0' <= #[trigger] s@[k] <= '9') by {
        assert forall|k: int| a <= k < d implies '0' <= #[trigger] s@[k] <= '9' by {
            assert(is_num_char(s@[k]));
            assert(s@[k] != '.');
        }
    }
    assert(forall|k: int| f <= k < b ==> '0' <= #[trigger] s@[k] <= '9') by {
        assert forall|k: int| f <= k < b implies '0' <= #[trigger] s@[k] <= '9' by {
            assert(is_num_char(s@[k]));
            assert(s@[k] != '.');
        }
    }
    let iv = digits_capped(s, a, d, 2);
    let fz = digits_capped(s, f, b, 1);
    if iv == 0 {
        Some(padded_six(s, f, b))
    } else if iv == 1 && fz == 0 {
        Some(FULL_CONFIDENCE)
    } else {
        None
    }
}

/// Whether `type_sep_at` holds at `e`.
fn type_sep_pos(s: &Vec<char>, e: usize) -> (r: bool)
    ensures
        r == type_sep_at(s@, e as int),
{
    if e >= s.len() || s[e] != ';' {
        return false;
    }
    let tag = vec!['T', 'Y', 'P', 'E', ':'];
    assert(tag@ == type_tag());
    let j = skip_ws_from(s, e + 1);
    tag_at_pos(s, j, &tag)
}

/// Whether `confidence_sep_at` holds at `e`.
fn confidence_sep_pos(s: &Vec<char>, e: usize) -> (r: bool)
    ensures
        r == confidence_sep_at(s@, e as int),
{
    if e >= s.len() || s[e] != ';' {
        return false;
    }
    let tag = vec!['C', 'O', 'N', 'F', 'I', 'D', 'E', 'N', 'C', 'E', ':'];
    assert(tag@ == confidence_tag());
    let j = skip_ws_from(s, e + 1);
    if !tag_at_pos(s, j, &tag) {
        return false;
    }
    let f0 = skip_ws_from(s, j + 11);
    let f1 = num_end_from(s, f0);
    f0 < f1 && f1 < s.len() && s[f1] == ']'
}

/// The first position in `[e, hi)` where `type_sep_at` holds.
fn find_type_sep(s: &Vec<char>, e: usize, hi: usize) -> (r: Option<usize>)
    requires
        e <= hi <= s@.len(),
    ensures
        r is None ==> first_type_sep(s@, e as int, hi as int) is None,
        r matches Some(x) ==> first_type_sep(s@, e as int, hi as int) == Some(x as int)
            && type_sep_at(s@, x as int) && e <= x < hi,
{
    let mut k = e;
    while k < hi
        invariant
            e <= k <= hi <= s@.len(),
            first_type_sep(s@, e as int, hi as int) == first_type_sep(s@, k as int, hi as int),
        decreases hi - k,
    {
        if type_sep_pos(s, k) {
            return Some(k);
        }
        k = k + 1;
    }
    None
}

/// The first position in `[e, hi)` where `confidence_sep_at` holds.
fn find_confidence_sep(s: &Vec<char>, e: usize, hi: usize) -> (r: Option<usize>)
    requires
        e <= hi <= s@.len(),
    ensures
        r is None ==> first_confidence_sep(s@, e as int, hi as int) is None,
        r matches Some(x) ==> first_confidence_sep(s@, e as int, hi as int) == Some(x as int)
            && confidence_sep_at(s@, x as int) && e <= x < hi,
{
    let mut k = e;
    while k < hi
        invariant
            e <= k <= hi <= s@.len(),
            first_confidence_sep(s@, e as int, hi as int) == first_confidence_sep(
                s@,
                k as int,
                hi as int,
            ),
        decreases hi - k,
    {
        if confidence_sep_pos(s, k) {
            return Some(k);
        }
        k = k + 1;
    }
    None
}

/// The positions of the insight that opens at `i`, if a whole one does:
/// content start and end, type start and end.
fn insight_parts(s: &Vec<char>, i: usize) -> (r: Option<(usize, usize, usize, usize)>)
    ensures
        r is Some <==> insight_at(s@, i as int),
        r matches Some(p) ==> {
            &&& p.0 == content_start(s@, i as int)
            &&& content_end(s@, i as int) == Some(p.1 as int)
            &&& p.2 == type_start(s@, p.1 as int)
            &&& type_end(s@, p.2 as int) == Some(p.3 as int)
            &&& type_sep_at(s@, p.1 as int)
            &&& confidence_sep_at(s@, p.3 as int)
            &&& p.0 <= p.1 && p.2 <= p.3
        },
{
    let tag = vec!['[', 'C', 'O', 'N', 'T', 'E', 'N', 'T', ':'];
    assert(tag@ == content_tag());
    assert(content_tag().len() == 9);
    if !tag_at_pos(s, i, &tag) {
        return None;
    }
    assert(i + 9 <= s.len());
    let c0 = skip_ws_from(s, i + 9);
    if c0 >= s.len() {
        return None;
    }
    let c_hi = line_end_from(s, c0);
    if c0 + 1 > c_hi {
        return None;
    }
    let ce = match find_type_sep(s, c0 + 1, c_hi) {
        Some(ce) => ce,
        None => {
            return None;
        },
    };
    let j = skip_ws_from(s, ce + 1);
    assert(type_tag().len() == 5);
    let t0 = skip_ws_from(s, j + 5);
    if t0 >= s.len() {
        return None;
    }
    let t_hi = line_end_from(s, t0);
    if t0 + 1 > t_hi {
        return None;
    }
    match find_confidence_sep(s, t0 + 1, t_hi) {
        Some(te) => Some((c0, ce, t0, te)),
        None => None,
    }
}

/// The first position at or after `pos` where a whole insight opens.
fn find_insight(s: &Vec<char>, pos: usize) -> (r: Option<(usize, (usize, usize, usize, usize))>)
    ensures
        r is None ==> first_insight(s@, pos as int) is None,
        r matches Some(x) ==> {
            &&& first_insight(s@, pos as int) == Some(x.0 as int)
            &&& x.1.0 == content_start(s@, x.0 as int)
            &&& content_end(s@, x.0 as int) == Some(x.1.1 as int)
            &&& x.1.2 == type_start(s@, x.1.1 as int)
            &&& type_end(s@, x.1.2 as int) == Some(x.1.3 as int)
            &&& type_sep_at(s@, x.1.1 as int)
            &&& confidence_sep_at(s@, x.1.3 as int)
            &&& x.1.0 <= x.1.1 && x.1.2 <= x.1.3
        },
{
    let mut i = pos;
    while i < s.len()
        invariant
            pos <= i,
            first_insight(s@, pos as int) == first_insight(s@, i as int),
        decreases s@.len() - i,
    {
        match insight_parts(s, i) {
            Some(p) => {
                return Some((i, p));
            },
            None => {},
        }
        i = i + 1;
    }
    None
}

/// What the insights found so far hold.
pub open spec fn found_views(v: Seq<Insight>) -> Seq<(Seq<char>, Seq<char>, int)> {
    v.map_values(|x: Insight| (x.content@, x.insight_type@, x.confidence as int))
}

/// The insights that `response` states as `[Content: C; Type: T; Confidence:
/// F]` (tags in any case), left to right, each tagged with `source_id`; an
/// insight whose confidence is not a number in `[0, 1]` is dropped. When none
/// is left, a single fallback insight ("Task completed successfully", of type
/// "strategy", confidence one half).
pub fn parse_insights_response(response: &str, source_id: String) -> (r: Vec<Insight>)
    ensures
        r@.map_values(|x: Insight| insight_view(x)) == insights_of(response@, source_id@),
        forall|k: int| 0 <= k < r@.len() ==> #[trigger] r@[k].confidence <= FULL_CONFIDENCE,
{
    let s = chars_of(response);
    let n = s.len();
    let mut out: Vec<Insight> = Vec::new();
    let mut pos: usize = 0;
    loop
        invariant
            s@ == response@,
            n == s@.len(),
            pos <= n,
            found_views(out@) + found_from(s@, pos as int) == found_from(s@, 0),
            forall|k: int| 0 <= k < out@.len() ==> (#[trigger] out@[k]).source_id@ == source_id@
                && out@[k].confidence <= FULL_CONFIDENCE,
        ensures
            found_views(out@) == found_from(s@, 0),
            forall|k: int| 0 <= k < out@.len() ==> (#[trigger] out@[k]).source_id@ == source_id@
                && out@[k].confidence <= FULL_CONFIDENCE,
        decreases n - pos,
    {
        match find_insight(&s, pos) {
            None => {
                assert(found_views(out@) + found_from(s@, pos as int) =~= found_views(out@));
                break;
            },
            Some((i, (c0, ce, t0, te))) => {
                let cj = skip_ws_from(&s, te + 1);
                assert(confidence_tag().len() == 11);
                assert(cj + 11 <= s.len());
                let f0 = skip_ws_from(&s, cj + 11);
                let f1 = num_end_from(&s, f0);
                proof {
                    lemma_num_end(s@, f0 as int);
                }
                assert(f0 as int == number_start(s@, i as int));
                assert(f1 as int == number_end(s@, i as int));
                let me = f1 + 1;
                if !(pos < me && me <= n) {
                    assert(found_views(out@) + found_from(s@, pos as int) =~= found_views(out@));
                    break;
                }
                let ghost rest = found_from(s@, me as int);
                match read_confidence(&s, f0, f1) {
                    Some(c) => {
                        let content = trimmed_text(response, &s, c0, ce);
                        let itype = trimmed_text(response, &s, t0, te);
                        let ghost before = out@;
                        out.push(
                            Insight {
                                content,
                                insight_type: itype,
                                confidence: c,
                                source_id: source_id.clone(),
                            },
                        );
                        assert(found_views(out@) =~= found_views(before).push(found_at(s@, i as int)));
                        assert(found_from(s@, pos as int) == seq![found_at(s@, i as int)] + rest);
                        assert(found_views(out@) + rest =~= found_views(before) + (seq![found_at(s@, i as int)] + rest));
                    },
                    None => {
                        assert(found_from(s@, pos as int) == rest);
                    },
                }
                pos = me;
            },
        }
    }
    if out.len() == 0 {
        out.push(
            Insight {
                content: String::from_str("Task completed successfully"),
                insight_type: String::from_str("strategy"),
                confidence: MIN_CONFIDENCE,
                source_id,
            },
        );
        assert(out@.map_values(|x: Insight| insight_view(x)) =~= insights_of(response@, source_id@));
    } else {
        let ghost f = found_from(s@, 0);
        let ghost lhs = out@.map_values(|x: Insight| insight_view(x));
        let ghost rhs = f.map_values(|x: (Seq<char>, Seq<char>, int)| (x.0, x.1, x.2, source_id@));
        assert forall|k: int| 0 <= k < out@.len() implies #[trigger] lhs[k] == rhs[k] by {
            assert(found_views(out@)[k] == f[k]);
        }
        assert(lhs =~= rhs);
    }
    out
}

/// The insights of `s` with a confidence of at least one half, in order.
pub open spec fn confident(s: Seq<Insight>) -> Seq<Insight>
    decreases s.len(),
{
    if s.len() == 0 {
        seq![]
    } else if s.last().confidence >= MIN_CONFIDENCE {
        confident(s.drop_last()).push(s.last())
    } else {
        confident(s.drop_last())
    }
}

/// Every insight kept by `confident` has a confidence of at least one half.
pub proof fn lemma_confident_only(s: Seq<Insight>)
    ensures
        forall|k: int| 0 <= k < confident(s).len() ==> #[trigger] confident(s)[k].confidence
            >= MIN_CONFIDENCE,
        confident(s).len() <= s.len(),
    decreases s.len(),
{
    if s.len() > 0 {
        lemma_confident_only(s.drop_last());
    }
}

/// A delta of new bullets, one per insight whose confidence is at least one
/// half, in order; each bullet holds the insight's content and its type as
/// the only tag. Less confident insights are dropped.
pub fn insights_to_delta(insights: Vec<Insight>) -> (r: DeltaUpdate)
    ensures
        r.bullets@.len() == confident(insights@).len(),
        forall|k: int| 0 <= k < r.bullets@.len() ==> {
            &&& (#[trigger] r.bullets@[k]).content@ == confident(insights@)[k].content@
            &&& views(r.bullets@[k].tags@) == seq![confident(insights@)[k].insight_type@]
            &&& r.bullets@[k].helpful_count == 0
            &&& r.bullets@[k].harmful_count == 0
            &&& confident(insights@)[k].confidence >= MIN_CONFIDENCE
        },
{
    proof {
        lemma_confident_only(insights@);
    }
    let mut bullets: Vec<ContextBullet> = Vec::new();
    let mut i: usize = 0;
    while i < insights.len()
        invariant
            i <= insights@.len(),
            bullets@.len() == confident(insights@.take(i as int)).len(),
            forall|k: int| 0 <= k < bullets@.len() ==> {
                &&& (#[trigger] bullets@[k]).content@ == confident(insights@.take(i as int))[k].content@
                &&& views(bullets@[k].tags@) == seq![confident(insights@.take(i as int))[k].insight_type@]
                &&& bullets@[k].helpful_count == 0
                &&& bullets@[k].harmful_count == 0
            },
        decreases insights@.len() - i,
    {
        assert(insights@.take(i + 1).drop_last() =~= insights@.take(i as int));
        assert(insights@.take(i + 1).last() == insights@[i as int]);
        if insights[i].confidence >= MIN_CONFIDENCE {
            let tags = vec![insights[i].insight_type.clone()];
            assert(views(tags@) =~= seq![insights@[i as int].insight_type@]);
            let b = create_bullet(insights[i].content.clone(), tags);
            bullets.push(b);
        }
        i = i + 1;
    }
    assert(insights@.take(insights@.len() as int) =~= insights@);
    DeltaUpdate { bullets, timestamp: now_micros() }
}

} // verus!
