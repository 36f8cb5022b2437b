//! Turning free text from the model into a trajectory.
//! Tags are matched without regard to case; whatever cannot be extracted
//! falls back to a fixed value, so parsing never fails.

use vstd::prelude::*;
use crate::platform::now_micros;
use crate::scan::{
    line_end, line_end_from, skip_ws, skip_ws_from, tag_at, tag_at_pos, trimmed, trimmed_text,
};
use crate::text::{chars_of, substring};
use crate::types::{ReasoningStep, Trajectory};

verus! {

/// The step-list tag.
pub open spec fn steps_tag() -> Seq<char> {
    seq!['S', 'T', 'E', 'P', 'S', ':']
}

/// The outcome tag.
pub open spec fn outcome_tag() -> Seq<char> {
    seq!['O', 'U', 'T', 'C', 'O', 'M', 'E', ':']
}

/// The success tag.
pub open spec fn success_tag() -> Seq<char> {
    seq!['S', 'U', 'C', 'C', 'E', 'S', 'S', ':']
}

/// The word `true`.
pub open spec fn true_word() -> Seq<char> {
    seq!['T', 'R', 'U', 'E']
}

/// The word `false`.
pub open spec fn false_word() -> Seq<char> {
    seq!['F', 'A', 'L', 'S', 'E']
}

/// The first position at or after `i` that holds `]` or a line break (or the end).
pub open spec fn bracket_stop(s: Seq<char>, i: int) -> int
    decreases s.len() - i,
{
    if 0 <= i < s.len() && s[i] != ']' && s[i] != '\n' {
        bracket_stop(s, i + 1)
    } else {
        i
    }
}

/// Where the step list that starts at the step tag at `i` opens: past the
/// tag and the white space after it.
pub open spec fn steps_open(s: Seq<char>, i: int) -> int {
    skip_ws(s, i + steps_tag().len())
}

/// `STEPS:`, white space, `[`, then text up to a `]` on the same line.
pub open spec fn steps_at(s: Seq<char>, i: int) -> bool {
    &&& tag_at(s, i, steps_tag())
    &&& steps_open(s, i) < s.len()
    &&& s[steps_open(s, i)] == '['
    &&& bracket_stop(s, steps_open(s, i) + 1) < s.len()
    &&& s[bracket_stop(s, steps_open(s, i) + 1)] == ']'
}

/// The first position at or after `i` where a step list starts.
pub open spec fn first_steps(s: Seq<char>, i: int) -> Option<int>
    decreases s.len() - i,
{
    if i < 0 || i >= s.len() {
        None
    } else if steps_at(s, i) {
        Some(i)
    } else {
        first_steps(s, i + 1)
    }
}

/// The trimmed span `[a, b)` appended to `d` unless it is empty.
pub open spec fn add_piece(d: Seq<Seq<char>>, s: Seq<char>, a: int, b: int) -> Seq<Seq<char>> {
    let t = trimmed(s, a, b);
    if t.len() > 0 {
        d.push(t)
    } else {
        d
    }
}

/// Reading `[lo, i)` of `s`: the non-empty trimmed pieces that a `;` has
/// closed, and where the open piece starts.
pub open spec fn piece_scan(s: Seq<char>, lo: int, i: int) -> (Seq<Seq<char>>, int)
    decreases i - lo,
{
    if i <= lo {
        (seq![], lo)
    } else {
        let (d, ps) = piece_scan(s, lo, i - 1);
        if s[i - 1] == ';' {
            (add_piece(d, s, ps, i - 1), i)
        } else {
            (d, ps)
        }
    }
}

/// The pieces of `[lo, hi)` between semicolons, trimmed, empty ones dropped.
pub open spec fn pieces(s: Seq<char>, lo: int, hi: int) -> Seq<Seq<char>> {
    let (d, ps) = piece_scan(s, lo, hi);
    add_piece(d, s, ps, hi)
}

/// The description of the single step used when no step can be extracted.
pub open spec fn default_step() -> Seq<char> {
    "Processed query"@
}

/// The step descriptions of a response: the pieces of the first step list,
/// or the default step when there is no list or it yields no piece.
pub open spec fn step_descriptions(s: Seq<char>) -> Seq<Seq<char>> {
    match first_steps(s, 0) {
        Some(i) => {
            let o = steps_open(s, i);
            let p = pieces(s, o + 1, bracket_stop(s, o + 1));
            if p.len() > 0 {
                p
            } else {
                seq![default_step()]
            }
        },
        None => seq![default_step()],
    }
}

/// `OUTCOME:`, then, past white space, at least one more character.
pub open spec fn outcome_at(s: Seq<char>, i: int) -> bool {
    &&& tag_at(s, i, outcome_tag())
    &&& skip_ws(s, i + outcome_tag().len()) < s.len()
}

/// The first position at or after `i` where an outcome starts.
pub open spec fn first_outcome(s: Seq<char>, i: int) -> Option<int>
    decreases s.len() - i,
{
    if i < 0 || i >= s.len() {
        None
    } else if outcome_at(s, i) {
        Some(i)
    } else {
        first_outcome(s, i + 1)
    }
}

/// The outcome of a response: the rest of the line after the first outcome
/// tag (and the white space after it), trimmed; else its first 200 characters.
pub open spec fn outcome_of(s: Seq<char>) -> Seq<char> {
    match first_outcome(s, 0) {
        Some(i) => {
            let j = skip_ws(s, i + outcome_tag().len());
            trimmed(s, j, line_end(s, j))
        },
        None => s.take(if s.len() < 200 { s.len() as int } else { 200 }),
    }
}

/// `SUCCESS:`, white space, then `true` or `false`.
pub open spec fn success_at(s: Seq<char>, i: int) -> bool {
    &&& tag_at(s, i, success_tag())
    &&& (tag_at(s, skip_ws(s, i + success_tag().len()), true_word()) || tag_at(
        s,
        skip_ws(s, i + success_tag().len()),
        false_word(),
    ))
}

/// The first position at or after `i` where a success flag starts.
pub open spec fn first_success(s: Seq<char>, i: int) -> Option<int>
    decreases s.len() - i,
{
    if i < 0 || i >= s.len() {
        None
    } else if success_at(s, i) {
        Some(i)
    } else {
        first_success(s, i + 1)
    }
}

/// The success flag of a response: the first flag given, else `true`.
pub open spec fn success_of(s: Seq<char>) -> bool {
    match first_success(s, 0) {
        Some(i) => tag_at(s, skip_ws(s, i + success_tag().len()), true_word()),
        None => true,
    }
}

/// The descriptions of a list of steps.
pub open spec fn descriptions(steps: Seq<ReasoningStep>) -> Seq<Seq<char>> {
    steps.map_values(|st: ReasoningStep| st.description@)
}

/// The first position at or after `from` that holds `]` or a line break.
fn bracket_stop_from(s: &Vec<char>, from: usize) -> (r: usize)
    requires
        from <= s@.len(),
    ensures
        r as int == bracket_stop(s@, from as int),
        from <= r <= s@.len(),
{
    let mut j = from;
    while j < s.len() && s[j] != ']' && s[j] != '\n'
        invariant
            from <= j <= s@.len(),
            bracket_stop(s@, from as int) == bracket_stop(s@, j as int),
        decreases s@.len() - j,
    {
        j = j + 1;
    }
    j
}

/// The position of the first step list, if any.
fn find_steps(s: &Vec<char>) -> (r: Option<usize>)
    ensures
        r is None ==> first_steps(s@, 0) is None,
        r matches Some(i) ==> first_steps(s@, 0) == Some(i as int),
        r matches Some(i) ==> steps_at(s@, i as int),
{
    let tag = vec!['S', 'T', 'E', 'P', 'S', ':'];
    assert(tag@ == steps_tag());
    let mut i: usize = 0;
    while i < s.len()
        invariant
            i <= s@.len(),
            tag@ == steps_tag(),
            first_steps(s@, 0) == first_steps(s@, i as int),
        decreases s@.len() - i,
    {
        if tag_at_pos(s, i, &tag) {
            let o = skip_ws_from(s, i + 6);
            if o < s.len() && s[o] == '[' {
                let k = bracket_stop_from(s, o + 1);
                if k < s.len() && s[k] == ']' {
                    return Some(i);
                }
            }
        }
        i = i + 1;
    }
    None
}

/// The non-empty trimmed pieces between semicolons of `[lo, hi)`.
fn split_pieces(text: &str, s: &Vec<char>, lo: usize, hi: usize) -> (r: Vec<String>)
    requires
        s@ == text@,
        lo <= hi <= s@.len(),
    ensures
        r@.map_values(|x: String| x@) == pieces(s@, lo as int, hi as int),
{
    let mut out: Vec<String> = Vec::new();
    let mut ps = lo;
    let mut i = lo;
    while i < hi
        invariant
            s@ == text@,
            lo <= ps <= i <= hi <= s@.len(),
            out@.map_values(|x: String| x@) == piece_scan(s@, lo as int, i as int).0,
            ps == piece_scan(s@, lo as int, i as int).1,
        decreases hi - i,
    {
        if s[i] == ';' {
            let t = trimmed_text(text, s, ps, i);
            if t.unicode_len() > 0 {
                let ghost before = out@;
                out.push(t);
                assert(out@.map_values(|x: String| x@) =~= before.map_values(|x: String| x@).push(
                    t@,
                ));
            }
            ps = i + 1;
        }
        i = i + 1;
    }
    let t = trimmed_text(text, s, ps, hi);
    if t.unicode_len() > 0 {
        let ghost before = out@;
        out.push(t);
        assert(out@.map_values(|x: String| x@) =~= before.map_values(|x: String| x@).push(t@));
    }
    out
}

/// The position of the first outcome, if any.
fn find_outcome(s: &Vec<char>) -> (r: Option<usize>)
    ensures
        r is None ==> first_outcome(s@, 0) is None,
        r matches Some(i) ==> first_outcome(s@, 0) == Some(i as int),
        r matches Some(i) ==> outcome_at(s@, i as int),
{
    let tag = vec!['O', 'U', 'T', 'C', 'O', 'M', 'E', ':'];
    assert(tag@ == outcome_tag());
    let mut i: usize = 0;
    while i < s.len()
        invariant
            i <= s@.len(),
            tag@ == outcome_tag(),
            first_outcome(s@, 0) == first_outcome(s@, i as int),
        decreases s@.len() - i,
    {
        if tag_at_pos(s, i, &tag) {
            let j = skip_ws_from(s, i + 8);
            if j < s.len() {
                return Some(i);
            }
        }
        i = i + 1;
    }
    None
}

/// The position of the first success flag, if any.
fn find_success(s: &Vec<char>) -> (r: Option<usize>)
    ensures
        r is None ==> first_success(s@, 0) is None,
        r matches Some(i) ==> first_success(s@, 0) == Some(i as int),
        r matches Some(i) ==> success_at(s@, i as int),
{
    let tag = vec!['S', 'U', 'C', 'C', 'E', 'S', 'S', ':'];
    let yes = vec!['T', 'R', 'U', 'E'];
    let no = vec!['F', 'A', 'L', 'S', 'E'];
    assert(tag@ == success_tag());
    assert(yes@ == true_word());
    assert(no@ == false_word());
    let mut i: usize = 0;
    while i < s.len()
        invariant
            i <= s@.len(),
            tag@ == success_tag(),
            yes@ == true_word(),
            no@ == false_word(),
            first_success(s@, 0) == first_success(s@, i as int),
        decreases s@.len() - i,
    {
        if tag_at_pos(s, i, &tag) {
            let j = skip_ws_from(s, i + 8);
            if tag_at_pos(s, j, &yes) || tag_at_pos(s, j, &no) {
                return Some(i);
            }
        }
        i = i + 1;
    }
    None
}

/// Reasoning steps with the given descriptions, stamped with the current time.
fn steps_from(texts: Vec<String>) -> (r: Vec<ReasoningStep>)
    ensures
        descriptions(r@) == texts@.map_values(|x: String| x@),
{
    let mut out: Vec<ReasoningStep> = Vec::new();
    let mut i: usize = 0;
    while i < texts.len()
        invariant
            i <= texts@.len(),
            descriptions(out@) == texts@.map_values(|x: String| x@).take(i as int),
        decreases texts@.len() - i,
    {
        let ghost before = out@;
        out.push(ReasoningStep { description: texts[i].clone(), timestamp: now_micros() });
        assert(descriptions(out@) =~= descriptions(before).push(texts@[i as int]@));
        i = i + 1;
        assert(texts@.map_values(|x: String| x@).take(i as int) =~= texts@.map_values(
            |x: String| x@,
        ).take(i - 1).push(texts@[i - 1]@));
    }
    assert(texts@.map_values(|x: String| x@).take(texts@.len() as int) =~= texts@.map_values(
        |x: String| x@,
    ));
    out
}

/// The single default step text.
fn default_steps() -> (r: Vec<String>)
    ensures
        r@.map_values(|x: String| x@) == seq![default_step()],
{
    let r = vec![String::from_str("Processed query")];
    assert(r@.map_values(|x: String| x@) =~= seq![default_step()]);
    r
}

/// The trajectory that `response` describes for `query`: its steps, outcome
/// and success flag, each with its fallback; no bullets used and no feedback.
pub fn parse_trajectory_response(query: String, response: &str) -> (r: Trajectory)
    ensures
        r.query@ == query@,
        descriptions(r.steps@) == step_descriptions(response@),
        r.outcome@ == outcome_of(response@),
        r.success == success_of(response@),
        r.used_bullets@.len() == 0,
        r.feedback is None,
{
    let s = chars_of(response);
    let n = s.len();
    assert(steps_tag().len() == 6 && outcome_tag().len() == 8 && success_tag().len() == 8);
    let texts: Vec<String> = match find_steps(&s) {
        Some(i) => {
            let o = skip_ws_from(&s, i + 6);
            let k = bracket_stop_from(&s, o + 1);
            let p = split_pieces(response, &s, o + 1, k);
            if p.len() > 0 {
                p
            } else {
                default_steps()
            }
        },
        None => default_steps(),
    };
    let steps = steps_from(texts);
    let outcome = match find_outcome(&s) {
        Some(i) => {
            let j = skip_ws_from(&s, i + 8);
            let e = line_end_from(&s, j);
            trimmed_text(response, &s, j, e)
        },
        None => {
            let m = if n < 200 { n } else { 200 };
            let t = substring(response, 0, m);
            assert(response@.subrange(0, m as int) =~= response@.take(m as int));
            t
        },
    };
    let success = match find_success(&s) {
        Some(i) => {
            let j = skip_ws_from(&s, i + 8);
            let yes = vec!['T', 'R', 'U', 'E'];
            assert(yes@ == true_word());
            tag_at_pos(&s, j, &yes)
        },
        None => true,
    };
    Trajectory {
        query,
        steps,
        outcome,
        success,
        used_bullets: Vec::new(),
        feedback: None,
    }
}

} // verus!
