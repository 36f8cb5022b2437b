//! Decisions around calls to the model: request limits, timeouts, the text
//! carried by each streamed chunk, and how a streamed answer is shown,
//! accumulated and learned from.

use vstd::prelude::*;
use crate::platform::{json_response, json_response_of};
use crate::text::{chars_of, substring};

verus! {

/// The most tokens a request asks the model to produce.
pub const MAX_PREDICT: i32 = 128;

/// The largest context window a request asks for.
pub const MAX_CONTEXT: i32 = 512;

/// The token limit and context window sent with a request: the configured
/// values, capped at `MAX_PREDICT` and `MAX_CONTEXT`.
pub fn request_limits(max_tokens: i32, context_window: i32) -> (r: (i32, i32))
    ensures
        r.0 == if max_tokens < MAX_PREDICT { max_tokens } else { MAX_PREDICT },
        r.1 == if context_window < MAX_CONTEXT { context_window } else { MAX_CONTEXT },
{
    (
        if max_tokens < MAX_PREDICT { max_tokens } else { MAX_PREDICT },
        if context_window < MAX_CONTEXT { context_window } else { MAX_CONTEXT },
    )
}

/// How long a request may take, in seconds: longer for a deep reasoning pass.
pub fn timeout_secs(enable_thinking: bool) -> (r: u64)
    ensures
        r == if enable_thinking { 300u64 } else { 120u64 },
{
    if enable_thinking { 300 } else { 120 }
}

/// What to do with one event of a streamed answer.
#[derive(Debug, Clone, PartialEq, Eq)]
pub enum StreamAction {
    /// Show this chunk; it has been added to the answer.
    Show(String),
    /// Stop reading and report this error.
    Fail(String),
    /// The stream has already stopped: ignore the event.
    Ignore,
}

/// A streamed answer being read: the text shown so far, accumulated in the
/// same order, and whether an error stopped it.
pub struct StreamReader {
    text: String,
    shown: Vec<String>,
    failed: bool,
}

/// The chunks of `v`, joined.
pub open spec fn joined(v: Seq<Seq<char>>) -> Seq<char>
    decreases v.len(),
{
    if v.len() == 0 {
        seq![]
    } else {
        joined(v.drop_last()) + v.last()
    }
}

impl StreamReader {
    /// The answer accumulated so far.
    pub closed spec fn text_view(&self) -> Seq<char> {
        self.text@
    }

    /// The chunks shown so far, in order.
    pub closed spec fn shown_view(&self) -> Seq<Seq<char>> {
        self.shown@.map_values(|c: String| c@)
    }

    /// Whether an error has stopped the stream.
    pub closed spec fn failed_view(&self) -> bool {
        self.failed
    }

    /// The accumulated answer is exactly the shown chunks, joined.
    pub closed spec fn wf(&self) -> bool {
        self.text@ == joined(self.shown_view())
    }

    /// A reader before the first chunk.
    pub fn new() -> (r: StreamReader)
        ensures
            r.wf(),
            r.shown_view().len() == 0,
            r.text_view().len() == 0,
            !r.failed_view(),
    {
        let r = StreamReader { text: String::new(), shown: Vec::new(), failed: false };
        assert(r.shown_view() =~= Seq::<Seq<char>>::empty());
        r
    }

    /// Takes the next event of the stream: a chunk is shown and accumulated
    /// alike; an error stops both, and nothing after it is taken.
    pub fn on_event(&mut self, event: Result<String, String>) -> (r: StreamAction)
        requires
            old(self).wf(),
        ensures
            final(self).wf(),
            old(self).failed_view() ==> r == StreamAction::Ignore && final(self).shown_view()
                == old(self).shown_view() && final(self).failed_view(),
            !old(self).failed_view() ==> match event {
                Ok(c) => {
                    &&& r matches StreamAction::Show(s) && s@ == c@
                    &&& final(self).shown_view() == old(self).shown_view().push(c@)
                    &&& !final(self).failed_view()
                },
                Err(e) => {
                    &&& r matches StreamAction::Fail(m) && m@ == e@
                    &&& final(self).shown_view() == old(self).shown_view()
                    &&& final(self).failed_view()
                },
            },
    {
        if self.failed {
            return StreamAction::Ignore;
        }
        match event {
            Ok(c) => {
                let ghost before = self.shown@;
                self.text.append(c.as_str());
                self.shown.push(c.clone());
                assert(self.shown@.map_values(|x: String| x@) =~= before.map_values(
                    |x: String| x@,
                ).push(c@));
                assert(self.shown_view().drop_last() =~= before.map_values(|x: String| x@));
                StreamAction::Show(c)
            },
            Err(e) => {
                self.failed = true;
                StreamAction::Fail(e)
            },
        }
    }

    /// Whether the exchange may be remembered: only when learning is on and
    /// the stream ended without an error.
    pub fn may_learn(&self, learning: bool) -> (r: bool)
        ensures
            r == (learning && !self.failed_view()),
    {
        learning && !self.failed
    }

    /// The answer accumulated so far: every shown chunk, in order.
    pub fn text(&self) -> (r: String)
        requires
            self.wf(),
        ensures
            r@ == self.text_view(),
            r@ == joined(self.shown_view()),
    {
        self.text.clone()
    }
}

/// The end of the line `[a, b)` without one trailing carriage return.
pub open spec fn strip_cr(s: Seq<char>, a: int, b: int) -> int {
    if a < b && s[b - 1] == '\r' {
        b - 1
    } else {
        b
    }
}

/// Reading `[0, i)` of `s`: the lines that a line break has closed, and where
/// the open line starts.
pub open spec fn line_scan(s: Seq<char>, i: int) -> (Seq<Seq<char>>, int)
    decreases i,
{
    if i <= 0 {
        (seq![], 0)
    } else {
        let (d, ls) = line_scan(s, i - 1);
        if s[i - 1] == '\n' {
            (d.push(s.subrange(ls, strip_cr(s, ls, i - 1))), i)
        } else {
            (d, ls)
        }
    }
}

/// The lines of `s` (`str::lines`): split at line breaks, a carriage return
/// before a break dropped, and no empty line after a final break.
pub open spec fn text_lines(s: Seq<char>) -> Seq<Seq<char>> {
    let (d, ls) = line_scan(s, s.len() as int);
    if ls < s.len() {
        d.push(s.subrange(ls, strip_cr(s, ls, s.len() as int)))
    } else {
        d
    }
}

/// The lines of `text`.
pub fn split_lines(text: &str) -> (r: Vec<String>)
    ensures
        r@.map_values(|x: String| x@) == text_lines(text@),
{
    let s = chars_of(text);
    let n = s.len();
    let mut out: Vec<String> = Vec::new();
    let mut ls: usize = 0;
    let mut i: usize = 0;
    while i < n
        invariant
            s@ == text@,
            n == s@.len(),
            ls <= i <= n,
            out@.map_values(|x: String| x@) == line_scan(s@, i as int).0,
            ls == line_scan(s@, i as int).1,
        decreases n - i,
    {
        if s[i] == '\n' {
            let e = if ls < i && s[i - 1] == '\r' { i - 1 } else { i };
            let line = substring(text, ls, e);
            let ghost before = out@;
            out.push(line);
            assert(out@.map_values(|x: String| x@) =~= before.map_values(|x: String| x@).push(line@));
            ls = i + 1;
        }
        i = i + 1;
    }
    if ls < n {
        let e = if s[n - 1] == '\r' { n - 1 } else { n };
        let line = substring(text, ls, e);
        let ghost before = out@;
        out.push(line);
        assert(out@.map_values(|x: String| x@) =~= before.map_values(|x: String| x@).push(line@));
    }
    out
}

/// The text of a streamed chunk from `i` on: the `response` string of the
/// first of `lines` that has one, or nothing.
pub open spec fn chunk_text_from(lines: Seq<Seq<char>>, i: int) -> Seq<char>
    decreases lines.len() - i,
{
    if i < 0 || i >= lines.len() {
        seq![]
    } else {
        match json_response_of(lines[i]) {
            Some(t) => t,
            None => chunk_text_from(lines, i + 1),
        }
    }
}

/// The text carried by one chunk of a streamed answer: the `response` string
/// of its first JSON line that has one, or the empty string.
pub fn stream_chunk_text(chunk: &str) -> (r: String)
    ensures
        r@ == chunk_text_from(text_lines(chunk@), 0),
{
    let lines = split_lines(chunk);
    let ghost ls = text_lines(chunk@);
    let mut i: usize = 0;
    while i < lines.len()
        invariant
            i <= lines@.len(),
            lines@.map_values(|x: String| x@) == ls,
            ls == text_lines(chunk@),
            chunk_text_from(ls, 0) == chunk_text_from(ls, i as int),
        decreases lines@.len() - i,
    {
        assert(ls[i as int] == lines@[i as int]@);
        match json_response(lines[i].as_str()) {
            Some(t) => {
                assert(ls.len() == lines@.len());
                assert(chunk_text_from(ls, i as int) == t@);
                return t;
            },
            None => {},
        }
        i = i + 1;
    }
    String::new()
}

} // verus!
