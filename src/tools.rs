//! Tools around the memory: searching it (and folding in web results),
//! deep thinking and deep research.

use vstd::prelude::*;
use crate::bullets::{count_shared, token_set, tokenize};
use crate::platform::{percent_encoded, url_encode};
use crate::scan::{line_end, line_end_from, trimmed, trimmed_text};
use crate::text::{chars_of, substring};
use crate::text::views;
use crate::types::{bullet_views, copy_strings, BulletView, ContextBullet};
use vstd::utf8::encode_utf8;

verus! {

broadcast use vstd::seq_lib::seq_to_set_is_finite;

/// Asks the model to reason step by step (see `thinking_prompt`).
pub struct ThinkingTool;

/// Searches the memory and, when enabled, the web.
pub struct SearchTool {
    pub enable_web_search: bool,
}

/// One search hit. `relevance` ranks hits (higher first); `source` says
/// where it came from ("context" or "web").
#[derive(Debug, Clone)]
pub struct SearchResult {
    pub content: String,
    pub relevance: usize,
    pub tags: Vec<String>,
    pub source: String,
    pub url: Option<String>,
}

/// Runs several searches and model calls to write a report on a topic.
pub struct DeepResearchTool {
    pub enable_web_search: bool,
}

/// What a search hit holds, as mathematical values.
pub struct ResultView {
    pub content: Seq<char>,
    pub relevance: nat,
    pub tags: Seq<Seq<char>>,
    pub source: Seq<char>,
    pub url: Option<Seq<char>>,
}

impl View for SearchResult {
    type V = ResultView;

    open spec fn view(&self) -> ResultView {
        ResultView {
            content: self.content@,
            relevance: self.relevance as nat,
            tags: views(self.tags@),
            source: self.source@,
            url: match self.url {
                Some(u) => Some(u@),
                None => None,
            },
        }
    }
}

/// The view of each hit of a sequence.
pub open spec fn result_views(v: Seq<SearchResult>) -> Seq<ResultView> {
    v.map_values(|r: SearchResult| r@)
}

/// The most hits a search returns.
pub const MAX_RESULTS: usize = 5;

/// `x` placed into `r` after every hit at least as relevant.
pub open spec fn insert_by_relevance(r: Seq<ResultView>, x: ResultView) -> Seq<ResultView>
    decreases r.len(),
{
    if r.len() == 0 {
        seq![x]
    } else if r[0].relevance < x.relevance {
        seq![x] + r
    } else {
        seq![r[0]] + insert_by_relevance(r.drop_first(), x)
    }
}

/// `s` ordered by relevance, highest first; equally relevant hits keep
/// their order.
pub open spec fn by_relevance(s: Seq<ResultView>) -> Seq<ResultView>
    decreases s.len(),
{
    if s.len() == 0 {
        seq![]
    } else {
        insert_by_relevance(by_relevance(s.drop_last()), s.last())
    }
}

/// The first `MAX_RESULTS` of `s`.
pub open spec fn top_results(s: Seq<ResultView>) -> Seq<ResultView> {
    s.take(if s.len() < MAX_RESULTS { s.len() as int } else { MAX_RESULTS as int })
}

/// A context hit for a bullet that shares `n` tokens with the query.
pub open spec fn context_hit(b: BulletView, n: nat) -> ResultView {
    ResultView { content: b.content, relevance: n, tags: b.tags, source: "context"@, url: None }
}

/// The hits of `bs` for a query: a hit for each bullet sharing at least one
/// token with it, in store order.
pub open spec fn context_hits(bs: Seq<BulletView>, query: Seq<char>) -> Seq<ResultView>
    decreases bs.len(),
{
    if bs.len() == 0 {
        seq![]
    } else {
        let n = token_set(bs.last().content).intersect(token_set(query)).len();
        if n > 0 {
            context_hits(bs.drop_last(), query).push(context_hit(bs.last(), n))
        } else {
            context_hits(bs.drop_last(), query)
        }
    }
}

proof fn lemma_insert_by_relevance_at(r: Seq<ResultView>, x: ResultView, p: int)
    requires
        0 <= p <= r.len(),
        forall|j: int| 0 <= j < p ==> r[j].relevance >= x.relevance,
        p < r.len() ==> r[p].relevance < x.relevance,
    ensures
        insert_by_relevance(r, x) == r.insert(p, x),
    decreases r.len(),
{
    if r.len() == 0 {
        assert(r.insert(p, x) =~= seq![x]);
    } else if p == 0 {
        assert(r.insert(p, x) =~= seq![x] + r);
    } else {
        let t = r.drop_first();
        lemma_insert_by_relevance_at(t, x, p - 1);
        assert(r.insert(p, x) =~= seq![r[0]] + t.insert(p - 1, x));
    }
}

impl SearchResult {
    /// A copy of this hit.
    pub fn copy(&self) -> (r: SearchResult)
        ensures
            r@ == self@,
    {
        SearchResult {
            content: self.content.clone(),
            relevance: self.relevance,
            tags: copy_strings(&self.tags),
            source: self.source.clone(),
            url: match &self.url {
                Some(u) => Some(u.clone()),
                None => None,
            },
        }
    }
}

/// The hits of `v` ordered by relevance, highest first, equally relevant
/// ones in their order in `v`, at most `MAX_RESULTS` of them.
pub fn rank_results(v: &Vec<SearchResult>) -> (r: Vec<SearchResult>)
    ensures
        result_views(r@) == top_results(by_relevance(result_views(v@))),
{
    let ghost s = result_views(v@);
    let mut out: Vec<SearchResult> = Vec::new();
    let mut i: usize = 0;
    while i < v.len()
        invariant
            i <= v@.len(),
            s == result_views(v@),
            result_views(out@) == by_relevance(s.take(i as int)),
        decreases v@.len() - i,
    {
        let x = v[i].copy();
        assert(s.take(i + 1).drop_last() =~= s.take(i as int));
        assert(s.take(i + 1).last() == x@);
        let mut p: usize = 0;
        while p < out.len() && out[p].relevance >= x.relevance
            invariant
                p <= out@.len(),
                forall|j: int| 0 <= j < p ==> out@[j].relevance >= x.relevance,
            decreases out@.len() - p,
        {
            p = p + 1;
        }
        let ghost before = out@;
        proof {
            lemma_insert_by_relevance_at(result_views(before), x@, p as int);
        }
        out.insert(p, x);
        assert(result_views(out@) =~= result_views(before).insert(p as int, x@));
        i = i + 1;
    }
    assert(s.take(v@.len() as int) =~= s);
    let ghost full = out@;
    out.truncate(MAX_RESULTS);
    assert(result_views(out@) =~= top_results(result_views(full)));
    out
}

impl SearchTool {
    /// A search tool; the web is searched only if `enable_web_search`.
    pub fn new(enable_web_search: bool) -> (r: SearchTool)
        ensures
            r.enable_web_search == enable_web_search,
    {
        SearchTool { enable_web_search }
    }

    /// The bullets of `bullets` that share tokens with `query`, as context
    /// hits whose relevance is the number of shared tokens, most relevant
    /// first, at most `MAX_RESULTS` of them.
    pub fn search_context(&self, query: &str, bullets: &Vec<ContextBullet>) -> (r: Vec<
        SearchResult,
    >)
        ensures
            result_views(r@) == top_results(
                by_relevance(context_hits(bullet_views(bullets@), query@)),
            ),
    {
        let ghost bs = bullet_views(bullets@);
        let query_words = tokenize(query);
        let mut hits: Vec<SearchResult> = Vec::new();
        let mut i: usize = 0;
        while i < bullets.len()
            invariant
                i <= bullets@.len(),
                bs == bullet_views(bullets@),
                views(query_words@).to_set() == token_set(query@),
                result_views(hits@) == context_hits(bs.take(i as int), query@),
            decreases bullets@.len() - i,
        {
            let b = &bullets[i];
            assert(bs.take(i + 1).drop_last() =~= bs.take(i as int));
            assert(bs.take(i + 1).last() == b@);
            let tokens = tokenize(b.content.as_str());
            let n = count_shared(&tokens, &query_words);
            if n > 0 {
                let hit = SearchResult {
                    content: b.content.clone(),
                    relevance: n,
                    tags: copy_strings(&b.tags),
                    source: String::from_str("context"),
                    url: None,
                };
                let ghost before = hits@;
                hits.push(hit);
                assert(result_views(hits@) =~= result_views(before).push(context_hit(b@, n as nat)));
            }
            i = i + 1;
        }
        assert(bs.take(bullets@.len() as int) =~= bs);
        rank_results(&hits)
    }

    /// The web query address for `query`.
    pub fn search_url(&self, query: &str) -> (r: String)
        ensures
            r@ == web_query_url(query@),
    {
        let mut r = String::from_str("https://api.duckduckgo.com/?q=");
        r.append(url_encode(query).as_str());
        r.append("&format=json&no_html=1&skip_disambig=1");
        r
    }
}

/// The web query address for a query: the query percent-encoded into a
/// fixed instant-answer request.
pub open spec fn web_query_url(query: Seq<char>) -> Seq<char> {
    "https://api.duckduckgo.com/?q="@ + percent_encoded(encode_utf8(query))
        + "&format=json&no_html=1&skip_disambig=1"@
}

/// Context hits followed by web hits, ranked by relevance, at most
/// `MAX_RESULTS` of them.
pub fn combine_results(context_results: &Vec<SearchResult>, web_results: &Vec<SearchResult>) -> (r:
    Vec<SearchResult>)
    ensures
        result_views(r@) == top_results(
            by_relevance(result_views(context_results@) + result_views(web_results@)),
        ),
{
    let mut all: Vec<SearchResult> = Vec::new();
    let mut i: usize = 0;
    while i < context_results.len()
        invariant
            i <= context_results@.len(),
            result_views(all@) == result_views(context_results@).take(i as int),
        decreases context_results@.len() - i,
    {
        let ghost before = all@;
        all.push(context_results[i].copy());
        assert(result_views(all@) =~= result_views(before).push(context_results@[i as int]@));
        i = i + 1;
        assert(result_views(context_results@).take(i as int) =~= result_views(context_results@).take(i - 1).push(context_results@[i - 1]@));
    }
    let mut j: usize = 0;
    while j < web_results.len()
        invariant
            i == context_results@.len(),
            j <= web_results@.len(),
            result_views(all@) == result_views(context_results@).take(i as int) + result_views(web_results@).take(j as int),
        decreases web_results@.len() - j,
    {
        let ghost before = all@;
        all.push(web_results[j].copy());
        assert(result_views(all@) =~= result_views(before).push(web_results@[j as int]@));
        j = j + 1;
        assert(result_views(web_results@).take(j as int) =~= result_views(web_results@).take(j - 1).push(web_results@[j - 1]@));
    }
    assert(result_views(context_results@).take(i as int) =~= result_views(context_results@));
    assert(result_views(web_results@).take(j as int) =~= result_views(web_results@));
    rank_results(&all)
}

impl DeepResearchTool {
    /// A research tool; the web is searched only if `enable_web_search`.
    pub fn new(enable_web_search: bool) -> (r: DeepResearchTool)
        ensures
            r.enable_web_search == enable_web_search,
    {
        DeepResearchTool { enable_web_search }
    }
}

/// A web hit.
pub open spec fn web_hit(content: Seq<char>, relevance: nat, url: Option<Seq<char>>) -> ResultView {
    ResultView { content, relevance, tags: seq![], source: "web"@, url }
}

/// The view of an optional string.
pub open spec fn opt_view(o: Option<String>) -> Option<Seq<char>> {
    match o {
        Some(s) => Some(s@),
        None => None,
    }
}

/// The hits for the related topics of a web answer from `i` on: one of
/// relevance 5 for each topic that has a text.
pub open spec fn topic_hits(topics: Seq<(Option<String>, Option<String>)>, i: int) -> Seq<ResultView>
    decreases topics.len() - i,
{
    if i < 0 || i >= topics.len() {
        seq![]
    } else {
        let rest = topic_hits(topics, i + 1);
        match topics[i].0 {
            Some(t) => seq![web_hit(t@, 5, opt_view(topics[i].1))] + rest,
            None => rest,
        }
    }
}

/// The hits of a web answer: its abstract, when there is a non-empty one,
/// with relevance 10, then the hits of its first three related topics.
pub open spec fn web_hits(
    abstract_text: Option<String>,
    abstract_url: Option<String>,
    topics: Seq<(Option<String>, Option<String>)>,
) -> Seq<ResultView> {
    let head = match abstract_text {
        Some(a) => if a@.len() > 0 {
            seq![web_hit(a@, 10, opt_view(abstract_url))]
        } else {
            seq![]
        },
        None => seq![],
    };
    let first = topics.take(if topics.len() < 3 { topics.len() as int } else { 3 });
    head + topic_hits(first, 0)
}

/// A copy of an optional string.
fn copy_opt(o: &Option<String>) -> (r: Option<String>)
    ensures
        opt_view(r) == opt_view(*o),
{
    match o {
        Some(s) => Some(s.clone()),
        None => None,
    }
}

/// The hits of a web answer given its fields: the abstract text and its
/// address, and the text and address of each related topic.
pub fn web_results(
    abstract_text: &Option<String>,
    abstract_url: &Option<String>,
    topics: &Vec<(Option<String>, Option<String>)>,
) -> (r: Vec<SearchResult>)
    ensures
        result_views(r@) == web_hits(*abstract_text, *abstract_url, topics@),
{
    let mut out: Vec<SearchResult> = Vec::new();
    match abstract_text {
        Some(a) => {
            if a.as_str().unicode_len() > 0 {
                out.push(
                    SearchResult {
                        content: a.clone(),
                        relevance: 10,
                        tags: Vec::new(),
                        source: String::from_str("web"),
                        url: copy_opt(abstract_url),
                    },
                );
                assert(views(Seq::<String>::empty()) =~= Seq::<Seq<char>>::empty());
            }
        },
        None => {},
    }
    let ghost head = result_views(out@);
    let m = if topics.len() < 3 { topics.len() } else { 3 };
    let ghost first = topics@.take(m as int);
    let mut tail: Vec<SearchResult> = Vec::new();
    let mut i = m;
    while i > 0
        invariant
            i <= m,
            first == topics@.take(m as int),
            m <= topics@.len(),
            result_views(tail@) == topic_hits(first, i as int),
        decreases i,
    {
        i = i - 1;
        assert(first[i as int] == topics@[i as int]);
        match &topics[i].0 {
            Some(t) => {
                let hit = SearchResult {
                    content: t.clone(),
                    relevance: 5,
                    tags: Vec::new(),
                    source: String::from_str("web"),
                    url: copy_opt(&topics[i].1),
                };
                assert(views(Seq::<String>::empty()) =~= Seq::<Seq<char>>::empty());
                let ghost before = tail@;
                tail.insert(0, hit);
                assert(result_views(tail@) =~= seq![hit@] + result_views(before));
            },
            None => {},
        }
    }
    let mut k: usize = 0;
    let ghost out0 = out@;
    while k < tail.len()
        invariant
            k <= tail@.len(),
            result_views(out@) == result_views(out0) + result_views(tail@).take(k as int),
        decreases tail@.len() - k,
    {
        let ghost before = out@;
        out.push(tail[k].copy());
        assert(result_views(out@) =~= result_views(before).push(tail@[k as int]@));
        k = k + 1;
        assert(result_views(tail@).take(k as int) =~= result_views(tail@).take(k - 1).push(tail@[k - 1]@));
    }
    assert(result_views(tail@).take(k as int) =~= result_views(tail@));
    out
}

/// The non-empty trimmed lines among the first `k` lines of `s` from `pos`.
pub open spec fn first_lines(s: Seq<char>, pos: int, k: nat) -> Seq<Seq<char>>
    decreases k,
{
    if k == 0 || pos < 0 || pos > s.len() {
        seq![]
    } else {
        let e = line_end(s, pos);
        let t = trimmed(s, pos, e);
        let rest = if e < s.len() {
            first_lines(s, e + 1, (k - 1) as nat)
        } else {
            seq![]
        };
        if t.len() > 0 {
            seq![t] + rest
        } else {
            rest
        }
    }
}

/// The research questions in a model answer: its first three lines, each
/// trimmed, empty ones dropped.
pub fn research_questions(text: &str) -> (r: Vec<String>)
    ensures
        r@.map_values(|x: String| x@) == first_lines(text@, 0, 3),
{
    let s = chars_of(text);
    let mut found: Vec<String> = Vec::new();
    let mut pos: usize = 0;
    let mut k: usize = 3;
    let mut open = true;
    while open && k > 0
        invariant
            s@ == text@,
            pos <= s@.len(),
            k <= 3,
            open ==> found@.map_values(|x: String| x@) + first_lines(s@, pos as int, k as nat)
                == first_lines(s@, 0, 3),
            !open ==> found@.map_values(|x: String| x@) == first_lines(s@, 0, 3),
        decreases k,
    {
        let e = line_end_from(&s, pos);
        let t = trimmed_text(text, &s, pos, e);
        let ghost rest = if e < s@.len() { first_lines(s@, e + 1, (k - 1) as nat) } else { seq![] };
        let ghost before = found@;
        if t.unicode_len() > 0 {
            found.push(t);
            assert(found@.map_values(|x: String| x@) =~= before.map_values(|x: String| x@).push(t@));
            assert(found@.map_values(|x: String| x@) + rest =~= before.map_values(|x: String| x@) + (seq![t@] + rest));
        }
        k = k - 1;
        if e < s.len() {
            pos = e + 1;
        } else {
            open = false;
            assert(found@.map_values(|x: String| x@) =~= found@.map_values(|x: String| x@) + rest);
        }
    }
    if open {
        assert(first_lines(s@, pos as int, 0) =~= Seq::<Seq<char>>::empty());
        assert(found@.map_values(|x: String| x@) =~= found@.map_values(|x: String| x@) + first_lines(s@, pos as int, k as nat));
    }
    found
}

/// At most the first `n` characters of `s`.
pub fn preview(s: &str, n: usize) -> (r: String)
    ensures
        r@ == s@.take(if s@.len() < n { s@.len() as int } else { n as int }),
{
    let len = s.unicode_len();
    let m = if len < n { len } else { n };
    let r = substring(s, 0, m);
    assert(s@.subrange(0, m as int) =~= s@.take(m as int));
    r
}

} // verus!
