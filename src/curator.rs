//! The curator, which owns the live memory, and the decisions around a query:
//! which prompt to send, what to remember of an interaction, and statistics.

use vstd::prelude::*;
use crate::bullets::{contains_str, create_bullet};
use crate::insights::{confident, insights_to_delta, MIN_CONFIDENCE};
use crate::merge::{helpful_at_most, merge_delta, merged};
use crate::platform::{lower_of, lowercase, now_micros};
use crate::prompt::{build_context_prompt, context_prompt};
use crate::scan::{trimmed, trimmed_text};
use crate::text::{chars_of, views};
use crate::types::{bullet_views, BulletView, ContextBullet, ContextState, DeltaUpdate, Insight};

verus! {

/// Figures about the memory. `helpful_total` is the sum of all helpful
/// counts; the mean helpful count is `helpful_total / total_bullets`, and
/// zero when there is no bullet.
#[derive(Debug, Clone, Copy, PartialEq, Eq)]
pub struct ContextStats {
    pub total_bullets: usize,
    pub helpful_bullets: usize,
    pub version: i32,
    pub helpful_total: i128,
}

/// How many bullets of `bs` have more helpful than harmful marks.
pub open spec fn count_helpful(bs: Seq<BulletView>) -> nat
    decreases bs.len(),
{
    if bs.len() == 0 {
        0
    } else {
        count_helpful(bs.drop_last()) + if bs.last().helpful_count > bs.last().harmful_count {
            1nat
        } else {
            0nat
        }
    }
}

/// The sum of the helpful counts of `bs`.
pub open spec fn sum_helpful(bs: Seq<BulletView>) -> int
    decreases bs.len(),
{
    if bs.len() == 0 {
        0
    } else {
        sum_helpful(bs.drop_last()) + bs.last().helpful_count
    }
}

/// The statistics of a memory.
pub fn context_stats(context: &ContextState) -> (r: ContextStats)
    ensures
        r.total_bullets == context.bullets@.len(),
        r.helpful_bullets == count_helpful(context.bullets_view()),
        r.version == context.version,
        r.helpful_total == sum_helpful(context.bullets_view()),
{
    let ghost bs = context.bullets_view();
    let n = context.bullets.len();
    let mut helpful: usize = 0;
    let mut total: i128 = 0;
    let mut i: usize = 0;
    while i < n
        invariant
            n == context.bullets@.len(),
            bs == context.bullets_view(),
            i <= n,
            helpful <= i,
            helpful == count_helpful(bs.take(i as int)),
            total == sum_helpful(bs.take(i as int)),
            i32::MIN * i <= total <= i32::MAX * i,
        decreases n - i,
    {
        let b = &context.bullets[i];
        assert(bs.take(i + 1).drop_last() =~= bs.take(i as int));
        assert(bs.take(i + 1).last() == bs[i as int]);
        if b.helpful_count > b.harmful_count {
            helpful = helpful + 1;
        }
        assert(i32::MIN * (i + 1) == i32::MIN * i + i32::MIN) by (nonlinear_arith);
        assert(i32::MAX * (i + 1) == i32::MAX * i + i32::MAX) by (nonlinear_arith);
        assert(i32::MAX * i <= i32::MAX * 0x1_0000_0000_0000_0000) by (nonlinear_arith)
            requires
                i < 0x1_0000_0000_0000_0000,
        ;
        total = total + b.helpful_count as i128;
        i = i + 1;
    }
    assert(bs.take(n as int) =~= bs);
    ContextStats { total_bullets: n, helpful_bullets: helpful, version: context.version, helpful_total: total }
}

/// The conversation tag.
pub open spec fn conversation_tag() -> Seq<char> {
    "conversation"@
}

/// The position of the most recent bullet of `bs` tagged as conversation
/// (the first of equally recent ones), if there is one.
pub open spec fn latest_conversation(bs: Seq<BulletView>) -> Option<int>
    decreases bs.len(),
{
    if bs.len() == 0 {
        None
    } else {
        let r = latest_conversation(bs.drop_last());
        let b = bs.last();
        if b.tags.contains(conversation_tag()) && (r is None || bs[r->0].created_at
            < b.created_at) {
            Some(bs.len() - 1)
        } else {
            r
        }
    }
}

proof fn lemma_latest_conversation_bound(bs: Seq<BulletView>)
    ensures
        latest_conversation(bs) matches Some(k) ==> 0 <= k < bs.len(),
    decreases bs.len(),
{
    if bs.len() > 0 {
        lemma_latest_conversation_bound(bs.drop_last());
    }
}

/// Whether a query asks to go on with the last answer: once trimmed and in
/// lower case, it is "continue" or "tiếp tục".
pub open spec fn is_continue(query: Seq<char>) -> bool {
    let q = lower_of(trimmed(query, 0, query.len() as int));
    q == "continue"@ || q == "tiếp tục"@
}

/// The prompt for a query: with a conversation in memory, a continuation
/// request replays the most recent one, and any other query is put after it;
/// with none, the query as it is.
pub open spec fn query_prompt_of(bs: Seq<BulletView>, query: Seq<char>) -> Seq<char> {
    match latest_conversation(bs) {
        Some(k) => if is_continue(query) {
            bs[k].content + "\n\nContinue from where you stopped. Do not repeat, just continue:"@
        } else {
            "Previous conversation:\n"@ + context_prompt(seq![bs[k]]) + "\n\nNew query: "@ + query
                + "\n\nAnswer:"@
        },
        None => query,
    }
}

/// The position of the most recent conversation bullet.
fn find_latest_conversation(bullets: &Vec<ContextBullet>) -> (r: Option<usize>)
    ensures
        r is None ==> latest_conversation(bullet_views(bullets@)) is None,
        r matches Some(k) ==> latest_conversation(bullet_views(bullets@)) == Some(k as int) && k
            < bullets@.len(),
{
    let ghost bs = bullet_views(bullets@);
    let tag = String::from_str("conversation");
    let mut best: Option<usize> = None;
    let mut i: usize = 0;
    while i < bullets.len()
        invariant
            i <= bullets@.len(),
            bs == bullet_views(bullets@),
            tag@ == conversation_tag(),
            best is None ==> latest_conversation(bs.take(i as int)) is None,
            best matches Some(k) ==> latest_conversation(bs.take(i as int)) == Some(k as int) && k < i,
        decreases bullets@.len() - i,
    {
        assert(bs.take(i + 1).drop_last() =~= bs.take(i as int));
        assert(bs.take(i + 1).last() == bs[i as int]);
        if contains_str(&bullets[i].tags, &tag) {
            let newer = match best {
                None => true,
                Some(k) => {
                    assert(bs.take(i + 1)[k as int] == bs[k as int]);
                    bullets[k].created_at < bullets[i].created_at
                },
            };
            if newer {
                best = Some(i);
            }
        } else {
            proof {
                if let Some(k) = best {
                    assert(bs.take(i + 1)[k as int] == bs[k as int]);
                }
            }
        }
        i = i + 1;
    }
    assert(bs.take(bullets@.len() as int) =~= bs);
    best
}

/// Whether a trimmed, lower-case query is a continuation request.
pub fn is_continue_word(q: &str) -> (r: bool)
    ensures
        r == (q@ == "continue"@ || q@ == "tiếp tục"@),
{
    let q = String::from_str(q);
    let a = String::from_str("continue");
    let b = String::from_str("tiếp tục");
    q == a || q == b
}

/// Whether `query` asks to go on with the last answer.
pub fn is_continue_request(query: &str) -> (r: bool)
    ensures
        r == is_continue(query@),
{
    let cs = chars_of(query);
    let t = trimmed_text(query, &cs, 0, cs.len());
    let q = lowercase(t.as_str());
    is_continue_word(q.as_str())
}

/// The prompt to send for `query`, given the memory `context`.
pub fn build_query_prompt(context: &ContextState, query: &str) -> (r: String)
    ensures
        r@ == query_prompt_of(context.bullets_view(), query@),
{
    match find_latest_conversation(&context.bullets) {
        None => String::from_str(query),
        Some(k) => {
            if is_continue_request(query) {
                let mut r = context.bullets[k].content.clone();
                r.append("\n\nContinue from where you stopped. Do not repeat, just continue:");
                r
            } else {
                let recent = vec![context.bullets[k].copy()];
                assert(bullet_views(recent@) =~= seq![context.bullets_view()[k as int]]);
                let mut r = String::from_str("Previous conversation:\n");
                r.append(build_context_prompt(recent.as_slice()).as_str());
                r.append("\n\nNew query: ");
                r.append(query);
                r.append("\n\nAnswer:");
                r
            }
        },
    }
}

/// The text remembered of one exchange: `Q: <query>` and `A: <response>` on
/// two lines.
pub open spec fn interaction_text(query: Seq<char>, response: Seq<char>) -> Seq<char> {
    "Q: "@ + query + "\nA: "@ + response
}

/// A delta holding one new conversation bullet for an exchange.
pub fn interaction_delta(query: &str, response: &str) -> (r: DeltaUpdate)
    ensures
        r.bullets@.len() == 1,
        r.bullets@[0].content@ == interaction_text(query@, response@),
        views(r.bullets@[0].tags@) == seq![conversation_tag()],
        r.bullets@[0].helpful_count == 0,
        r.bullets@[0].harmful_count == 0,
{
    let mut text = String::from_str("Q: ");
    text.append(query);
    text.append("\nA: ");
    text.append(response);
    let tags = vec![String::from_str("conversation")];
    assert(views(tags@) =~= seq![conversation_tag()]);
    let bullet = create_bullet(text, tags);
    DeltaUpdate { bullets: vec![bullet], timestamp: now_micros() }
}

/// Owns the live memory and folds deltas into it.
pub struct ACECurator {
    context: ContextState,
}

impl ACECurator {
    /// The memory this curator holds.
    pub closed spec fn state(&self) -> ContextState {
        self.context
    }

    /// A curator with an empty memory at version zero.
    pub fn new() -> (r: ACECurator)
        ensures
            r.state().bullets@.len() == 0,
            r.state().version == 0,
            r.state().wf(),
    {
        ACECurator { context: ContextState::new() }
    }

    /// The delta for a list of insights (see `insights_to_delta`).
    pub fn create_delta(&self, insights: Vec<Insight>) -> (r: DeltaUpdate)
        ensures
            r.bullets@.len() == confident(insights@).len(),
            forall|k: int| 0 <= k < r.bullets@.len() ==> {
                &&& (#[trigger] r.bullets@[k]).content@ == confident(insights@)[k].content@
                &&& views(r.bullets@[k].tags@) == seq![confident(insights@)[k].insight_type@]
                &&& confident(insights@)[k].confidence >= MIN_CONFIDENCE
            },
    {
        insights_to_delta(insights)
    }

    /// Replaces the memory by its merge with `delta`.
    pub fn apply_delta(&mut self, delta: &DeltaUpdate)
        requires
            old(self).state().wf(),
            old(self).state().version < i32::MAX,
            helpful_at_most(old(self).state().bullets_view(), i32::MAX - delta.bullets@.len()),
            helpful_at_most(bullet_views(delta.bullets@), i32::MAX - delta.bullets@.len()),
        ensures
            final(self).state().bullets_view() == merged(
                old(self).state().bullets_view(),
                bullet_views(delta.bullets@),
            ),
            final(self).state().version == old(self).state().version + 1,
            final(self).state().wf(),
    {
        self.context = merge_delta(&self.context, delta);
    }

    /// The memory as it stands.
    pub fn get_context(&self) -> (r: &ContextState)
        ensures
            *r == self.state(),
    {
        &self.context
    }

    /// The statistics of the memory.
    pub fn get_stats(&self) -> (r: ContextStats)
        ensures
            r.total_bullets == self.state().bullets@.len(),
            r.helpful_bullets == count_helpful(self.state().bullets_view()),
            r.version == self.state().version,
            r.helpful_total == sum_helpful(self.state().bullets_view()),
    {
        context_stats(&self.context)
    }

    /// Remembers an exchange: merges a delta with one conversation bullet
    /// holding the query and the response (see `interaction_delta`).
    pub fn learn_from_interaction(&mut self, query: &str, response: &str)
        requires
            old(self).state().wf(),
            old(self).state().version < i32::MAX,
            helpful_at_most(old(self).state().bullets_view(), i32::MAX - 1),
        ensures
            final(self).state().version == old(self).state().version + 1,
            final(self).state().wf(),
            exists|b: BulletView|
                {
                    &&& b.content == interaction_text(query@, response@)
                    &&& b.tags == seq![conversation_tag()]
                    &&& b.helpful_count == 0
                    &&& final(self).state().bullets_view() == merged(
                        old(self).state().bullets_view(),
                        seq![b],
                    )
                },
    {
        let delta = interaction_delta(query, response);
        let ghost b = delta.bullets@[0]@;
        assert(bullet_views(delta.bullets@) =~= seq![b]);
        self.apply_delta(&delta);
    }
}

} // verus!
