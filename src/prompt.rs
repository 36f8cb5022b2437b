//! The texts handed to the model: remembered bullets and the prompts built
//! around a query.

use vstd::prelude::*;
use crate::platform::{decimal_of, decimal_text};
use crate::text::substring;
use crate::types::{bullet_views, BulletView, ContextBullet, Trajectory};

verus! {

/// At most the first eight characters of an id.
pub open spec fn id_prefix(id: Seq<char>) -> Seq<char> {
    id.take(if id.len() < 8 { id.len() as int } else { 8 })
}

/// One remembered bullet as a line of text:
/// `[<id prefix>] <content> (helpful: <n>, harmful: <m>)`.
pub open spec fn bullet_line(b: BulletView) -> Seq<char> {
    "["@ + id_prefix(b.id) + "] "@ + b.content + " (helpful: "@ + decimal_of(b.helpful_count)
        + ", harmful: "@ + decimal_of(b.harmful_count) + ")"@
}

/// The lines of `bs`, joined by line breaks.
pub open spec fn joined_lines(bs: Seq<BulletView>) -> Seq<char>
    decreases bs.len(),
{
    if bs.len() == 0 {
        seq![]
    } else if bs.len() == 1 {
        bullet_line(bs[0])
    } else {
        joined_lines(bs.drop_last()) + "\n"@ + bullet_line(bs.last())
    }
}

/// The context text for a list of bullets.
pub open spec fn context_prompt(bs: Seq<BulletView>) -> Seq<char> {
    if bs.len() == 0 {
        "No previous context available."@
    } else {
        joined_lines(bs)
    }
}

/// `b` as a line of text.
fn bullet_text(b: &ContextBullet) -> (r: String)
    ensures
        r@ == bullet_line(b@),
{
    let n = b.id.as_str().unicode_len();
    let prefix = substring(b.id.as_str(), 0, if n < 8 { n } else { 8 });
    let mut r = String::from_str("[");
    r.append(prefix.as_str());
    r.append("] ");
    r.append(b.content.as_str());
    r.append(" (helpful: ");
    r.append(decimal_text(b.helpful_count).as_str());
    r.append(", harmful: ");
    r.append(decimal_text(b.harmful_count).as_str());
    r.append(")");
    assert(b.id@.subrange(0, if n < 8 { n as int } else { 8 }) =~= id_prefix(b.id@));
    r
}

/// The bullets as lines of text, one per bullet, or a fixed sentence when
/// there is none.
pub fn build_context_prompt(bullets: &[ContextBullet]) -> (r: String)
    ensures
        r@ == context_prompt(bullet_views(bullets@)),
{
    let ghost bs = bullet_views(bullets@);
    if bullets.len() == 0 {
        return String::from_str("No previous context available.");
    }
    let mut r = bullet_text(&bullets[0]);
    assert(bs.take(1).drop_last() =~= Seq::<BulletView>::empty());
    assert(joined_lines(bs.take(1)) == bullet_line(bs[0]));
    let mut i: usize = 1;
    while i < bullets.len()
        invariant
            1 <= i <= bullets@.len(),
            bs == bullet_views(bullets@),
            r@ == joined_lines(bs.take(i as int)),
        decreases bullets@.len() - i,
    {
        r.append("\n");
        r.append(bullet_text(&bullets[i]).as_str());
        assert(bs.take(i + 1).drop_last() =~= bs.take(i as int));
        assert(bs.take(i + 1).last() == bs[i as int]);
        i = i + 1;
    }
    assert(bs.take(bullets@.len() as int) =~= bs);
    r
}

/// What the generator asks the model for a query.
pub open spec fn trajectory_prompt_of(query: Seq<char>) -> Seq<char> {
    query
        + "\n\nProvide a brief answer in this format:\nSTEPS: [step1; step2; step3]\nOUTCOME: your answer here\nSUCCESS: true\nUSED_BULLETS: []"@
}

/// The prompt that asks the model to answer `query` in the trajectory format.
pub fn trajectory_prompt(query: &str) -> (r: String)
    ensures
        r@ == trajectory_prompt_of(query@),
{
    let mut r = String::from_str(query);
    r.append(
        "\n\nProvide a brief answer in this format:\nSTEPS: [step1; step2; step3]\nOUTCOME: your answer here\nSUCCESS: true\nUSED_BULLETS: []",
    );
    r
}

/// What the reflector asks the model about a trajectory.
pub open spec fn reflection_prompt_of(query: Seq<char>, outcome: Seq<char>) -> Seq<char> {
    "Based on the task: "@ + query + "\nResult: "@ + outcome
        + "\n\nProvide one key insight:\n[Content: key learning from the task; Type: strategy; Confidence: 0.8]"@
}

/// The prompt that asks the model for one insight on a trajectory.
pub fn reflection_prompt(trajectory: &Trajectory) -> (r: String)
    ensures
        r@ == reflection_prompt_of(trajectory.query@, trajectory.outcome@),
{
    let mut r = String::from_str("Based on the task: ");
    r.append(trajectory.query.as_str());
    r.append("\nResult: ");
    r.append(trajectory.outcome.as_str());
    r.append(
        "\n\nProvide one key insight:\n[Content: key learning from the task; Type: strategy; Confidence: 0.8]",
    );
    r
}

/// What the thinking tool asks the model about a query.
pub open spec fn thinking_prompt_of(query: Seq<char>) -> Seq<char> {
    "Think deeply about this query step by step:\n\nQuery: "@ + query
        + "\n\nProvide detailed reasoning:\n1. Break down the problem\n2. Consider multiple approaches\n3. Analyze pros and cons\n4. Reach conclusion\n\nThinking process:"@
}

/// The prompt that asks the model to reason about `query` step by step.
pub fn thinking_prompt(query: &str) -> (r: String)
    ensures
        r@ == thinking_prompt_of(query@),
{
    let mut r = String::from_str("Think deeply about this query step by step:\n\nQuery: ");
    r.append(query);
    r.append(
        "\n\nProvide detailed reasoning:\n1. Break down the problem\n2. Consider multiple approaches\n3. Analyze pros and cons\n4. Reach conclusion\n\nThinking process:",
    );
    r
}

/// What deep research asks the model for questions on a topic.
pub open spec fn questions_prompt_of(topic: Seq<char>) -> Seq<char> {
    "Research topic: "@ + topic
        + "\n\nBased on available information, generate 3 specific research questions to explore:"@
}

/// The prompt that asks the model for three research questions on `topic`.
pub fn questions_prompt(topic: &str) -> (r: String)
    ensures
        r@ == questions_prompt_of(topic@),
{
    let mut r = String::from_str("Research topic: ");
    r.append(topic);
    r.append("\n\nBased on available information, generate 3 specific research questions to explore:");
    r
}

/// What deep research asks the model about one question.
pub open spec fn answer_prompt_of(question: Seq<char>, information: Seq<char>) -> Seq<char> {
    "Question: "@ + question + "\n\nRelevant information:\n"@ + information
        + "\n\nProvide detailed answer:"@
}

/// The prompt that asks the model to answer `question` from `information`.
pub fn answer_prompt(question: &str, information: &str) -> (r: String)
    ensures
        r@ == answer_prompt_of(question@, information@),
{
    let mut r = String::from_str("Question: ");
    r.append(question);
    r.append("\n\nRelevant information:\n");
    r.append(information);
    r.append("\n\nProvide detailed answer:");
    r
}

/// What deep research asks the model for the final report.
pub open spec fn synthesis_prompt_of(topic: Seq<char>, sources: Seq<char>, findings: Seq<char>) -> Seq<
    char,
> {
    "Research topic: "@ + topic + "\n\nSources consulted:\n"@ + sources
        + "\n\nResearch findings:\n"@ + findings
        + "\n\nSynthesize a comprehensive, well-structured report with:\n1. Executive summary\n2. Key findings\n3. Detailed analysis\n4. Conclusion\n\nReport:"@
}

/// The prompt that asks the model for a report on `topic` from the sources
/// consulted and the findings.
pub fn synthesis_prompt(topic: &str, sources: &str, findings: &str) -> (r: String)
    ensures
        r@ == synthesis_prompt_of(topic@, sources@, findings@),
{
    let mut r = String::from_str("Research topic: ");
    r.append(topic);
    r.append("\n\nSources consulted:\n");
    r.append(sources);
    r.append("\n\nResearch findings:\n");
    r.append(findings);
    r.append(
        "\n\nSynthesize a comprehensive, well-structured report with:\n1. Executive summary\n2. Key findings\n3. Detailed analysis\n4. Conclusion\n\nReport:",
    );
    r
}

} // verus!
