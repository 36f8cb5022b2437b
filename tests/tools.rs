use ace::bullets::distinct_words;
use ace::model::{request_limits, split_lines, stream_chunk_text, timeout_secs, StreamAction, StreamReader};
use ace::prompt::{answer_prompt, questions_prompt, synthesis_prompt};
use ace::prompt::{reflection_prompt, thinking_prompt, trajectory_prompt};
use ace::tools::{combine_results, preview, research_questions, web_results, DeepResearchTool, SearchResult, SearchTool};
use ace::types::{ContextBullet, Trajectory};

fn bullet(id: &str, content: &str) -> ContextBullet {
    ContextBullet {
        id: id.to_string(),
        content: content.to_string(),
        helpful_count: 0,
        harmful_count: 0,
        created_at: 0,
        tags: vec!["t".to_string()],
    }
}

fn hit(content: &str, relevance: usize, source: &str) -> SearchResult {
    SearchResult {
        content: content.to_string(),
        relevance,
        tags: vec![],
        source: source.to_string(),
        url: None,
    }
}

#[test]
fn search_context_ranks_by_shared_tokens() {
    let tool = SearchTool::new(false);
    assert!(!tool.enable_web_search);
    let bs = vec![
        bullet("a", "rust is fast"),
        bullet("b", "python is easy"),
        bullet("c", "Rust is fast and safe"),
        bullet("d", "go"),
    ];
    let r = tool.search_context("rust fast safe", &bs);
    let got: Vec<(&str, usize)> = r.iter().map(|h| (h.content.as_str(), h.relevance)).collect();
    assert_eq!(got, vec![("Rust is fast and safe", 3), ("rust is fast", 2)]);
    assert_eq!(r[0].source, "context");
    assert_eq!(r[0].tags, vec!["t".to_string()]);
}

#[test]
fn search_context_keeps_at_most_five() {
    let tool = SearchTool::new(true);
    let bs: Vec<ContextBullet> = (0..8).map(|i| bullet("x", &format!("word {}", i))).collect();
    assert_eq!(tool.search_context("word", &bs).len(), 5);
}

#[test]
fn combine_results_orders_stably() {
    let ctx = vec![hit("c1", 2, "context"), hit("c2", 5, "context")];
    let web = vec![hit("w1", 10, "web"), hit("w2", 5, "web"), hit("w3", 5, "web"), hit("w4", 1, "web")];
    let r = combine_results(&ctx, &web);
    let got: Vec<&str> = r.iter().map(|h| h.content.as_str()).collect();
    assert_eq!(got, vec!["w1", "c2", "w2", "w3", "c1"]);
}

#[test]
fn web_results_from_answer_fields() {
    let topics = vec![
        (Some("t1".to_string()), Some("u1".to_string())),
        (None, None),
        (Some("t3".to_string()), None),
        (Some("t4".to_string()), None),
    ];
    let r = web_results(&Some("abstract".to_string()), &Some("au".to_string()), &topics);
    let got: Vec<(&str, usize)> = r.iter().map(|h| (h.content.as_str(), h.relevance)).collect();
    assert_eq!(got, vec![("abstract", 10), ("t1", 5), ("t3", 5)]);
    assert_eq!(r[0].url, Some("au".to_string()));
    assert_eq!(r[1].url, Some("u1".to_string()));
    assert_eq!(r[1].source, "web");
    let r = web_results(&Some(String::new()), &None, &vec![]);
    assert!(r.is_empty());
}

#[test]
fn search_url_encodes_query() {
    let tool = SearchTool::new(true);
    assert_eq!(
        tool.search_url("rust & café"),
        "https://api.duckduckgo.com/?q=rust%20%26%20caf%C3%A9&format=json&no_html=1&skip_disambig=1"
    );
}

#[test]
fn research_questions_take_three_lines() {
    let q = research_questions("  What is X?\n\nWhy Y?\r\nHow Z?\nExtra?");
    assert_eq!(q, vec!["What is X?".to_string(), "Why Y?".to_string()]);
    let q = research_questions("a\nb\nc\nd");
    assert_eq!(q, vec!["a".to_string(), "b".to_string(), "c".to_string()]);
    assert!(research_questions("").is_empty());
    assert!(DeepResearchTool::new(true).enable_web_search);
}

#[test]
fn preview_takes_leading_characters() {
    assert_eq!(preview("héllo world", 5), "héllo");
    assert_eq!(preview("ab", 5), "ab");
}

#[test]
fn prompts_embed_their_inputs() {
    assert!(trajectory_prompt("why").starts_with("why\n\nProvide a brief answer in this format:\nSTEPS:"));
    let t = Trajectory {
        query: "q1".to_string(),
        steps: vec![],
        outcome: "o1".to_string(),
        success: true,
        used_bullets: vec![],
        feedback: None,
    };
    assert!(reflection_prompt(&t).starts_with("Based on the task: q1\nResult: o1\n\n"));
    assert!(thinking_prompt("z").contains("\n\nQuery: z\n\n"));
}

#[test]
fn research_prompts_embed_their_inputs() {
    assert_eq!(
        questions_prompt("FP"),
        "Research topic: FP\n\nBased on available information, generate 3 specific research questions to explore:"
    );
    assert_eq!(
        answer_prompt("why?", "info"),
        "Question: why?\n\nRelevant information:\ninfo\n\nProvide detailed answer:"
    );
    assert!(synthesis_prompt("T", "S", "F").starts_with("Research topic: T\n\nSources consulted:\nS\n\nResearch findings:\nF\n\n"));
}

#[test]
fn request_limits_are_capped() {
    assert_eq!(request_limits(256, 2048), (128, 512));
    assert_eq!(request_limits(64, 100), (64, 100));
    assert_eq!(timeout_secs(true), 300);
    assert_eq!(timeout_secs(false), 120);
}

#[test]
fn stream_reader_accumulates_what_it_shows() {
    let mut r = StreamReader::new();
    assert_eq!(r.on_event(Ok("Hel".to_string())), StreamAction::Show("Hel".to_string()));
    assert_eq!(r.on_event(Ok("lo".to_string())), StreamAction::Show("lo".to_string()));
    assert_eq!(r.text(), "Hello");
    assert!(r.may_learn(true));
    assert!(!r.may_learn(false));
    assert_eq!(r.on_event(Err("boom".to_string())), StreamAction::Fail("boom".to_string()));
    assert_eq!(r.on_event(Ok("late".to_string())), StreamAction::Ignore);
    assert_eq!(r.text(), "Hello");
    assert!(!r.may_learn(true));
}

#[test]
fn distinct_words_keep_case_and_first_order() {
    assert_eq!(distinct_words("b A b a"), vec!["b".to_string(), "A".to_string(), "a".to_string()]);
    assert!(ace::curator::is_continue_word("continue"));
    assert!(ace::curator::is_continue_word("tiếp tục"));
    assert!(!ace::curator::is_continue_word("Continue"));
}

#[test]
fn split_lines_follows_line_breaks() {
    assert_eq!(split_lines("a\r\nb\n\nc"), vec!["a".to_string(), "b".to_string(), String::new(), "c".to_string()]);
    assert_eq!(split_lines("x\n"), vec!["x".to_string()]);
    assert!(split_lines("").is_empty());
}

#[test]
fn stream_chunk_text_takes_first_response() {
    assert_eq!(
        stream_chunk_text("not json\n{\"model\":\"m\",\"response\":\"Hi\",\"done\":false}\n{\"response\":\"later\"}"),
        "Hi"
    );
    assert_eq!(stream_chunk_text("{\"response\": 5}\n{\"done\":true}"), "");
    assert_eq!(stream_chunk_text(""), "");
}
