use ace::bullets::{
    contains_str, count_shared, create_bullet, find_duplicate_bullet, tokenize,
    update_bullet_feedback,
};
use ace::curator::{build_query_prompt, context_stats, interaction_delta, is_continue_request, ACECurator};
use ace::merge::merge_delta;
use ace::prompt::build_context_prompt;
use ace::retrieval::{get_relevant_bullets, score_bullet};
use ace::types::{ContextBullet, ContextState, DeltaUpdate};

fn bullet(id: &str, content: &str, helpful: i32, harmful: i32) -> ContextBullet {
    ContextBullet {
        id: id.to_string(),
        content: content.to_string(),
        helpful_count: helpful,
        harmful_count: harmful,
        created_at: 0,
        tags: vec!["note".to_string()],
    }
}

fn store(bullets: Vec<ContextBullet>) -> ContextState {
    ContextState { bullets, version: 0 }
}

fn delta(bullets: Vec<ContextBullet>) -> DeltaUpdate {
    DeltaUpdate { bullets, timestamp: 0 }
}

#[test]
fn feedback_helpful_adds_one_helpful_mark() {
    let b = bullet("b1", "cache results", 3, 2);
    let h = update_bullet_feedback(&b, true);
    assert_eq!(h.helpful_count, 4);
    assert_eq!(h.harmful_count, 2);
    assert_eq!(h.id, "b1");
    assert_eq!(h.content, "cache results");
    assert_eq!(h.tags, vec!["note".to_string()]);
}

#[test]
fn feedback_harmful_adds_one_harmful_mark() {
    let b = bullet("b1", "cache results", 3, 2);
    let h = update_bullet_feedback(&b, false);
    assert_eq!(h.helpful_count, 3);
    assert_eq!(h.harmful_count, 3);
    assert_eq!(h.created_at, b.created_at);
}

#[test]
fn create_bullet_starts_without_feedback() {
    let a = create_bullet("first note".to_string(), vec!["x".to_string()]);
    let b = create_bullet("second note".to_string(), vec![]);
    assert_eq!(a.helpful_count, 0);
    assert_eq!(a.harmful_count, 0);
    assert_eq!(a.content, "first note");
    assert_eq!(a.tags, vec!["x".to_string()]);
    assert_eq!(a.id.chars().count(), 36);
    assert_ne!(a.id, b.id);
    assert!(a.created_at > 0);
}

#[test]
fn tokenize_lowercases_and_dedups() {
    let t = tokenize("Hello  WORLD\thello\nWorld again");
    assert_eq!(t, vec!["hello".to_string(), "world".to_string(), "again".to_string()]);
    assert!(tokenize("   \n\t").is_empty());
}

#[test]
fn count_shared_counts_common_tokens() {
    let a = tokenize("use a hash map");
    let b = tokenize("a MAP of hash tables");
    assert_eq!(count_shared(&a, &b), 3);
    assert!(contains_str(&b, &"tables".to_string()));
    assert!(!contains_str(&b, &"use".to_string()));
}

#[test]
fn merge_bumps_version_even_when_empty() {
    let s = store(vec![bullet("b1", "alpha beta", 0, 0)]);
    let m = merge_delta(&s, &delta(vec![]));
    assert_eq!(m.version, 1);
    assert_eq!(m.bullets.len(), 1);
    let m2 = merge_delta(&m, &delta(vec![bullet("b2", "gamma", 0, 0)]));
    assert_eq!(m2.version, 2);
    assert_eq!(m2.bullets.len(), 2);
}

#[test]
fn merge_absorbs_near_duplicate() {
    let s = store(vec![bullet("b1", "always check the error code", 2, 0)]);
    let m = merge_delta(&s, &delta(vec![bullet("b2", "Check the error code", 0, 0)]));
    assert_eq!(m.bullets.len(), 1);
    assert_eq!(m.bullets[0].id, "b1");
    assert_eq!(m.bullets[0].content, "always check the error code");
    assert_eq!(m.bullets[0].helpful_count, 3);
}

#[test]
fn merge_keeps_dissimilar_bullet() {
    let s = store(vec![bullet("b1", "one two three four", 0, 0)]);
    // two of four tokens shared: 50% is below the threshold
    let m = merge_delta(&s, &delta(vec![bullet("b2", "one two five six", 0, 0)]));
    assert_eq!(m.bullets.len(), 2);
    assert_eq!(m.bullets[1].id, "b2");
}

#[test]
fn similarity_is_asymmetric() {
    // the short new bullet is fully contained in the long one
    let s = store(vec![bullet("b1", "one two three four five six seven eight", 0, 0)]);
    let m = merge_delta(&s, &delta(vec![bullet("b2", "two three", 0, 0)]));
    assert_eq!(m.bullets.len(), 1);
    assert_eq!(m.bullets[0].helpful_count, 1);
    // the other way round only 2 of 8 tokens are shared
    let s = store(vec![bullet("b1", "two three", 0, 0)]);
    let m = merge_delta(&s, &delta(vec![bullet("b2", "one two three four five six seven eight", 0, 0)]));
    assert_eq!(m.bullets.len(), 2);
}

#[test]
fn exactly_seventy_percent_is_a_duplicate() {
    let s = store(vec![bullet("b1", "a b c d e f g", 0, 0)]);
    let m = merge_delta(&s, &delta(vec![bullet("b2", "a b c d e f g x y z", 0, 0)]));
    assert_eq!(m.bullets.len(), 1);
    let s = store(vec![bullet("b1", "a b c d e f", 0, 0)]);
    let m = merge_delta(&s, &delta(vec![bullet("b2", "a b c d e f x y z", 0, 0)]));
    assert_eq!(m.bullets.len(), 2);
}

#[test]
fn empty_content_is_never_a_duplicate() {
    let s = store(vec![bullet("b1", "something", 0, 0)]);
    let m = merge_delta(&s, &delta(vec![bullet("b2", "   ", 0, 0)]));
    assert_eq!(m.bullets.len(), 2);
    assert_eq!(find_duplicate_bullet(&bullet("b3", "", 0, 0), &s.bullets), None);
}

#[test]
fn merge_replaces_bullet_with_same_id() {
    let s = store(vec![bullet("b1", "red green", 0, 0)]);
    let m = merge_delta(&s, &delta(vec![bullet("b1", "blue yellow", 5, 0)]));
    assert_eq!(m.bullets.len(), 1);
    assert_eq!(m.bullets[0].content, "blue yellow");
    assert_eq!(m.bullets[0].helpful_count, 5);
}

#[test]
fn two_similar_bullets_merge_into_one() {
    let s = ContextState::new();
    let first = bullet("b1", "use a hash map for lookup", 0, 0);
    let second = bullet("b2", "use a hash map for fast lookup", 0, 0);
    let m = merge_delta(&s, &delta(vec![first]));
    let m = merge_delta(&m, &delta(vec![second]));
    assert_eq!(m.bullets.len(), 1);
    assert_eq!(m.bullets[0].id, "b1");
    assert_eq!(m.bullets[0].helpful_count, 1);
    assert_eq!(m.version, 2);
    // within one delta as well
    let m = merge_delta(
        &s,
        &delta(vec![
            bullet("b1", "use a hash map for lookup", 0, 0),
            bullet("b2", "use a hash map for fast lookup", 0, 0),
        ]),
    );
    assert_eq!(m.bullets.len(), 1);
    assert_eq!(m.bullets[0].helpful_count, 1);
}

#[test]
fn find_duplicate_returns_first_match() {
    let existing = vec![
        bullet("a", "unrelated words here", 0, 0),
        bullet("b", "sort the list first", 0, 0),
        bullet("c", "sort the list first please", 0, 0),
    ];
    let found = find_duplicate_bullet(&bullet("n", "Sort the LIST first", 0, 0), &existing);
    assert_eq!(found, Some("b".to_string()));
}

#[test]
fn score_is_in_tenths() {
    let q = tokenize("hash map speed");
    assert_eq!(score_bullet(&bullet("b", "use a Hash map", 3, 1), &q), 22);
    assert_eq!(score_bullet(&bullet("b", "nothing shared", 0, 4), &q), -4);
}

#[test]
fn retrieve_from_empty_store_is_empty() {
    let s = ContextState::new();
    assert!(get_relevant_bullets(&s, "hello", 10).is_empty());
}

#[test]
fn retrieval_is_positive_sorted_and_limited() {
    let s = store(vec![
        bullet("a", "rust borrow checker", 0, 0),
        bullet("b", "python scripts", 0, 0),
        bullet("c", "rust traits and the borrow checker", 0, 0),
        bullet("d", "rust macros", 0, 20),
        bullet("e", "unrelated", 3, 0),
        bullet("f", "rust async", 0, 0),
    ]);
    let r = get_relevant_bullets(&s, "Rust borrow checker", 10);
    let ids: Vec<&str> = r.iter().map(|b| b.id.as_str()).collect();
    // a and c share 3 tokens; f shares 1; e scores 0.3 by feedback alone;
    // d is negative and b is zero
    assert_eq!(ids, vec!["a", "c", "f", "e"]);
    let r = get_relevant_bullets(&s, "Rust borrow checker", 2);
    let ids: Vec<&str> = r.iter().map(|b| b.id.as_str()).collect();
    assert_eq!(ids, vec!["a", "c"]);
    assert!(get_relevant_bullets(&s, "rust", 0).is_empty());
}

#[test]
fn stats_count_helpful_bullets() {
    let s = store(vec![
        bullet("a", "one", 3, 1),
        bullet("b", "two", 2, 0),
        bullet("c", "three", 1, 1),
    ]);
    let st = context_stats(&s);
    assert_eq!(st.total_bullets, 3);
    assert_eq!(st.helpful_bullets, 2);
    assert_eq!(st.version, 0);
    assert_eq!(st.helpful_total, 6);
}

#[test]
fn curator_applies_deltas_and_learns() {
    let mut c = ACECurator::new();
    assert_eq!(c.get_stats().total_bullets, 0);
    c.apply_delta(&delta(vec![bullet("a", "first note", 0, 0)]));
    c.learn_from_interaction("what is rust", "a language");
    let st = c.get_stats();
    assert_eq!(st.total_bullets, 2);
    assert_eq!(st.version, 2);
    let ctx = c.get_context();
    assert_eq!(ctx.bullets[1].content, "Q: what is rust\nA: a language");
    assert_eq!(ctx.bullets[1].tags, vec!["conversation".to_string()]);
}

#[test]
fn interaction_delta_holds_one_conversation_bullet() {
    let d = interaction_delta("hi", "hello");
    assert_eq!(d.bullets.len(), 1);
    assert_eq!(d.bullets[0].content, "Q: hi\nA: hello");
    assert_eq!(d.bullets[0].tags, vec!["conversation".to_string()]);
}

#[test]
fn context_prompt_lists_bullets() {
    let bs = vec![
        bullet("0123456789", "cache it", 2, 0),
        bullet("abc", "measure first", -1, 3),
    ];
    assert_eq!(
        build_context_prompt(&bs),
        "[01234567] cache it (helpful: 2, harmful: 0)\n[abc] measure first (helpful: -1, harmful: 3)"
    );
    assert_eq!(build_context_prompt(&[]), "No previous context available.");
}

#[test]
fn query_prompt_uses_latest_conversation() {
    let mut old = bullet("c1", "Q: a\nA: old", 0, 0);
    old.tags = vec!["conversation".to_string()];
    old.created_at = 10;
    let mut new = bullet("c2", "Q: b\nA: new", 0, 0);
    new.tags = vec!["conversation".to_string()];
    new.created_at = 20;
    let plain = bullet("n1", "note", 0, 0);
    let s = store(vec![old, new, plain]);
    assert_eq!(
        build_query_prompt(&s, "  CONTINUE "),
        "Q: b\nA: new\n\nContinue from where you stopped. Do not repeat, just continue:"
    );
    assert_eq!(
        build_query_prompt(&s, "why?"),
        "Previous conversation:\n[c2] Q: b\nA: new (helpful: 0, harmful: 0)\n\nNew query: why?\n\nAnswer:"
    );
    let empty = store(vec![bullet("n1", "note", 0, 0)]);
    assert_eq!(build_query_prompt(&empty, "continue"), "continue");
}

#[test]
fn continue_requests_are_recognised() {
    assert!(is_continue_request("continue"));
    assert!(is_continue_request(" Continue\n"));
    assert!(is_continue_request("Tiếp Tục"));
    assert!(!is_continue_request("continue please"));
}
