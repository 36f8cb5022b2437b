use ace::insights::{insights_to_delta, parse_insights_response};
use ace::parse::parse_trajectory_response;
use ace::types::Insight;

fn descriptions(t: &ace::types::Trajectory) -> Vec<String> {
    t.steps.iter().map(|s| s.description.clone()).collect()
}

#[test]
fn trajectory_with_all_tags() {
    let t = parse_trajectory_response(
        "q".to_string(),
        "STEPS: [find file; open file; read content]\nOUTCOME: done\nSUCCESS: true",
    );
    assert_eq!(descriptions(&t), vec!["find file", "open file", "read content"]);
    assert_eq!(t.outcome, "done");
    assert!(t.success);
    assert_eq!(t.query, "q");
    assert!(t.used_bullets.is_empty());
    assert!(t.feedback.is_none());
}

#[test]
fn trajectory_tags_ignore_case_and_drop_empty_steps() {
    let t = parse_trajectory_response(
        "q".to_string(),
        "intro\nsteps:\n  [ a ;; b ; ]\nOutcome:   it worked  \nmore\nsuccess: FALSE",
    );
    assert_eq!(descriptions(&t), vec!["a", "b"]);
    assert_eq!(t.outcome, "it worked");
    assert!(!t.success);
}

#[test]
fn trajectory_fallbacks() {
    let text = "x".repeat(250);
    let t = parse_trajectory_response("q".to_string(), &text);
    assert_eq!(descriptions(&t), vec!["Processed query"]);
    assert_eq!(t.outcome, "x".repeat(200));
    assert!(t.success);
    let t = parse_trajectory_response("q".to_string(), "STEPS: [ ; ]\nSUCCESS: maybe");
    assert_eq!(descriptions(&t), vec!["Processed query"]);
    assert_eq!(t.outcome, "STEPS: [ ; ]\nSUCCESS: maybe");
    assert!(t.success);
}

#[test]
fn trajectory_step_list_must_close_on_its_line() {
    let t = parse_trajectory_response("q".to_string(), "STEPS: [one; two\nthree]");
    assert_eq!(descriptions(&t), vec!["Processed query"]);
}

#[test]
fn insights_discard_out_of_range_confidence() {
    let r = parse_insights_response(
        "[Content: use caching; Type: strategy; Confidence: 0.9]\n[Content: bad idea; Type: risk; Confidence: 1.5]",
        "src".to_string(),
    );
    assert_eq!(r.len(), 1);
    assert_eq!(r[0].content, "use caching");
    assert_eq!(r[0].insight_type, "strategy");
    assert_eq!(r[0].confidence, 900000);
    assert_eq!(r[0].source_id, "src");
}

#[test]
fn insights_fallback_when_none_found() {
    let r = parse_insights_response("nothing structured here", "s1".to_string());
    assert_eq!(r.len(), 1);
    assert_eq!(r[0].content, "Task completed successfully");
    assert_eq!(r[0].insight_type, "strategy");
    assert_eq!(r[0].confidence, 500000);
    assert_eq!(r[0].source_id, "s1");
}

#[test]
fn insight_confidence_forms() {
    let r = parse_insights_response(
        "[content: a; type: t; confidence: 1] [CONTENT: b; TYPE: t; CONFIDENCE: 1.000] \
         [Content: c; Type: t; Confidence: .25] [Content: d; Type: t; Confidence: 0.1234567] \
         [Content: e; Type: t; Confidence: 1.01] [Content: f; Type: t; Confidence: 0.5.1] \
         [Content: g; Type: t; Confidence: .]",
        "s".to_string(),
    );
    let got: Vec<(String, u32)> = r.iter().map(|i| (i.content.clone(), i.confidence)).collect();
    assert_eq!(
        got,
        vec![
            ("a".to_string(), 1000000),
            ("b".to_string(), 1000000),
            ("c".to_string(), 250000),
            ("d".to_string(), 123456),
        ]
    );
}

#[test]
fn insight_content_runs_to_the_type_tag() {
    let r = parse_insights_response(
        "[Content: first; second; Type: kind; note; Confidence: x; Confidence: 0.7]",
        "s".to_string(),
    );
    assert_eq!(r.len(), 1);
    assert_eq!(r[0].content, "first; second");
    assert_eq!(r[0].insight_type, "kind; note; Confidence: x");
    assert_eq!(r[0].confidence, 700000);
}

fn insight(content: &str, kind: &str, confidence: u32) -> Insight {
    Insight {
        content: content.to_string(),
        insight_type: kind.to_string(),
        confidence,
        source_id: "s".to_string(),
    }
}

#[test]
fn delta_keeps_only_confident_insights() {
    let d = insights_to_delta(vec![
        insight("keep me", "strategy", 500000),
        insight("drop me", "strategy", 499999),
        insight("also keep", "fact", 1000000),
        insight("drop too", "fact", 0),
    ]);
    let contents: Vec<&str> = d.bullets.iter().map(|b| b.content.as_str()).collect();
    assert_eq!(contents, vec!["keep me", "also keep"]);
    assert_eq!(d.bullets[1].tags, vec!["fact".to_string()]);
    assert_eq!(d.bullets[0].helpful_count, 0);
    assert!(insights_to_delta(vec![]).bullets.is_empty());
}
