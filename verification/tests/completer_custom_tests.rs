#![allow(non_snake_case)]

use ractor_shell::completer::ShellHelper;
use ractor_shell::completer_custom::{
    file_path_candidates, fuzzy_score, CaseInsensitiveCompletion, CompletionReason, ContextualHints,
    DescriptiveCompletion, FuzzyCompletion, MultiColumnDisplay, SmartCompletion,
};

#[test]
fn fuzzy_score___exact_prefix___returns_highest_score() {
    let score = fuzzy_score("demo", "demo_actor_1");
    assert!(score > 1000, "Exact prefix should score > 1000");
}

#[test]
fn fuzzy_score___contains_substring___returns_medium_score() {
    let score = fuzzy_score("actor", "demo_actor_1");
    assert!(
        (500..1000).contains(&score),
        "Contains should score 500-999"
    );
}

#[test]
fn fuzzy_score___fuzzy_match___returns_positive_score() {
    let score = fuzzy_score("da1", "demo_actor_1");
    assert!(score > 0, "Fuzzy match should have positive score");
}

#[test]
fn fuzzy_score___no_match___returns_zero() {
    let score = fuzzy_score("xyz", "demo_actor_1");
    assert_eq!(score, 0, "No match should return 0");
}

#[test]
fn fuzzy_score___prefix_beats_contains___returns_higher_score() {
    let prefix_score = fuzzy_score("demo", "demo_actor_1");
    let contains_score = fuzzy_score("demo", "actor_demo");
    assert!(
        prefix_score > contains_score,
        "Prefix match should score higher than contains"
    );
}

#[test]
fn MultiColumnDisplay___empty_items___returns_empty_string() {
    let helper = ShellHelper::new();
    let result = helper.format_columns(vec![], 80);
    assert!(result.is_empty());
}

#[test]
fn MultiColumnDisplay___single_item___formats_correctly() {
    let helper = ShellHelper::new();
    let result = helper.format_columns(vec!["test".to_string()], 80);
    assert!(result.contains("test"));
}

#[test]
fn DescriptiveCompletion___matching_prefix___returns_descriptions() {
    let helper = ShellHelper::new();
    let results = helper.complete_with_descriptions("he");
    assert!(!results.is_empty());
    assert!(results.iter().any(|r| r.replacement == "help"));
}

#[test]
fn DescriptiveCompletion___no_match___returns_empty() {
    let helper = ShellHelper::new();
    let results = helper.complete_with_descriptions("xyz");
    assert!(results.is_empty());
}

#[test]
fn ContextualHints___send_command___returns_hint() {
    let helper = ShellHelper::new();
    let hint = helper.get_hint("send", 4);
    assert!(hint.is_some());
    assert!(hint.unwrap().contains("actor"));
}

#[test]
fn ContextualHints___unknown_command___returns_none() {
    let helper = ShellHelper::new();
    let hint = helper.get_hint("unknown", 7);
    assert!(hint.is_none());
}

#[test]
fn test_fuzzy_score() {
    assert!(fuzzy_score("demo", "demo_actor_1") > fuzzy_score("demo", "actor_demo"));
    assert!(fuzzy_score("da1", "demo_actor_1") > 0);
    assert_eq!(fuzzy_score("xyz", "demo_actor_1"), 0);
}

#[test]
fn CaseInsensitiveCompletion___lowercase_input___matches_mixed_case() {
    let helper = ShellHelper::new();
    let candidates = vec!["DemoActor".to_string(), "TestActor".to_string()];
    let results = helper.complete_case_insensitive("demo", &candidates);
    assert_eq!(results.len(), 1);
    assert_eq!(results[0].display, "DemoActor");
}

#[test]
fn CaseInsensitiveCompletion___uppercase_input___matches_mixed_case() {
    let helper = ShellHelper::new();
    let candidates = vec!["DemoActor".to_string(), "TestActor".to_string()];
    let results = helper.complete_case_insensitive("DEMO", &candidates);
    assert_eq!(results.len(), 1);
    assert_eq!(results[0].display, "DemoActor");
}

#[test]
fn CaseInsensitiveCompletion___no_match___returns_empty() {
    let helper = ShellHelper::new();
    let candidates = vec!["DemoActor".to_string(), "TestActor".to_string()];
    let results = helper.complete_case_insensitive("xyz", &candidates);
    assert!(results.is_empty());
}

#[test]
fn test_case_insensitive() {
    let helper = ShellHelper::new();
    let candidates = vec!["DemoActor".to_string(), "TestActor".to_string()];
    let results = helper.complete_case_insensitive("demo", &candidates);
    assert_eq!(results.len(), 1);
    assert_eq!(results[0].display, "DemoActor");
}

#[test]
fn case_insensitive_completion_keeps_candidate_order_and_text() {
    let helper = ShellHelper::new();
    let candidates = vec![
        "ping_b".to_string(),
        "Other".to_string(),
        "PING_a".to_string(),
    ];
    let results = helper.complete_case_insensitive("Ping", &candidates);
    assert_eq!(results.len(), 2);
    assert_eq!(results[0].display, "ping_b");
    assert_eq!(results[0].replacement, "ping_b");
    assert_eq!(results[1].display, "PING_a");
}

#[test]
fn fuzzy_completion_orders_by_score_and_drops_non_matches() {
    let helper = ShellHelper::new();
    let candidates = vec![
        "actor_demo".to_string(),
        "zzz".to_string(),
        "demo_actor_1".to_string(),
        "d_e_m_o".to_string(),
    ];
    let results = helper.complete_fuzzy("demo", &candidates);
    let names: Vec<&str> = results.iter().map(|(p, _)| p.display.as_str()).collect();
    assert_eq!(names, vec!["demo_actor_1", "actor_demo", "d_e_m_o"]);
    assert_eq!(results[0].1, 1004);
    assert_eq!(results[1].1, 504);
    assert_eq!(results[2].1, 400);
}

#[test]
fn fuzzy_completion_keeps_order_of_equal_scores() {
    let helper = ShellHelper::new();
    let candidates = vec!["ab_2".to_string(), "ab_1".to_string()];
    let results = helper.complete_fuzzy("ab", &candidates);
    assert_eq!(results[0].0.display, "ab_2");
    assert_eq!(results[1].0.display, "ab_1");
}

#[test]
fn smart_completion_ranks_recent_prefix_first() {
    let helper = ShellHelper::new();
    let candidates = vec![
        "my_demo".to_string(),
        "demo_a".to_string(),
        "demo_b".to_string(),
        "other".to_string(),
    ];
    let history = vec!["x".to_string(), "demo_b".to_string()];
    let results = helper.complete_smart("Demo", &candidates, &history);
    assert_eq!(results.len(), 3);
    assert_eq!(results[0].pair.display, "demo_b");
    assert_eq!(results[0].rank, 1100);
    assert!(matches!(results[0].reason, CompletionReason::RecentlyUsed));
    assert_eq!(results[1].pair.display, "demo_a");
    assert_eq!(results[1].rank, 1000);
    assert!(matches!(results[1].reason, CompletionReason::ExactPrefix));
    assert_eq!(results[2].pair.display, "my_demo");
    assert_eq!(results[2].rank, 500);
    assert!(matches!(results[2].reason, CompletionReason::Contains));
}

#[test]
fn smart_completion_only_counts_last_five_history_entries() {
    let helper = ShellHelper::new();
    let candidates = vec!["demo".to_string()];
    let history: Vec<String> = vec!["demo", "a", "b", "c", "d", "e"]
        .into_iter()
        .map(String::from)
        .collect();
    let results = helper.complete_smart("de", &candidates, &history);
    assert_eq!(results[0].rank, 1000);
}

#[test]
fn file_path_candidates_mark_directories() {
    let entries = vec![
        ("scripts".to_string(), true),
        ("setup.txt".to_string(), false),
        ("other".to_string(), false),
    ];
    let r = file_path_candidates("s", &entries);
    assert_eq!(r.len(), 2);
    assert_eq!(r[0].display, "scripts/");
    assert_eq!(r[0].replacement, "scripts");
    assert_eq!(r[1].display, "setup.txt");
}
