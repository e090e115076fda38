use cosmos::cache::{FileFingerprint, GlossaryTerm, SummaryCache};
use cosmos::change::{apply_fix, undo_change};
use cosmos::diff::{apply_diff_to_content, parse_unified_diff};
use cosmos::refactor::{apply_refactor_plan, parse_multi_file_diff, preview_refactor, RefactorPlan};
use cosmos::schedule::{decide, plan_batches, CallDecision, CallFailure, GenerationProgress};
use cosmos::suggest::{
    blast_radius, FileDeps, Priority, SortContext, Suggestion, SuggestionEngine, SuggestionKind,
    SuggestionSource,
};
use cosmos::workspace::Workspace;

fn ten_lines() -> String {
    (1..=10).map(|i| format!("l{}\n", i)).collect()
}

fn suggestion(id: u128, file: &str, priority: Priority, kind: SuggestionKind, created_at: i64) -> Suggestion {
    let mut s = Suggestion::new(kind, priority, file.to_string(), format!("fix {}", id), SuggestionSource::Static);
    s.id = id;
    s.created_at = created_at;
    s
}

#[test]
fn two_hunk_diff_with_drifted_second_hunk_rolls_back_the_plan() {
    let mut ws = Workspace::new();
    ws.write("a.rs", &ten_lines());
    ws.write("b.rs", "one\ntwo\n");
    let before = ws.clone();

    let plan_text = "=== CREATE src/new.rs ===\nfn new() {}\n\
=== MODIFY b.rs ===\n--- a/b.rs\n+++ b/b.rs\n@@ -1,2 +1,2 @@\n one\n-two\n+TWO\n\
=== MODIFY a.rs ===\n--- a/a.rs\n+++ b/a.rs\n@@ -1,3 +1,3 @@\n l1\n-l2\n+L2\n l3\n@@ -7,3 +7,3 @@\n l7\n-lX8\n+L8\n l9\n";
    let plan = parse_multi_file_diff(plan_text).unwrap();
    assert_eq!(plan.operations.len(), 3);

    let err = apply_refactor_plan(&mut ws, &plan).unwrap_err();
    assert!(err.contains("Hunk 2"), "{}", err);
    assert!(err.starts_with("Refactoring failed, rolled back"));
    assert_eq!(ws.read("a.rs"), before.read("a.rs"));
    assert_eq!(ws.read("b.rs"), Some("one\ntwo\n".to_string()));
    assert_eq!(ws.read("src/new.rs"), None);
}

#[test]
fn drifted_hunk_is_named_when_a_diff_is_applied_alone() {
    let diff = parse_unified_diff("@@ -1,3 +1,3 @@\n l1\n-l2\n+L2\n l3\n@@ -7,3 +7,3 @@\n l7\n-lX8\n+L8\n l9\n").unwrap();
    assert_eq!(diff.hunks.len(), 2);
    assert_eq!(apply_diff_to_content(&ten_lines(), &diff), Err(1));
}

#[test]
fn a_matching_diff_applies_every_hunk() {
    let diff = parse_unified_diff("--- a/a.rs\n+++ b/a.rs\n@@ -1,3 +1,3 @@\n l1\n-l2\n+L2\n l3\n@@ -7,3 +7,4 @@\n l7\n-l8\n+L8\n+extra\n l9\n").unwrap();
    let out = apply_diff_to_content(&ten_lines(), &diff).unwrap();
    assert_eq!(out, "l1\nL2\nl3\nl4\nl5\nl6\nl7\nL8\nextra\nl9\nl10\n");
}

#[test]
fn diff_without_hunks_or_with_bad_header_is_refused() {
    assert!(parse_unified_diff("just prose\n").is_err());
    assert!(parse_unified_diff("@@ -x +1 @@\n a\n").is_err());
    let d = parse_unified_diff("@@ -3 +3 @@\n-a\n+b\n").unwrap();
    assert_eq!(d.hunks[0].old_count, 1);
    assert_eq!(d.hunks[0].old_start, 3);
}

#[test]
fn plan_applies_fully_when_every_operation_succeeds() {
    let mut ws = Workspace::new();
    ws.write("a.rs", "x\ny\n");
    ws.write("old.rs", "gone\n");
    ws.write("move.rs", "moving\n");
    let plan = parse_multi_file_diff(
        "=== CREATE c.rs ===\nfn c() {}\n=== MODIFY a.rs ===\n@@ -2,1 +2,1 @@\n-y\n+z\n=== DELETE old.rs ===\n=== RENAME move.rs -> dir/moved.rs ===\n",
    )
    .unwrap();
    apply_refactor_plan(&mut ws, &plan).unwrap();
    assert_eq!(ws.read("c.rs"), Some("fn c() {}".to_string()));
    assert_eq!(ws.read("a.rs"), Some("x\nz\n".to_string()));
    assert_eq!(ws.read("old.rs"), None);
    assert_eq!(ws.read("move.rs"), None);
    assert_eq!(ws.read("dir/moved.rs"), Some("moving\n".to_string()));
}

#[test]
fn failing_third_operation_leaves_workspace_identical() {
    let mut ws = Workspace::new();
    ws.write("a.rs", "a\n");
    ws.write("target.rs", "existing\n");
    let mut plan = RefactorPlan::new("test");
    plan.operations = parse_multi_file_diff(
        "=== CREATE target.rs ===\nreplaced\n=== DELETE a.rs ===\n=== RENAME missing.rs -> b.rs ===\n",
    )
    .unwrap()
    .operations;
    assert!(apply_refactor_plan(&mut ws, &plan).is_err());
    assert_eq!(ws.read("a.rs"), Some("a\n".to_string()));
    assert_eq!(ws.read("target.rs"), Some("existing\n".to_string()));
    assert_eq!(ws.read("b.rs"), None);
}

#[test]
fn empty_plan_text_is_refused() {
    assert_eq!(
        parse_multi_file_diff("nothing here\n").unwrap_err(),
        "No operations found in refactoring plan"
    );
}

#[test]
fn preview_lists_counts_and_operations() {
    let plan = parse_multi_file_diff("=== CREATE a.rs ===\nfn a() {}\n=== DELETE b.rs ===\n").unwrap();
    let text = preview_refactor(&plan);
    assert_eq!(
        text,
        "# AI-generated refactoring plan\n\nSummary: 1 creates, 0 modifies, 1 deletes, 0 renames\n\n## 1. CREATE a.rs\n+fn a() {}\n\n## 2. DELETE b.rs\nDelete file: b.rs\n\n"
    );
}

#[test]
fn batches_with_two_rate_limits_retry_twice_and_cache_all_twenty() {
    let files: Vec<String> = (0..20).map(|i| format!("src/f{}.rs", i)).collect();
    let tiers = vec![files[..10].to_vec(), files[10..].to_vec()];
    let batches = plan_batches(&tiers, 5);
    assert_eq!(batches.len(), 4);
    assert_eq!(batches.concat(), files);

    let mut cache = SummaryCache::new();
    let mut progress = GenerationProgress::new(20);
    let mut total_retries = 0;
    let mut calls_that_succeeded = vec![0; batches.len()];
    let mut waits = Vec::new();
    for (b, batch) in batches.iter().enumerate() {
        let mut responses: Vec<u16> = if b == 1 { vec![429, 429, 200] } else { vec![200] };
        responses.reverse();
        let mut retries = 0u32;
        loop {
            let status = responses.pop().expect("a response");
            match decide(status, retries) {
                CallDecision::Succeeded => break,
                CallDecision::RetryAfter(secs) => {
                    waits.push(secs);
                    retries += 1;
                    total_retries += 1;
                }
                CallDecision::Failed(f) => panic!("unexpected failure {:?}", f),
            }
        }
        calls_that_succeeded[b] += 1;
        for f in batch {
            cache.set(f, &format!("summary of {}", f), &format!("fp-{}", f), 0);
        }
        progress.batch_completed(batch.len());
    }
    assert_eq!(total_retries, 2);
    assert_eq!(waits, vec![2, 4]);
    assert!(calls_that_succeeded.iter().all(|&c| c == 1));
    assert_eq!(progress.completed, 20);
    let fps: Vec<FileFingerprint> = files
        .iter()
        .map(|f| FileFingerprint { path: f.clone(), fingerprint: format!("fp-{}", f) })
        .collect();
    assert_eq!(cache.valid_summaries(&fps).len(), 20);
    assert!(cache.files_needing_regeneration(&fps).is_empty());
}

#[test]
fn rate_limit_gives_up_after_three_retries_and_other_errors_fail_at_once() {
    assert_eq!(decide(429, 2), CallDecision::RetryAfter(8));
    assert_eq!(decide(429, 3), CallDecision::Failed(CallFailure::RateLimited(3)));
    assert_eq!(decide(401, 0), CallDecision::Failed(CallFailure::InvalidKey));
    assert_eq!(decide(500, 0), CallDecision::Failed(CallFailure::Api(500)));
    assert_eq!(decide(204, 1), CallDecision::Succeeded);
}

#[test]
fn suggestions_wait_for_summaries() {
    let mut p = GenerationProgress::new(3);
    assert!(!p.request_suggestions());
    assert!(p.suggestions_pending);
    assert!(p.summaries_finished());
    assert!(!p.suggestions_pending);
    assert!(p.request_suggestions());
}

#[test]
fn unchanged_fingerprint_needs_no_regeneration() {
    let mut cache = SummaryCache::new();
    assert!(cache.needs_regeneration("a.rs", "h1"));
    cache.set("a.rs", "does a", "h1", 5);
    assert!(!cache.needs_regeneration("a.rs", "h1"));
    assert!(cache.needs_regeneration("a.rs", "h2"));
    let fps = vec![
        FileFingerprint { path: "a.rs".to_string(), fingerprint: "h1".to_string() },
        FileFingerprint { path: "b.rs".to_string(), fingerprint: "h9".to_string() },
    ];
    assert_eq!(cache.files_needing_regeneration(&fps), vec!["b.rs".to_string()]);
    assert_eq!(cache.valid_summaries(&fps), vec![("a.rs".to_string(), "does a".to_string())]);
}

#[test]
fn normalizing_paths_twice_changes_nothing_more() {
    let mut cache = SummaryCache::new();
    cache.set("/repo/src/a.rs", "a", "h", 1);
    cache.set("src/b.rs", "b", "h", 1);
    cache.normalize_paths("/repo");
    assert!(!cache.needs_regeneration("src/a.rs", "h"));
    assert!(!cache.needs_regeneration("src/b.rs", "h"));
    let once: Vec<String> = cache.entries.iter().map(|e| e.path.clone()).collect();
    cache.normalize_paths("/repo");
    let twice: Vec<String> = cache.entries.iter().map(|e| e.path.clone()).collect();
    assert_eq!(once, twice);
}

#[test]
fn glossary_merge_keeps_existing_terms_and_is_idempotent() {
    let mut cache = SummaryCache::new();
    let first = vec![GlossaryTerm { term: "plan".to_string(), definition: "ordered ops".to_string() }];
    cache.merge_glossary(&first);
    let second = vec![
        GlossaryTerm { term: "plan".to_string(), definition: "something else".to_string() },
        GlossaryTerm { term: "tier".to_string(), definition: "priority group".to_string() },
    ];
    cache.merge_glossary(&second);
    let len = cache.glossary.len();
    cache.merge_glossary(&second);
    assert_eq!(cache.glossary.len(), len);
    assert_eq!(len, 2);
    assert_eq!(cache.glossary[0].definition, "ordered ops");
}

#[test]
fn changed_file_outranks_untouched_file_of_equal_priority() {
    let mut engine = SuggestionEngine::new();
    engine.suggestions.push(suggestion(2, "y.rs", Priority::Medium, SuggestionKind::BugFix, 100));
    engine.suggestions.push(suggestion(1, "x.rs", Priority::Medium, SuggestionKind::Feature, 1));
    let ctx = SortContext::new(vec!["x.rs".to_string()], &vec![]);
    assert!(ctx.blast.is_empty());
    engine.sort_with_context(&ctx);
    assert_eq!(engine.suggestions[0].file, "x.rs");
    assert_eq!(engine.suggestions[1].file, "y.rs");
}

#[test]
fn ordering_follows_blast_radius_priority_kind_and_age() {
    let deps = vec![FileDeps {
        path: "x.rs".to_string(),
        used_by: vec!["caller.rs".to_string()],
        depends_on: vec!["lib.rs".to_string(), "x.rs".to_string()],
    }];
    let blast = blast_radius(&vec!["x.rs".to_string()], &deps);
    assert_eq!(blast, vec!["caller.rs".to_string(), "lib.rs".to_string()]);
    let ctx = SortContext::new(vec!["x.rs".to_string()], &deps);

    let mut engine = SuggestionEngine::new();
    engine.suggestions.push(suggestion(1, "far.rs", Priority::High, SuggestionKind::BugFix, 9));
    engine.suggestions.push(suggestion(2, "lib.rs", Priority::Low, SuggestionKind::Feature, 1));
    engine.suggestions.push(suggestion(3, "x.rs", Priority::Low, SuggestionKind::Feature, 1));
    engine.suggestions.push(suggestion(4, "far.rs", Priority::High, SuggestionKind::Feature, 9));
    engine.suggestions.push(suggestion(5, "far.rs", Priority::High, SuggestionKind::BugFix, 20));
    engine.sort_with_context(&ctx);
    let order: Vec<u128> = engine.suggestions.iter().map(|s| s.id).collect();
    assert_eq!(order, vec![3, 2, 5, 1, 4]);

    // Sorting again with the same inputs keeps the order.
    engine.sort_with_context(&ctx);
    let again: Vec<u128> = engine.suggestions.iter().map(|s| s.id).collect();
    assert_eq!(again, order);
}

#[test]
fn equal_keys_keep_their_order() {
    let mut engine = SuggestionEngine::new();
    for id in 1..=4 {
        engine.suggestions.push(suggestion(id, "same.rs", Priority::Medium, SuggestionKind::Quality, 7));
    }
    engine.sort_with_context(&SortContext::new(vec![], &vec![]));
    let order: Vec<u128> = engine.suggestions.iter().map(|s| s.id).collect();
    assert_eq!(order, vec![1, 2, 3, 4]);
}

#[test]
fn active_suggestions_exclude_dismissed_and_applied() {
    let mut engine = SuggestionEngine::new();
    engine.suggestions.push(suggestion(1, "a.rs", Priority::High, SuggestionKind::BugFix, 1));
    engine.suggestions.push(suggestion(2, "b.rs", Priority::Low, SuggestionKind::BugFix, 1));
    engine.suggestions.push(suggestion(3, "c.rs", Priority::Medium, SuggestionKind::BugFix, 1));
    engine.dismiss(1);
    engine.mark_applied(2);
    engine.dismiss(99);
    let active: Vec<u128> = engine.active_suggestions().iter().map(|s| s.id).collect();
    assert_eq!(active, vec![3]);
    let counts = engine.counts();
    assert_eq!((counts.total, counts.high, counts.medium, counts.low), (1, 0, 1, 0));
    assert!(engine.high_priority_suggestions().is_empty());
    engine.unmark_applied(2);
    assert_eq!(engine.active_suggestions().len(), 2);
}

#[test]
fn undo_of_latest_change_restores_file_and_clears_applied() {
    let mut ws = Workspace::new();
    ws.write("src/lib.rs", "original\n");
    let mut engine = SuggestionEngine::new();
    engine.suggestions.push(suggestion(7, "src/lib.rs", Priority::High, SuggestionKind::BugFix, 1));

    let change = apply_fix(&mut ws, &mut engine, 7, "src/lib.rs", "fixed\n", "fix".to_string(), "+1 -1".to_string()).unwrap();
    assert_eq!(ws.read("src/lib.rs"), Some("fixed\n".to_string()));
    assert_eq!(ws.read(&change.backup_path), Some("original\n".to_string()));
    assert!(engine.suggestions[0].applied);

    undo_change(&mut ws, &mut engine, &change).unwrap();
    assert_eq!(ws.read("src/lib.rs"), Some("original\n".to_string()));
    assert_eq!(ws.read(&change.backup_path), None);
    assert!(!engine.suggestions[0].applied);
}

#[test]
fn fix_of_missing_file_changes_nothing() {
    let mut ws = Workspace::new();
    let mut engine = SuggestionEngine::new();
    engine.suggestions.push(suggestion(7, "a.rs", Priority::High, SuggestionKind::BugFix, 1));
    assert!(apply_fix(&mut ws, &mut engine, 7, "a.rs", "x", String::new(), String::new()).is_err());
    assert!(!engine.suggestions[0].applied);
    assert_eq!(ws.read("a.rs"), None);
}
