use cosmos::build_info::{short_oid, stale_build_notice};
use cosmos::grouping::{parse_confidence, should_enhance, Confidence};
use cosmos::index::{is_ignored, FileTree, FileTreeEntry, Pattern, PatternKind, PatternSeverity, SymbolKind};
use cosmos::llm::{kind_from_name, priority_from_name, suggestion_from_response, Model};
use cosmos::refactor::parse_multi_file_diff;
use cosmos::suggest::{
    pattern_to_refactoring_suggestion, Priority, Suggestion, SuggestionEngine, SuggestionKind, SuggestionSource,
};
use cosmos::theme::{constellation_line, sparkline, star_rating};
use cosmos::ui::{ActivePanel, Overlay};
use cosmos::util::{format_time_ago, resolve_repo_path, truncate, truncate_path, truncate_text};
use cosmos::workflow::{Action, Finding, ShipStep, Stage, Workflow};

fn finding(title: &str, blocking: bool) -> Finding {
    Finding { title: title.to_string(), blocking, selected: false }
}

#[test]
fn workflow_runs_from_selection_to_shipping() {
    let mut w = Workflow::new();
    assert_eq!(w.select(7), Action::RequestPreview(7));
    assert_eq!(w.stage, Stage::Verify);
    // A preview for another suggestion is stale and ignored.
    assert!(!w.preview_ready(8, "other".to_string()));
    assert!(w.preview_ready(7, "preview".to_string()));
    assert_eq!(w.confirm(), Action::GenerateFix(7));
    assert_eq!(w.fix_applied(7, true), Action::RunVerification(7));
    assert_eq!(w.stage, Stage::Review);
    assert!(w.verification_done(7, vec![finding("leak", true), finding("style", false)]));
    assert!(!w.accept());
    w.toggle_finding(0);
    assert_eq!(w.refix(), Action::RefixSelected(7));
    assert_eq!(w.iteration, 1);
    assert_eq!(w.refix_done(7, true), Action::RunVerification(7));
    // The addressed finding is not reported again.
    assert!(w.verification_done(7, vec![finding("leak", true), finding("naming", false)]));
    assert_eq!(w.findings.len(), 1);
    assert_eq!(w.findings[0].title, "naming");
    assert!(w.accept());
    assert_eq!(w.stage, Stage::Ship);
    assert_eq!(w.ship_confirm(), Action::Commit(7));
    assert_eq!(w.ship_step_done(7, true, String::new()), Action::Push(7));
    assert_eq!(w.ship_step_done(7, false, "push rejected".to_string()), Action::Idle);
    assert_eq!(w.ship_step, ShipStep::Pushing);
    assert_eq!(w.ship_error, Some("push rejected".to_string()));
    assert!(w.back());
    assert_eq!(w.stage, Stage::Suggestions);
    assert!(w.suggestion.is_none());
}

#[test]
fn failed_fix_returns_to_suggestions_and_stale_results_are_dropped() {
    let mut w = Workflow::new();
    assert_eq!(w.confirm(), Action::Idle);
    w.select(1);
    assert_eq!(w.confirm(), Action::Idle);
    w.preview_ready(1, "p".to_string());
    w.confirm();
    assert_eq!(w.fix_applied(2, true), Action::Idle);
    assert_eq!(w.stage, Stage::Verify);
    assert_eq!(w.fix_applied(1, false), Action::Idle);
    assert_eq!(w.stage, Stage::Suggestions);
    assert!(!w.back());
}

#[test]
fn ship_sequence_reaches_done_in_order() {
    let mut w = Workflow::new();
    w.select(3);
    w.preview_ready(3, "p".to_string());
    w.confirm();
    w.fix_applied(3, true);
    w.verification_done(3, vec![]);
    assert!(w.accept());
    assert_eq!(w.ship_step_done(3, true, String::new()), Action::Idle);
    w.ship_confirm();
    assert_eq!(w.ship_step_done(3, true, String::new()), Action::Push(3));
    assert_eq!(w.ship_step_done(3, true, String::new()), Action::CreatePullRequest(3));
    assert_eq!(w.ship_step_done(3, true, String::new()), Action::Idle);
    assert_eq!(w.ship_step, ShipStep::Done);
}

#[test]
fn new_suggestions_get_distinct_ids_and_a_creation_time() {
    let a = Suggestion::new(SuggestionKind::BugFix, Priority::High, "a.rs".to_string(), "a".to_string(), SuggestionSource::Static);
    let b = Suggestion::new(SuggestionKind::BugFix, Priority::High, "a.rs".to_string(), "a".to_string(), SuggestionSource::Static);
    assert_ne!(a.id, b.id);
    assert!(a.created_at > 1_600_000_000_000);
}

#[test]
fn suggestion_display_and_files() {
    let s = Suggestion::new(SuggestionKind::Quality, Priority::Low, "src/a.rs".to_string(), "tidy".to_string(), SuggestionSource::Cached)
        .with_line(12)
        .with_additional_files(vec!["src/b.rs".to_string()]);
    assert_eq!(s.display_summary(), "src/a.rs:12 [2] - tidy");
    assert_eq!(s.affected_files(), vec!["src/a.rs".to_string(), "src/b.rs".to_string()]);
    assert!(s.is_multi_file());
    assert_eq!(s.file_count(), 2);
    let plain = Suggestion::new(SuggestionKind::Quality, Priority::Low, "x".to_string(), "y".to_string(), SuggestionSource::Static);
    assert_eq!(plain.display_summary(), "x - y");
}

#[test]
fn static_suggestions_cover_refactoring_patterns_only() {
    let p = |kind, description: &str| Pattern { kind, file: "f.rs".to_string(), line: 3, description: description.to_string() };
    let long = pattern_to_refactoring_suggestion(&p(PatternKind::LongFunction, "run is 80 lines")).unwrap();
    assert_eq!(long.summary, "This function is run is 80 lines - consider breaking it into smaller, focused functions");
    assert_eq!(long.priority, Priority::Medium);
    assert_eq!(long.kind, SuggestionKind::Refactoring);
    assert_eq!(long.line, Some(3));
    assert!(pattern_to_refactoring_suggestion(&p(PatternKind::TodoMarker, "TODO")).is_none());

    let mut engine = SuggestionEngine::new();
    engine.generate_static_suggestions(&vec![
        p(PatternKind::ManyParameters, "f has 7 parameters"),
        p(PatternKind::UnusedImport, "x"),
        p(PatternKind::GodModule, "File has 900 lines"),
    ]);
    assert_eq!(engine.suggestions.len(), 2);
    assert_eq!(engine.suggestions[0].priority, Priority::High);
    assert_eq!(engine.suggestions[1].summary, "f has 7 parameters - consider grouping related parameters into a struct");
}

#[test]
fn llm_suggestions_are_added_in_priority_order() {
    let mut engine = SuggestionEngine::new();
    engine.add_llm_suggestion(suggestion_from_response("a.rs".to_string(), "testing", "low", "t".to_string(), "d".to_string(), None));
    engine.add_llm_suggestion(suggestion_from_response("b.rs".to_string(), "bugfix", "high", "b".to_string(), "d".to_string(), Some(4)));
    engine.add_llm_suggestion(suggestion_from_response("c.rs".to_string(), "weird", "whatever", "c".to_string(), "d".to_string(), None));
    let kinds: Vec<SuggestionKind> = engine.suggestions.iter().map(|s| s.kind).collect();
    assert_eq!(kinds, vec![SuggestionKind::BugFix, SuggestionKind::Improvement, SuggestionKind::Testing]);
    assert_eq!(engine.suggestions[0].line, Some(4));
    assert_eq!(engine.suggestions[1].priority, Priority::Medium);
    assert_eq!(engine.suggestions[0].source, SuggestionSource::LlmDeep);
    assert_eq!(kind_from_name("documentation"), SuggestionKind::Documentation);
    assert_eq!(priority_from_name("HIGH"), Priority::Medium);
}

#[test]
fn labels_icons_and_priorities() {
    assert_eq!(SuggestionKind::BugFix.label(), "Fix");
    assert_eq!(SuggestionKind::Refactoring.icon(), '\u{1F527}');
    assert_eq!(Priority::from_severity(PatternSeverity::Info), Priority::Low);
    assert_eq!(Priority::High.icon(), '\u{25CF}');
    assert_eq!(SuggestionSource::Static.icon(), "  ");
    assert_eq!(SymbolKind::Trait.icon(), 'T');
    assert_eq!(PatternKind::GodModule.description(), "File exceeds 500 lines");
    assert_eq!(Model::GrokFast.id(), "x-ai/grok-3-fast");
    assert_eq!(Model::Opus.max_tokens(), 4096);
    assert_eq!(parse_confidence("MED"), Confidence::Medium);
    assert_eq!(parse_confidence("sure"), Confidence::Low);
    assert!(should_enhance(true, 5, 0));
    assert!(!should_enhance(false, 9, 9));
    assert!(!should_enhance(true, 4, 4));
}

#[test]
fn panels_cycle_and_overlay_starts_hidden() {
    assert_eq!(ActivePanel::from_index(5), ActivePanel::Tests);
    assert_eq!(ActivePanel::from_index(9), ActivePanel::DangerZones);
    assert_eq!(ActivePanel::Tests.next(), ActivePanel::DangerZones);
    assert_eq!(ActivePanel::DangerZones.prev(), ActivePanel::Tests);
    assert_eq!(ActivePanel::Todos.index(), 3);
    assert_eq!(ActivePanel::count(), 6);
    assert_eq!(Overlay::default(), Overlay::Hidden);
}

#[test]
fn gauges_and_lines() {
    assert_eq!(star_rating(2, 4), "\u{2726}\u{2726}\u{2727}\u{2727}");
    assert_eq!(constellation_line(5), "\u{b7} \u{b7} \u{b7}");
    assert_eq!(sparkline(&[], 3), "   ");
    assert_eq!(sparkline(&[0, 100], 4), "  \u{2581}\u{2588}");
    assert_eq!(sparkline(&[5, 5], 2), "\u{2581}\u{2581}");
    assert_eq!(cosmos::theme::bar_gauge(50, 4), "\u{2588}\u{2588}\u{2591}\u{2591}");
    assert_eq!(cosmos::theme::dot_gauge(80, 5), "\u{25CF}\u{25CF}\u{25CF}\u{25CF}\u{25CB}");
}

#[test]
fn text_shortening() {
    assert_eq!(truncate("short", 10), "short");
    assert_eq!(truncate("abcdefgh", 6), "abc...");
    assert_eq!(truncate_text("hello world", 8), "hello...");
    assert_eq!(truncate_path("src/deep/path/file.rs", 10), "...file.rs");
    assert_eq!(format_time_ago(0), "today");
    assert_eq!(format_time_ago(1), "1d");
    assert_eq!(format_time_ago(6), "6d");
    assert_eq!(format_time_ago(21), "3w");
    assert_eq!(format_time_ago(90), "3mo");
    assert_eq!(format_time_ago(800), "2y");
}

#[test]
fn repository_paths_are_checked() {
    assert_eq!(resolve_repo_path("/repo", "", "/repo").unwrap_err(), "Path is empty");
    assert!(resolve_repo_path("/repo", "/etc/passwd", "/etc/passwd").unwrap_err().starts_with("Absolute paths"));
    assert!(resolve_repo_path("/repo", "a/../../x", "/x").unwrap_err().starts_with("Parent traversal"));
    assert!(resolve_repo_path("/repo", "link", "/repository/x").unwrap_err().starts_with("Path escapes"));
    let p = resolve_repo_path("/repo", "src/a.rs", "/repo/src/a.rs").unwrap();
    assert_eq!(p.relative, "src/a.rs");
    assert_eq!(p.absolute, "/repo/src/a.rs");
}

#[test]
fn build_staleness() {
    assert!(stale_build_notice("unknown", Some("abc".to_string())).is_none());
    assert!(stale_build_notice("abc1234+dirty", Some("abc1234".to_string())).is_none());
    let info = stale_build_notice("abc1234", Some("def5678+dirty".to_string())).unwrap();
    assert_eq!(info.current, "def5678+dirty");
    assert!(stale_build_notice("abc1234", None).is_none());
    assert_eq!(short_oid("0123456789abcdef", 7), "0123456");
    assert_eq!(short_oid("0123", 0), "0");
    assert_eq!(short_oid("0123", 10), "0123");
}

#[test]
fn ignored_names_and_tree_rows() {
    assert!(is_ignored("node_modules"));
    assert!(is_ignored(".hidden"));
    assert!(!is_ignored("src"));
    let leaf = |name: &str, depth| FileTreeEntry {
        name: name.to_string(),
        path: name.to_string(),
        is_dir: false,
        depth,
        priority: ' ',
        expanded: true,
        children: vec![],
    };
    let mut tree = FileTree::new();
    tree.entries.push(FileTreeEntry {
        name: "src".to_string(),
        path: "src".to_string(),
        is_dir: true,
        depth: 0,
        priority: ' ',
        expanded: true,
        children: vec![leaf("a.rs", 1), leaf("b.rs", 1)],
    });
    tree.entries.push(FileTreeEntry {
        name: "docs".to_string(),
        path: "docs".to_string(),
        is_dir: true,
        depth: 0,
        priority: ' ',
        expanded: false,
        children: vec![leaf("c.md", 1)],
    });
    let names: Vec<String> = tree.flatten().into_iter().map(|r| r.name).collect();
    assert_eq!(names, vec!["src", "a.rs", "b.rs", "docs"]);
}

#[test]
fn modify_preview_shows_hunks() {
    let plan = parse_multi_file_diff("=== MODIFY a.rs ===\n@@ -1,2 +1,2 @@\n keep\n-old\n+new\n").unwrap();
    assert_eq!(plan.operations[0].operation_type(), "MODIFY");
    assert_eq!(plan.operations[0].path(), "a.rs");
    assert_eq!(plan.operations[0].preview_lines(), vec!["@@ -1,2 +1,2 @@", " keep", "-old", "+new"]);
}
