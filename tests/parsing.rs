use cosmos::grouping::{parse_confidence, parse_layer, Confidence, Layer};
use cosmos::index::{Language, PatternKind};
use cosmos::llm::truncate_content;
use cosmos::refactor::{parse_multi_file_diff, FileOperation};
use cosmos::suggest::{Priority, Suggestion, SuggestionKind, SuggestionSource};
use cosmos::theme::{bar_gauge, dot_gauge, sparkline};
use cosmos::util::truncate;

#[test]
fn test_parse_layer() {
    assert_eq!(parse_layer("Frontend"), Layer::Frontend);
    assert_eq!(parse_layer("BACKEND"), Layer::Backend);
    assert_eq!(parse_layer("api"), Layer::API);
    assert_eq!(parse_layer("unknown"), Layer::Unknown);
}

#[test]
fn test_parse_confidence() {
    assert_eq!(parse_confidence("high"), Confidence::High);
    assert_eq!(parse_confidence("medium"), Confidence::Medium);
    assert_eq!(parse_confidence("low"), Confidence::Low);
}

#[test]
fn test_language_detection() {
    assert_eq!(Language::from_extension("rs"), Language::Rust);
    assert_eq!(Language::from_extension("js"), Language::JavaScript);
    assert_eq!(Language::from_extension("ts"), Language::TypeScript);
    assert_eq!(Language::from_extension("py"), Language::Python);
    assert_eq!(Language::from_extension("go"), Language::Go);
    assert_eq!(Language::from_extension("txt"), Language::Unknown);
}

#[test]
fn test_pattern_severity() {
    assert!(PatternKind::DeepNesting.severity() > PatternKind::UnusedImport.severity());
}

#[test]
fn test_parse_create_operation() {
    let input = r#"=== CREATE src/new_file.rs ===
pub fn hello() {
    println!("Hello!");
}
"#;
    let plan = parse_multi_file_diff(input).unwrap();
    assert_eq!(plan.operations.len(), 1);
    match &plan.operations[0] {
        FileOperation::Create { path, content } => {
            assert_eq!(path, "src/new_file.rs");
            assert!(content.contains("pub fn hello()"));
        }
        _ => panic!("Expected Create operation"),
    }
}

#[test]
fn test_parse_multiple_operations() {
    let input = r#"=== CREATE src/a.rs ===
content a

=== CREATE src/b.rs ===
content b

=== DELETE src/old.rs ===
"#;
    let plan = parse_multi_file_diff(input).unwrap();
    assert_eq!(plan.operations.len(), 3);

    let stats = plan.stats();
    assert_eq!(stats.creates, 2);
    assert_eq!(stats.deletes, 1);
}

#[test]
fn test_parse_rename_operation() {
    let input = "=== RENAME old/path.rs -> new/path.rs ===\n";
    let plan = parse_multi_file_diff(input).unwrap();
    assert_eq!(plan.operations.len(), 1);
    match &plan.operations[0] {
        FileOperation::Rename { from, to } => {
            assert_eq!(from, "old/path.rs");
            assert_eq!(to, "new/path.rs");
        }
        _ => panic!("Expected Rename operation"),
    }
}

#[test]
fn test_truncate_content() {
    let content = "line1\nline2\nline3\nline4\nline5";
    let truncated = truncate_content(content, 15);
    assert!(truncated.contains("truncated"));
    assert!(truncated.len() < content.len() + 20);
}

#[test]
fn test_priority_ordering() {
    assert!(Priority::High > Priority::Medium);
    assert!(Priority::Medium > Priority::Low);
}

#[test]
fn test_suggestion_creation() {
    let suggestion = Suggestion::new(
        SuggestionKind::Improvement,
        Priority::High,
        "test.rs".to_string(),
        "Test suggestion".to_string(),
        SuggestionSource::Static,
    );

    assert!(!suggestion.dismissed);
    assert!(!suggestion.applied);
}

#[test]
fn test_sparkline() {
    let values = vec![50, 60, 70, 80, 90, 100, 90, 80];
    let spark = sparkline(&values, 8);
    assert_eq!(spark.chars().count(), 8);
}

#[test]
fn test_bar_gauge() {
    let bar = bar_gauge(50, 10);
    assert_eq!(bar.chars().count(), 10);
}

#[test]
fn test_dot_gauge() {
    let dots = dot_gauge(80, 5);
    assert_eq!(dots.chars().count(), 5);
}

#[test]
fn test_truncate_unicode_safe() {
    let input = "ééééé";
    assert_eq!(truncate(input, 4), "é...");
}

#[test]
fn test_truncate_small_max() {
    let input = "こんにちは";
    assert_eq!(truncate(input, 3), "こんに");
    assert_eq!(truncate(input, 0), "");
}
