//! What a run prints after its diagnostics, for the summary modes.
use unsoundness_checker::cli::{closing_text, summary, SummaryMode};
use unsoundness_checker::context::Context;
use unsoundness_checker::diagnostic::{Diagnostic, TextRange};
use unsoundness_checker::rule::RuleId;
use unsoundness_checker::rules::{default_rule_registry, CALLABLE_ELLIPSIS_USED, TYPING_ANY_USED};
use unsoundness_checker::selection::RuleSelection;

/// Diagnostics of the given rules, in that order, under the default selection.
fn diagnostics(rules: &[usize]) -> Vec<Diagnostic> {
    let registry = default_rule_registry();
    let selection = RuleSelection::from_registry(&registry);
    let mut ctx = Context::new(0, &registry, &selection);
    for (k, rule) in rules.iter().enumerate() {
        let at = 10 * k as u32;
        ctx.report(RuleId { index: *rule }, TextRange { start: at, end: at + 3 }, "m".to_string(), vec![]);
    }
    ctx.into_diagnostics()
}

#[test]
fn test_summary_false_default() {
    let ds = diagnostics(&[TYPING_ANY_USED]);
    assert_eq!(closing_text(&ds, SummaryMode::default()), "Found 1 diagnostic\n");
}

#[test]
fn test_summary_one_rule() {
    let ds = diagnostics(&[TYPING_ANY_USED]);
    assert_eq!(closing_text(&ds, SummaryMode::False), "Found 1 diagnostic\n");
    assert_eq!(
        closing_text(&ds, SummaryMode::True),
        "Found 1 diagnostic\n\nSummary:\n  typing-any-used: 1\n\nTotal: 1 diagnostic\n"
    );
    assert_eq!(closing_text(&ds, SummaryMode::Only), "\nSummary:\n  typing-any-used: 1\n\nTotal: 1 diagnostic\n");
}

#[test]
fn test_summary_multiple_rules() {
    let ds = diagnostics(&[TYPING_ANY_USED, CALLABLE_ELLIPSIS_USED]);
    assert_eq!(
        closing_text(&ds, SummaryMode::True),
        "Found 2 diagnostics\n\nSummary:\n  callable-ellipsis-used: 1\n  typing-any-used: 1\n\nTotal: 2 diagnostics\n"
    );
    assert_eq!(
        closing_text(&ds, SummaryMode::Only),
        "\nSummary:\n  callable-ellipsis-used: 1\n  typing-any-used: 1\n\nTotal: 2 diagnostics\n"
    );
}

#[test]
fn test_summary_no_diagnostics() {
    assert_eq!(closing_text(&vec![], SummaryMode::True), "All checks passed\n");
}

#[test]
fn summary_is_sorted_by_name_with_counts() {
    let ds = diagnostics(&[TYPING_ANY_USED, CALLABLE_ELLIPSIS_USED, TYPING_ANY_USED, TYPING_ANY_USED]);
    assert_eq!(
        summary(&ds),
        vec![("callable-ellipsis-used".to_string(), 1), ("typing-any-used".to_string(), 3)]
    );
    assert!(summary(&vec![]).is_empty());
}
