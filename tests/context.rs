use unsoundness_checker::context::Context;
use unsoundness_checker::diagnostic::{decimal_text, render_all, DiagnosticTag, TextRange};
use unsoundness_checker::rule::{Level, RuleId, Severity};
use unsoundness_checker::rules::{default_rule_registry, TYPING_ANY_USED, TYPING_CAST_USED};
use unsoundness_checker::selection::{OverrideSource, RuleOverride, RuleSelection, RuleSource};

#[test]
fn guard_builds_and_emits_with_provenance() {
    let registry = default_rule_registry();
    let selection = RuleSelection::from_registry(&registry);
    let mut ctx = Context::new(7, &registry, &selection);
    let range = TextRange { start: 3, end: 9 };
    let builder = ctx.report_lint(RuleId { index: TYPING_CAST_USED }, range).expect("enabled by default");
    assert_eq!(builder.severity, Severity::Warning);
    assert_eq!(builder.source, RuleSource::Default);
    assert_eq!(builder.name, "typing-cast-used");
    let mut guard = builder.into_diagnostic("message".to_string());
    guard.info("first".to_string());
    guard.info("second".to_string());
    guard.set_primary_message("here".to_string());
    guard.add_primary_tag(DiagnosticTag::Unnecessary);
    assert!(guard.diagnostic().provenance.is_empty());
    guard.emit(&mut ctx);
    let ds = ctx.into_diagnostics();
    assert_eq!(ds.len(), 1);
    let d = &ds[0];
    assert_eq!(d.primary.file, 7);
    assert_eq!(d.primary.range, range);
    assert_eq!(d.primary.message.as_deref(), Some("here"));
    assert_eq!(d.primary.tags, vec![DiagnosticTag::Unnecessary]);
    assert_eq!(d.infos, vec!["first".to_string(), "second".to_string()]);
    assert_eq!(d.provenance, "rule `typing-cast-used` is enabled by default");
}

#[test]
fn disabled_rule_gives_no_builder() {
    let registry = default_rule_registry();
    let overrides =
        vec![RuleOverride { name: "typing-any-used".to_string(), level: Level::Ignore, source: OverrideSource::Cli }];
    let (selection, _) = RuleSelection::from_rules_selection(&registry, Some(&overrides));
    let mut ctx = Context::new(0, &registry, &selection);
    assert!(ctx.report_lint(RuleId { index: TYPING_ANY_USED }, TextRange { start: 0, end: 1 }).is_none());
    ctx.report(RuleId { index: TYPING_ANY_USED }, TextRange { start: 0, end: 1 }, "m".to_string(), vec![]);
    assert!(ctx.into_diagnostics().is_empty());
}

#[test]
fn report_emits_once_with_infos() {
    let registry = default_rule_registry();
    let selection = RuleSelection::from_registry(&registry);
    let mut ctx = Context::new(0, &registry, &selection);
    ctx.report(
        RuleId { index: TYPING_CAST_USED },
        TextRange { start: 1, end: 2 },
        "m".to_string(),
        vec!["a".to_string(), "b".to_string()],
    );
    let ds = ctx.into_diagnostics();
    assert_eq!(ds.len(), 1);
    assert_eq!(ds[0].infos, vec!["a".to_string(), "b".to_string()]);
    assert_eq!(ds[0].message, "m");
}

#[test]
fn rendering_is_exact() {
    assert_eq!(decimal_text(0), "0");
    assert_eq!(decimal_text(7), "7");
    assert_eq!(decimal_text(1234), "1234");
    assert_eq!(decimal_text(u32::MAX), "4294967295");
    let registry = default_rule_registry();
    let selection = RuleSelection::from_registry(&registry);
    let mut ctx = Context::new(0, &registry, &selection);
    ctx.report(
        RuleId { index: TYPING_CAST_USED },
        TextRange { start: 12, end: 16 },
        "Using `typing.cast()` bypasses type checking and can lead to runtime type errors.".to_string(),
        vec!["Consider using `isinstance` checks to ensure types at runtime.".to_string()],
    );
    let ds = ctx.into_diagnostics();
    assert_eq!(
        ds[0].render("test.py"),
        "warning[typing-cast-used]: Using `typing.cast()` bypasses type checking and can lead to runtime type errors.\n --> test.py:12..16\ninfo: Consider using `isinstance` checks to ensure types at runtime.\ninfo: rule `typing-cast-used` is enabled by default\n"
    );
    assert_eq!(render_all(&ds, "test.py"), format!("{}\n", ds[0].render("test.py")));
}
