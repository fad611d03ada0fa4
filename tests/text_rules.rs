use unsoundness_checker::cli::{rule_counts, ExitStatus, SummaryMode};
use unsoundness_checker::diagnostic::{Annotation, Diagnostic, TextRange};
use unsoundness_checker::directives::{find_type_checking_directive, is_whitespace};
use unsoundness_checker::expressions::is_mangled_dunder_variable;
use unsoundness_checker::rule::{Level, RuleId, RuleMetadata, RuleStatus, Severity};
use unsoundness_checker::text::{str_eq, str_lt, str_starts_with};

#[test]
fn directive_prefixes_are_recognised() {
    assert_eq!(find_type_checking_directive("# type: ignore"), Some("type: ignore"));
    assert_eq!(find_type_checking_directive("# type: ignore[attr-defined]"), Some("type: ignore"));
    assert_eq!(find_type_checking_directive("#   pyright: ignore[reportGeneralTypeIssues]  "), Some("pyright: ignore"));
    assert_eq!(find_type_checking_directive("# ty: ignore"), Some("ty: ignore"));
    assert_eq!(find_type_checking_directive("# pyrefly: ignore"), Some("pyrefly: ignore"));
    assert_eq!(find_type_checking_directive("x = 1  # type: ignore"), Some("type: ignore"));
}

#[test]
fn non_directives_are_ignored() {
    assert_eq!(find_type_checking_directive("# a normal comment"), None);
    assert_eq!(find_type_checking_directive("#type: ignore"), None);
    assert_eq!(find_type_checking_directive("# note: type: ignore"), None);
    assert_eq!(find_type_checking_directive(""), None);
    assert_eq!(find_type_checking_directive("#"), None);
    assert_eq!(find_type_checking_directive("# "), None);
}

#[test]
fn whitespace_follows_unicode() {
    assert!(is_whitespace(' '));
    assert!(is_whitespace('\t'));
    assert!(is_whitespace('\u{3000}'));
    assert!(!is_whitespace('a'));
    assert!(!is_whitespace('\u{200b}'));
}

#[test]
fn mangled_names() {
    assert!(is_mangled_dunder_variable("_Foo__secret", "Foo"));
    assert!(!is_mangled_dunder_variable("_Foo__", "Foo"));
    assert!(!is_mangled_dunder_variable("_Bar__secret", "Foo"));
    assert!(!is_mangled_dunder_variable("__secret", "Foo"));
    assert!(!is_mangled_dunder_variable("_Foo_secret", "Foo"));
}

#[test]
fn string_helpers() {
    assert!(str_eq("abc", "abc"));
    assert!(!str_eq("abc", "abd"));
    assert!(!str_eq("abc", "ab"));
    assert!(str_starts_with("abcdef", "abc"));
    assert!(str_starts_with("abc", ""));
    assert!(!str_starts_with("ab", "abc"));
}

#[test]
fn documentation_lines_are_cleaned() {
    let metadata = RuleMetadata {
        name: "r".to_string(),
        summary: String::new(),
        raw_documentation: " ## What it does\n  indented  \r\n\ttab\n\nlast".to_string(),
        default_level: Level::Warn,
        status: RuleStatus::stable("1.0.0"),
        categories: vec![],
    };
    assert_eq!(metadata.documentation_lines(), vec!["## What it does", " indented", "tab", "", "last"]);
    let trailing = RuleMetadata { raw_documentation: "a\n".to_string(), ..metadata.clone() };
    assert_eq!(trailing.documentation_lines(), vec!["a"]);
    let empty = RuleMetadata { raw_documentation: String::new(), ..metadata };
    assert!(empty.documentation_lines().is_empty());
}

fn diagnostic(rule: usize, name: &str, severity: Severity) -> Diagnostic {
    Diagnostic {
        rule: RuleId { index: rule },
        name: name.to_string(),
        severity,
        message: String::new(),
        primary: Annotation { file: 0, range: TextRange { start: 0, end: 1 }, message: None, tags: vec![] },
        infos: vec![],
        provenance: String::new(),
    }
}

#[test]
fn exit_status_distinguishes_errors() {
    assert_eq!(ExitStatus::from_diagnostics(&vec![]), ExitStatus::Success);
    let warnings = vec![diagnostic(0, "typing-any-used", Severity::Warning)];
    assert_eq!(ExitStatus::from_diagnostics(&warnings), ExitStatus::Success);
    let errors = vec![diagnostic(0, "typing-any-used", Severity::Warning), diagnostic(1, "x", Severity::Error)];
    assert_eq!(ExitStatus::from_diagnostics(&errors), ExitStatus::Failure);
    assert_eq!(ExitStatus::Success.to_i32(), 0);
    assert_eq!(ExitStatus::Failure.to_i32(), 1);
    assert_eq!(ExitStatus::Error.to_i32(), 2);
}

#[test]
fn counts_group_by_rule_in_first_appearance_order() {
    let ds = vec![
        diagnostic(3, "c", Severity::Warning),
        diagnostic(0, "a", Severity::Warning),
        diagnostic(3, "c", Severity::Warning),
        diagnostic(3, "c", Severity::Warning),
    ];
    let counts = rule_counts(&ds);
    assert_eq!(counts, vec![(RuleId { index: 3 }, 3, "c".to_string()), (RuleId { index: 0 }, 1, "a".to_string())]);
    assert!(rule_counts(&vec![]).is_empty());
}

#[test]
fn summary_modes() {
    assert!(SummaryMode::False.shows_diagnostics());
    assert!(!SummaryMode::False.shows_summary());
    assert!(SummaryMode::True.shows_diagnostics());
    assert!(SummaryMode::True.shows_summary());
    assert!(!SummaryMode::Only.shows_diagnostics());
    assert!(SummaryMode::Only.shows_summary());
    assert_eq!(SummaryMode::default(), SummaryMode::False);
}

#[test]
fn lexicographic_order() {

    assert!(str_lt("callable", "typing"));
    assert!(str_lt("abc", "abd"));
    assert!(str_lt("ab", "abc"));
    assert!(!str_lt("abc", "abc"));
    assert!(!str_lt("b", "abc"));
    assert!(!str_lt("", ""));
    assert!(str_lt("", "a"));
}
