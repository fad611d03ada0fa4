use unsoundness_checker::categories::Category;
use unsoundness_checker::docs::{generate_markdown, rules_in_category};
use unsoundness_checker::rule::{RuleId, RuleRegistryBuilder};
use unsoundness_checker::rules::{
    default_rule_registry, INVALID_FUNCTION_DEFAULTS, INVALID_SETATTR, MUTATING_FUNCTION_CODE_ATTRIBUTE,
    MUTATING_GLOBALS_DICT,
};

#[test]
fn runtime_modification_rules() {
    let registry = default_rule_registry();
    let ids = rules_in_category(&registry, Category::RuntimeModification);
    assert_eq!(
        ids,
        vec![
            RuleId { index: INVALID_FUNCTION_DEFAULTS },
            RuleId { index: MUTATING_FUNCTION_CODE_ATTRIBUTE },
            RuleId { index: MUTATING_GLOBALS_DICT },
            RuleId { index: INVALID_SETATTR },
        ]
    );
    assert_eq!(rules_in_category(&registry, Category::TypeCheckingSuppression).len(), 7);
}

#[test]
fn categories_page() {
    let registry = default_rule_registry();
    let page = generate_markdown(&registry);
    let expected_start = "# Categories\n\n\
This page describes the different categories of type system unsoundness that the checker can detect.\n\n\
## runtime-modification\n\n\
Runtime code modifications that escape static type checker analysis.\n\n\
Examples: modifying `__code__`, `__defaults__`, or other runtime attributes\n\
that change behavior in ways type checkers cannot detect.\n\n\
### Rules in this category\n\n\
- [`invalid-function-defaults`](rule-list.md#invalid-function-defaults) - detects invalid mutation of the `__defaults__` attribute of a function\n\
- [`mutating-function-code-attribute`](rule-list.md#mutating-function-code-attribute) - detects mutating the `__code__` attribute of a function\n\
- [`mutating-globals-dict`](rule-list.md#mutating-globals-dict) - detects mutations to the `globals()` dictionary\n\
- [`invalid-setattr`](rule-list.md#invalid-setattr) - detects invalid usage of `setattr()` built-in function\n\
## type-checking-suppression\n\n";
    assert!(page.starts_with(expected_start), "{page}");
    assert!(page.ends_with(
        "- [`mangled-dunder-instance-variable`](rule-list.md#mangled-dunder-instance-variable) - detects explicit usage of mangled dunder instance variables\n"
    ));
}

#[test]
fn empty_category_is_marked() {
    let registry = RuleRegistryBuilder::new().build();
    let page = generate_markdown(&registry);
    assert_eq!(page.matches("*No rules in this category.*\n\n").count(), 2);
}
