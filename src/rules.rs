//! The rules this checker knows, and the default registry that holds them.
use vstd::prelude::*;
use vstd::string::*;

use crate::categories::Category;
use crate::rule::{Level, RuleMetadata, RuleRegistry, RuleRegistryBuilder, RuleStatus};
use crate::text::owned;

verus! {

pub const TYPING_ANY_USED: usize = 0;
pub const INVALID_OVERLOAD_IMPLEMENTATION: usize = 1;
pub const TYPING_OVERLOAD_USED: usize = 2;
pub const TYPE_CHECKING_DIRECTIVE_USED: usize = 3;
pub const IF_TYPE_CHECKING_USED: usize = 4;
pub const INVALID_FUNCTION_DEFAULTS: usize = 5;
pub const MUTATING_FUNCTION_CODE_ATTRIBUTE: usize = 6;
pub const TYPING_CAST_USED: usize = 7;
pub const MUTATING_GLOBALS_DICT: usize = 8;
pub const TYPING_TYPE_IS_USED: usize = 9;
pub const CALLABLE_ELLIPSIS_USED: usize = 10;
pub const MUTABLE_GENERIC_DEFAULT: usize = 11;
pub const MANGLED_DUNDER_INSTANCE_VARIABLE: usize = 12;
pub const INVALID_SETATTR: usize = 13;

/// How many rules the default registry holds.
pub const RULE_COUNT: usize = 14;

/// The name of the rule registered at position `k` of the default registry.
pub open spec fn rule_name(k: int) -> Seq<char> {
    if k == 0 {
        "typing-any-used"@
    } else if k == 1 {
        "invalid-overload-implementation"@
    } else if k == 2 {
        "typing-overload-used"@
    } else if k == 3 {
        "type-checking-directive-used"@
    } else if k == 4 {
        "if-type-checking-used"@
    } else if k == 5 {
        "invalid-function-defaults"@
    } else if k == 6 {
        "mutating-function-code-attribute"@
    } else if k == 7 {
        "typing-cast-used"@
    } else if k == 8 {
        "mutating-globals-dict"@
    } else if k == 9 {
        "typing-type-is-used"@
    } else if k == 10 {
        "callable-ellipsis-used"@
    } else if k == 11 {
        "mutable-generic-default"@
    } else if k == 12 {
        "mangled-dunder-instance-variable"@
    } else {
        "invalid-setattr"@
    }
}

/// The default level of the rule registered at position `k` of the default registry.
pub open spec fn rule_level(k: int) -> Level {
    if k == 1 || k == 5 || k == 6 || k == 8 || k == 11 {
        Level::Error
    } else {
        Level::Warn
    }
}

/// The categories of the rule registered at position `k` of the default registry.
pub open spec fn rule_categories(k: int) -> Seq<Category> {
    if k == 0 || k == 3 || k == 4 || k == 7 || k == 9 || k == 10 || k == 12 {
        seq![Category::TypeCheckingSuppression]
    } else if k == 5 || k == 6 || k == 8 || k == 13 {
        seq![Category::RuntimeModification]
    } else {
        Seq::empty()
    }
}

fn stable_rule(name: &str, summary: &str, documentation: &str, default_level: Level, categories: Vec<Category>) -> (r: RuleMetadata)
    ensures
        r.name@ == name@,
        r.summary@ == summary@,
        r.raw_documentation@ == documentation@,
        r.default_level == default_level,
        r.status is Stable,
        r.categories@ == categories@,
{
    RuleMetadata {
        name: owned(name),
        summary: owned(summary),
        raw_documentation: owned(documentation),
        default_level,
        status: RuleStatus::stable("1.0.0"),
        categories,
    }
}

/// The rule registered at position `k` of the default registry.
pub fn rule_definition(k: usize) -> (r: RuleMetadata)
    requires
        k < RULE_COUNT,
    ensures
        r.name@ == rule_name(k as int),
        r.default_level == rule_level(k as int),
        r.status is Stable,
        r.categories@ == rule_categories(k as int),
{
    let suppression = Category::TypeCheckingSuppression;
    let runtime = Category::RuntimeModification;
    if k == TYPING_ANY_USED {
        stable_rule("typing-any-used", "detects usage of `typing.Any` in type annotations",
            "## What it does\nChecks for usage of `typing.Any` in type annotations.\n\n## Why is this bad?\nUsing `typing.Any` in type annotations can lead to runtime errors.\n\n## Examples\n```python\nfrom typing import Any\n\ndef foo(x: Any) -> Any:\n    return x + 1\n\nfoo(\"1\")\n```\n",
            Level::Warn, vec![suppression])
    } else if k == INVALID_OVERLOAD_IMPLEMENTATION {
        stable_rule("invalid-overload-implementation", "detects invalid overload implementation",
            "## What it does\nChecks for invalid overload implementation.\n\n## Why is this bad?\nInvalid overload implementation can lead to runtime errors.\n\n## Examples\n```python\nfrom typing import overload\n\n@overload\ndef foo(x: int) -> str: ...\n@overload\ndef foo(x: str) -> int: ...\ndef foo(x: int | str) -> int | str:\n    return x\n\nfoo(\"1\")\n```\n",
            Level::Error, vec![])
    } else if k == TYPING_OVERLOAD_USED {
        stable_rule("typing-overload-used", "detects usage of overloaded functions",
            "## What it does\nChecks for usage of overloaded functions.\n\n## Why is this bad?\nUsing overloaded functions can lead to runtime errors.\nWhen users don't follow the correct overload implementation, it can lead to unexpected behavior.\n\n## Examples\n```python\nfrom typing import overload\n\n@overload\ndef foo(x: int) -> str: ...\n@overload\ndef foo(x: str) -> int: ...\ndef foo(x: int | str) -> int | str:\n    return x\n```\n",
            Level::Warn, vec![])
    } else if k == TYPE_CHECKING_DIRECTIVE_USED {
        stable_rule("type-checking-directive-used", "detects usage of type checking directives in comments",
            "## What it does\nChecks for usage of type checking directives in comments.\n\n## Why is this bad?\nType checking directives like `# type: ignore` suppress type checker warnings,\nwhich can hide potential type errors that may lead to runtime failures.\nThese directives bypass the safety guarantees that type checking provides.\n\n## Examples\n```python\n# mypy / standard (PEP 484)\nx = \"string\" + 123  # type: ignore\ny = foo()  # type: ignore[attr-defined]\n```\n",
            Level::Warn, vec![suppression])
    } else if k == IF_TYPE_CHECKING_USED {
        stable_rule("if-type-checking-used", "detects usage of `if TYPE_CHECKING:` blocks",
            "## What it does\nChecks for usage of `if TYPE_CHECKING:` blocks from the `typing` module.\n\n## Why is this bad?\n`TYPE_CHECKING` is `False` at runtime but `True` during static type checking.\nWhen used with an `else` clause where signatures don't match, the type checker\nvalidates against the `if TYPE_CHECKING` branch, but at runtime the `else` branch\nexecutes, causing runtime type errors that the type checker can't catch.\n\n## Examples\n```python\nfrom typing import TYPE_CHECKING\n\nif TYPE_CHECKING:\n    def get_value() -> int:\n        ...\nelse:\n    def get_value() -> str:\n        return \"hello\"\n\nresult: int = get_value()  # Type checks, but returns str at runtime!\n```\n",
            Level::Warn, vec![suppression])
    } else if k == INVALID_FUNCTION_DEFAULTS {
        stable_rule("invalid-function-defaults", "detects invalid mutation of the `__defaults__` attribute of a function",
            "## What it does\nChecks for invalid mutations of the `__defaults__` attribute of a function.\n\n## Why is this bad?\nModifying the `__defaults__` attribute with types different to the parameters\ncan lead to runtime type errors.\n\n## Examples\n```python\ndef foo(x: int = 1) -> int:\n    return x\n\nfoo.__defaults__ = (\"string\",)\nresult = foo()  # Returns \"string\" but type checker thinks it's int\n```\n",
            Level::Error, vec![runtime])
    } else if k == MUTATING_FUNCTION_CODE_ATTRIBUTE {
        stable_rule("mutating-function-code-attribute", "detects mutating the `__code__` attribute of a function",
            "## What it does\nChecks for mutating the `__code__` attribute of a function.\n\n## Why is this bad?\nModifying the `__code__` attribute allows runtime modification\nof function internals, which can bypass type checking and lead to runtime type errors.\nType checkers cannot analyze or verify operations performed through code objects.\n\n## Examples\n```python\ndef foo(x: int) -> int:\n    return 1\n\ndef bar(x: str) -> str:\n    return \"bar\"\n\nfoo.__code__ = bar.__code__\n# Now foo will return a string\n```\n",
            Level::Error, vec![runtime])
    } else if k == TYPING_CAST_USED {
        stable_rule("typing-cast-used", "detects usage of `typing.cast()` function calls",
            "## What it does\nChecks for usage of `typing.cast()` function calls.\n\n## Why is this bad?\n`typing.cast()` tells the type checker to treat a value as a specific type\nwithout any runtime checks or validation. This can lead to runtime type errors\nif the cast is incorrect. Type checkers trust casts completely, so incorrect\ncasts bypass all type safety guarantees.\n\n## Examples\n```python\nfrom typing import cast\n\ndef get_value() -> int | str:\n    return \"hello\"\n\nresult = cast(int, get_value())\nresult + 1  # Type checks, but fails at runtime!\n```\n",
            Level::Warn, vec![suppression])
    } else if k == MUTATING_GLOBALS_DICT {
        stable_rule("mutating-globals-dict", "detects mutations to the `globals()` dictionary",
            "## What it does\nChecks for mutations to the `globals()` dictionary.\n\n## Why is this bad?\nModifying the `globals()` dictionary allows runtime modification\nof global variables, which can bypass type checking and lead to runtime type errors.\nType checkers cannot track or verify modifications made through the globals dictionary.\n\n## Examples\n```python\nx: int = 5\n\nglobals()['x'] = \"hello\"\n\n# Type checker thinks `x` is an `int`, but it is now a string\nresult: int = x\n```\n",
            Level::Error, vec![runtime])
    } else if k == TYPING_TYPE_IS_USED {
        stable_rule("typing-type-is-used", "detects usage of `typing.TypeIs` in return type annotations",
            "## What it does\nChecks for return types that use `typing.TypeIs`.\n\n## Why is this bad?\nUsing `typing.TypeIs` in return type annotations can lead to runtime type errors.\nType checkers use `TypeIs` to narrow types, but incorrect implementation can bypass\ntype safety guarantees.\n\n## Examples\n```python\nfrom typing import TypeIs\n\ndef is_int(x: object) -> TypeIs[int]:\n    return True\n\nvalue = \"hello\"\n\nif is_int(value):\n    result = value + 1  # Type checks but fails at runtime!\n```\n",
            Level::Warn, vec![suppression])
    } else if k == CALLABLE_ELLIPSIS_USED {
        stable_rule("callable-ellipsis-used", "detects usage of `...` in the first argument of `Callable` type annotations",
            "## What it does\nChecks for usage of `...` (ellipsis) in the first argument of `Callable` type annotations.\n\n## Why is this bad?\nUsing `Callable[..., ReturnType]` indicates that the callable accepts any number\nof arguments of any type, which bypasses parameter type checking. This can lead to\nruntime type errors as the type checker cannot verify argument types or counts.\n\n## Examples\n```python\nfrom typing import Callable\n\ndef foo(callback: Callable[..., int]) -> int:\n    return callback(\"wrong\", \"types\")\n\ndef bar(x: int) -> int:\n    return x\n\n# This passes type checking but fails at runtime.\nfoo(bar)\n```\n",
            Level::Warn, vec![suppression])
    } else if k == MUTABLE_GENERIC_DEFAULT {
        stable_rule("mutable-generic-default", "detects mutable default arguments in generic functions",
            "## What it does\nChecks for generic functions or methods that accept mutable objects as default parameter values.\n\n## Why is this bad?\nWhen a generic function uses a mutable default value (like a list, dict, or set), that default\nis shared across all invocations of the function. This creates a scenario where the mutable\nobject can accumulate values of different types from different calls.\n\nType checkers assume that `list[T]` only contains values of type `T`. However, when a mutable\ndefault is reused across calls with different type parameters, the list can contain values of\nmultiple different types, leading to runtime type errors.\n\n## Examples\n```python\ndef append_and_return[T](x: T, items: list[T] = []) -> list[T]:\n    items.append(x)\n    return items\n\nint_list = append_and_return(42)\nstr_list = append_and_return(\"hello\")\n\n# This is a int at runtime but str at type check time.\nvalue: str = str_list[0]\n```\n",
            Level::Error, vec![])
    } else if k == MANGLED_DUNDER_INSTANCE_VARIABLE {
        stable_rule("mangled-dunder-instance-variable", "detects explicit usage of mangled dunder instance variables",
            "## What it does\nChecks for explicit usage of mangled dunder instance variables in attribute access.\n\n## Why is this bad?\nPython automatically mangles double-underscore (dunder) instance variables to\n`_ClassName__variable` to provide name privacy. When code explicitly uses the\nmangled form, it can bypass type checking by assigning different types to the\nmangled name than what the non-mangled variable expects.\n\n## Examples\n```python\nclass HiddenDunderVariables:\n    def __init__(self, x: int) -> None:\n        self.__str_x = str(x)\n        self._HiddenDunderVariables__str_x = x\n\n    def get_str_x(self) -> str:\n        return self.__str_x\n\n# Here, x is a string at type check time, but an integer at runtime.\nx = hidden_dunder_variables.get_str_x()\n```\n",
            Level::Warn, vec![suppression])
    } else {
        stable_rule("invalid-setattr", "detects invalid usage of `setattr()` built-in function",
            "## What it does\nChecks for invalid `setattr()` usage.\n\n## Why is this bad?\n`setattr()` bypasses type checking by allowing \"dynamic\" attribute assignment.\nYou can assign any type to any attribute, which can lead to runtime type errors\nwhen the actual type doesn't match the declared type annotation.\n\n## Examples\n```python\nclass Foo:\n    def __init__(self) -> None:\n        self.x: str = \"hello\"\n\nfoo = Foo()\nsetattr(foo, \"x\", 1)\n```\n",
            Level::Warn, vec![runtime])
    }
}

proof fn lemma_rule_names_distinct()
    ensures
        forall|i: int, j: int| 0 <= i < RULE_COUNT && 0 <= j < RULE_COUNT && i != j ==> rule_name(i) != rule_name(j),
{
    reveal_strlit("typing-any-used");
    reveal_strlit("invalid-overload-implementation");
    reveal_strlit("typing-overload-used");
    reveal_strlit("type-checking-directive-used");
    reveal_strlit("if-type-checking-used");
    reveal_strlit("invalid-function-defaults");
    reveal_strlit("mutating-function-code-attribute");
    reveal_strlit("typing-cast-used");
    reveal_strlit("mutating-globals-dict");
    reveal_strlit("typing-type-is-used");
    reveal_strlit("callable-ellipsis-used");
    reveal_strlit("mutable-generic-default");
    reveal_strlit("mangled-dunder-instance-variable");
    reveal_strlit("invalid-setattr");
    assert forall|i: int, j: int| 0 <= i < RULE_COUNT && 0 <= j < RULE_COUNT && i != j implies rule_name(i) != rule_name(j) by {
        if rule_name(i).len() == rule_name(j).len() {
            assert(rule_name(i)[0] != rule_name(j)[0] || rule_name(i)[1] != rule_name(j)[1]);
        }
    }
}

/// Registers every known rule, in a fixed order: the rule at position `k` gets
/// the id `k`.
pub fn register_rules(registry: &mut RuleRegistryBuilder)
    requires
        old(registry).wf(),
        old(registry).arena().len() == 0,
        old(registry).aliases().len() == 0,
    ensures
        final(registry).wf(),
        final(registry).arena().len() == RULE_COUNT,
        final(registry).aliases().len() == 0,
        forall|k: int| 0 <= k < RULE_COUNT ==> (#[trigger] final(registry).arena()[k]).name@ == rule_name(k)
            && final(registry).arena()[k].default_level == rule_level(k)
            && final(registry).arena()[k].status is Stable,
{
    proof {
        lemma_rule_names_distinct();
    }
    let mut k: usize = 0;
    while k < RULE_COUNT
        invariant
            registry.wf(),
            k <= RULE_COUNT,
            registry.arena().len() == k,
            registry.aliases().len() == 0,
            forall|i: int| 0 <= i < k ==> (#[trigger] registry.arena()[i]).name@ == rule_name(i)
                && registry.arena()[i].default_level == rule_level(i)
                && registry.arena()[i].status is Stable,
            forall|i: int, j: int| 0 <= i < RULE_COUNT && 0 <= j < RULE_COUNT && i != j ==> rule_name(i) != rule_name(j),
        decreases RULE_COUNT - k,
    {
        let rule = rule_definition(k);
        let ghost before = registry.arena();
        assert(!crate::rule::name_taken(registry.arena(), registry.aliases(), rule.name@)) by {
            assert forall|i: int| 0 <= i < before.len() implies before[i].name@ != rule.name@ by {
                assert(before[i].name@ == rule_name(i));
            }
        }
        registry.register_rule(rule);
        k += 1;
    }
}

/// The registry of all known rules.
pub fn default_rule_registry() -> (r: RuleRegistry)
    ensures
        r.wf(),
        r.arena().len() == RULE_COUNT,
        r.aliases().len() == 0,
        forall|k: int| 0 <= k < RULE_COUNT ==> (#[trigger] r.arena()[k]).name@ == rule_name(k)
            && r.arena()[k].default_level == rule_level(k) && r.arena()[k].status is Stable,
{
    let mut builder = RuleRegistryBuilder::new();
    register_rules(&mut builder);
    builder.build()
}

} // verus!
