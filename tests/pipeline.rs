use unsoundness_checker::checker::{check_file, check_project};
use unsoundness_checker::diagnostic::{Diagnostic, TextRange};
use unsoundness_checker::rule::{Level, RuleId, Severity};
use unsoundness_checker::rules::{
    default_rule_registry, CALLABLE_ELLIPSIS_USED, IF_TYPE_CHECKING_USED, INVALID_FUNCTION_DEFAULTS,
    INVALID_OVERLOAD_IMPLEMENTATION, INVALID_SETATTR, MANGLED_DUNDER_INSTANCE_VARIABLE, MUTABLE_GENERIC_DEFAULT,
    MUTATING_FUNCTION_CODE_ATTRIBUTE, MUTATING_GLOBALS_DICT, TYPE_CHECKING_DIRECTIVE_USED, TYPING_ANY_USED,
    TYPING_CAST_USED, TYPING_OVERLOAD_USED, TYPING_TYPE_IS_USED,
};
use unsoundness_checker::selection::{OverrideSource, RuleOverride, RuleSelection};
use unsoundness_checker::syntax::{
    Comment, KnownFunction, Member, Module, Node, NodeKind, Overload, Parameter, Signature, TypeInfo, TypeKind,
};

fn r(start: u32, end: u32) -> TextRange {
    TextRange { start, end }
}

fn node(kind: NodeKind, range: TextRange, end: usize, ty: usize) -> Node {
    Node { kind, range, end, ty }
}

fn ty(kind: TypeKind, display: &str, promoted: usize) -> TypeInfo {
    TypeInfo {
        kind,
        display: display.to_string(),
        promoted,
        tuple_elements: None,
        members: vec![],
        assignable_to: vec![],
    }
}

fn name(id: &str) -> NodeKind {
    NodeKind::Name { id: id.to_string() }
}

fn plain_function(known: KnownFunction) -> TypeKind {
    TypeKind::Function { known, overloads: vec![], implementation: None, overload_return_union: 0 }
}

fn run(m: &Module) -> Vec<Diagnostic> {
    let registry = default_rule_registry();
    let selection = RuleSelection::from_registry(&registry);
    check_file(0, m, &registry, &selection)
}

fn rules_of(ds: &[Diagnostic]) -> Vec<usize> {
    ds.iter().map(|d| d.rule.index).collect()
}

/// `def foo(x: Any) -> Any: ...`
fn any_module() -> Module {
    let t_any = 0;
    let t_fn = 1;
    let t_other = 2;
    Module {
        nodes: vec![
            node(
                NodeKind::FunctionDef {
                    parameters: vec![Parameter { annotation: Some(1), default: None }],
                    return_annotation: Some(2),
                    decorators: vec![],
                },
                r(1, 28),
                5,
                t_fn,
            ),
            node(name("Any"), r(12, 15), 2, t_any),
            node(name("Any"), r(20, 23), 3, t_any),
            node(NodeKind::OtherStatement, r(25, 28), 5, t_other),
            node(NodeKind::EllipsisLiteral, r(25, 28), 5, t_other),
        ],
        types: vec![
            ty(TypeKind::Any, "Any", 0),
            ty(plain_function(KnownFunction::Other), "def foo(x: Any) -> Any", 1),
            ty(TypeKind::Other, "EllipsisType", 2),
        ],
        comments: Some(vec![]),
    }
}

#[test]
fn any_in_parameter_annotation_is_reported_by_default() {
    let ds = run(&any_module());
    let parameter = &ds[0];
    assert_eq!(parameter.rule, RuleId { index: TYPING_ANY_USED });
    assert_eq!(parameter.name, "typing-any-used");
    assert_eq!(parameter.primary.range, r(12, 15));
    assert_eq!(parameter.severity, Severity::Warning);
    assert_eq!(parameter.message, "Using `typing.Any` in type annotations can lead to runtime errors.");
    assert_eq!(parameter.provenance, "rule `typing-any-used` is enabled by default");
    assert!(parameter.infos.is_empty());
    assert_eq!(parameter.primary.message, None);
    // `Any` in return position is not flagged.
    assert_eq!(ds.len(), 1);
}

#[test]
fn checking_twice_gives_identical_output() {
    let m = any_module();
    let first = format!("{:?}", run(&m));
    let second = format!("{:?}", run(&m));
    assert_eq!(first, second);
}

#[test]
fn disabled_rule_reports_nothing_and_unknown_rule_warns() {
    let registry = default_rule_registry();
    let overrides = vec![
        RuleOverride {
            name: "typing-any-used".to_string(),
            level: Level::Ignore,
            source: OverrideSource::File { path: "pyproject.toml".to_string(), range: None },
        },
        RuleOverride {
            name: "not-a-rule".to_string(),
            level: Level::Error,
            source: OverrideSource::File { path: "pyproject.toml".to_string(), range: None },
        },
    ];
    let (selection, warnings) = RuleSelection::from_rules_selection(&registry, Some(&overrides));
    assert_eq!(warnings.len(), 1);
    assert_eq!(warnings[0].severity, Severity::Warning);
    assert_eq!(warnings[0].message, "Unknown lint rule `not-a-rule`");
    let ds = check_file(0, &any_module(), &registry, &selection);
    assert!(ds.is_empty());
}

#[test]
fn configured_rule_carries_file_provenance() {
    let registry = default_rule_registry();
    let overrides = vec![RuleOverride {
        name: "typing-any-used".to_string(),
        level: Level::Error,
        source: OverrideSource::File { path: "pyproject.toml".to_string(), range: None },
    }];
    let (selection, _) = RuleSelection::from_rules_selection(&registry, Some(&overrides));
    let ds = check_file(0, &any_module(), &registry, &selection);
    assert_eq!(ds.len(), 1);
    assert_eq!(ds[0].severity, Severity::Error);
    assert_eq!(ds[0].provenance, "rule `typing-any-used` was selected in the configuration file");
    let cli = vec![RuleOverride { name: "typing-any-used".to_string(), level: Level::Warn, source: OverrideSource::Cli }];
    let (selection, _) = RuleSelection::from_rules_selection(&registry, Some(&cli));
    let ds = check_file(0, &any_module(), &registry, &selection);
    assert_eq!(ds[0].provenance, "rule `typing-any-used` was selected on the command line");
}

/// Two overloads returning `str` and `int`, and an implementation whose only
/// statement is `return b""`.
fn overload_module() -> Module {
    let t_overload_deco = 0;
    let t_str = 1;
    let t_int = 2;
    let t_bytes = 3;
    let t_union = 4;
    let t_first = 5;
    let t_impl = 6;
    let overloads = vec![
        Overload { return_type: Some(t_str), decorators: vec![0] },
        Overload { return_type: Some(t_int), decorators: vec![2] },
    ];
    let mut bytes = ty(TypeKind::Other, "Literal[b\"\"]", t_bytes);
    bytes.assignable_to = vec![t_bytes];
    Module {
        nodes: vec![
            node(name("overload"), r(25, 33), 1, t_overload_deco),
            node(
                NodeKind::FunctionDef { parameters: vec![], return_annotation: None, decorators: vec![0] },
                r(24, 57),
                2,
                t_first,
            ),
            node(name("overload"), r(60, 68), 3, t_overload_deco),
            node(
                NodeKind::FunctionDef { parameters: vec![], return_annotation: None, decorators: vec![2] },
                r(59, 92),
                4,
                t_first,
            ),
            node(
                NodeKind::FunctionDef { parameters: vec![], return_annotation: None, decorators: vec![] },
                r(94, 145),
                7,
                t_impl,
            ),
            node(NodeKind::Return { value: Some(6) }, r(135, 145), 7, t_bytes),
            node(NodeKind::OtherExpression, r(142, 145), 7, t_bytes),
        ],
        types: vec![
            ty(plain_function(KnownFunction::Overload), "def overload(func)", 0),
            ty(TypeKind::Other, "str", t_str),
            ty(TypeKind::Other, "int", t_int),
            bytes,
            ty(TypeKind::Other, "str | int", t_union),
            ty(
                TypeKind::Function {
                    known: KnownFunction::Other,
                    overloads: vec![],
                    implementation: None,
                    overload_return_union: t_union,
                },
                "Overload[...]",
                t_first,
            ),
            ty(
                TypeKind::Function {
                    known: KnownFunction::Other,
                    overloads,
                    implementation: Some(Signature { annotated_types: vec![], default_types: vec![] }),
                    overload_return_union: t_union,
                },
                "Overload[...]",
                t_impl,
            ),
        ],
        comments: None,
    }
}

#[test]
fn invalid_overload_implementation_and_decorators() {
    let ds = run(&overload_module());
    assert_eq!(
        rules_of(&ds),
        vec![TYPING_OVERLOAD_USED, TYPING_OVERLOAD_USED, INVALID_OVERLOAD_IMPLEMENTATION]
    );
    assert_eq!(ds[0].primary.range, r(25, 33));
    assert_eq!(ds[1].primary.range, r(60, 68));
    assert_eq!(ds[0].message, "Using `typing.overload` can lead to runtime errors.");
    let invalid = &ds[2];
    assert_eq!(invalid.primary.range, r(135, 145));
    assert_eq!(invalid.severity, Severity::Error);
    assert_eq!(invalid.message, "Invalid overload implementation can lead to runtime errors.");
    assert_eq!(
        invalid.infos,
        vec![
            "This overload implementation is invalid as `Literal[b\"\"]` is not assignable to any of the overload return types (`str`, `int`)"
                .to_string()
        ]
    );
    assert_eq!(invalid.provenance, "rule `invalid-overload-implementation` is enabled by default");
}

#[test]
fn assignable_return_is_not_reported() {
    let mut m = overload_module();
    m.types[3].assignable_to.push(4);
    let ds = run(&m);
    assert_eq!(rules_of(&ds), vec![TYPING_OVERLOAD_USED, TYPING_OVERLOAD_USED]);
}

#[test]
fn unannotated_overload_return_skips_return_check() {
    let mut m = overload_module();
    if let TypeKind::Function { overloads, .. } = &mut m.types[6].kind {
        overloads[1].return_type = None;
    }
    let ds = run(&m);
    assert_eq!(rules_of(&ds), vec![TYPING_OVERLOAD_USED, TYPING_OVERLOAD_USED]);
}

#[test]
fn return_in_nested_function_is_not_checked() {
    let mut m = overload_module();
    // Put the `return` inside a nested definition of the implementation.
    m.nodes[5] = node(
        NodeKind::FunctionDef { parameters: vec![], return_annotation: None, decorators: vec![] },
        r(110, 145),
        8,
        2,
    );
    m.nodes[6] = node(NodeKind::Return { value: Some(7) }, r(135, 145), 8, 3);
    m.nodes.push(node(NodeKind::OtherExpression, r(142, 145), 8, 3));
    m.nodes[4].end = 8;
    let ds = run(&m);
    assert_eq!(rules_of(&ds), vec![TYPING_OVERLOAD_USED, TYPING_OVERLOAD_USED]);
}

/// `def f(x: list[T] = []) -> list[T]: ...`
#[test]
fn mutable_default_for_generic_parameter() {
    let t_list_t = 0;
    let t_list_class = 1;
    let t_typevar = 2;
    let t_fn = 3;
    let t_empty_list = 4;
    let m = Module {
        nodes: vec![
            node(
                NodeKind::FunctionDef {
                    parameters: vec![Parameter { annotation: Some(1), default: Some(4) }],
                    return_annotation: Some(5),
                    decorators: vec![],
                },
                r(0, 40),
                8,
                t_fn,
            ),
            node(NodeKind::Subscript { value: 2, slice: 3 }, r(9, 16), 4, t_list_t),
            node(name("list"), r(9, 13), 3, t_list_class),
            node(name("T"), r(14, 15), 4, t_typevar),
            node(NodeKind::ListLiteral, r(19, 21), 5, t_empty_list),
            node(NodeKind::Subscript { value: 6, slice: 7 }, r(26, 33), 8, t_list_t),
            node(name("list"), r(26, 30), 7, t_list_class),
            node(name("T"), r(31, 32), 8, t_typevar),
        ],
        types: vec![
            ty(TypeKind::Other, "list[T]", 0),
            ty(TypeKind::Other, "<class 'list'>", 1),
            ty(TypeKind::TypeVar { upper_bound: None }, "T", 2),
            ty(plain_function(KnownFunction::Other), "def f(x: list[T] = []) -> list[T]", 3),
            ty(TypeKind::Other, "list[Unknown]", 4),
        ],
        comments: Some(vec![]),
    };
    let ds = run(&m);
    assert_eq!(rules_of(&ds), vec![MUTABLE_GENERIC_DEFAULT]);
    assert_eq!(ds[0].primary.range, r(19, 21));
    assert_eq!(ds[0].severity, Severity::Error);
    assert_eq!(
        ds[0].message,
        "Using a mutable default argument for a generic parameter in a function can lead to runtime type errors."
    );
}

/// `fn.__code__ = other.__code__`
#[test]
fn code_attribute_assignment_is_reported_once() {
    let t_fn = 0;
    let t_code = 1;
    let m = Module {
        nodes: vec![
            node(
                NodeKind::Assign { targets: vec![1], scope: vec![] },
                r(0, 29),
                5,
                t_code,
            ),
            node(NodeKind::Attribute { value: 2, attr: "__code__".to_string() }, r(0, 11), 3, t_code),
            node(name("fn"), r(0, 2), 3, t_fn),
            node(NodeKind::Attribute { value: 4, attr: "__code__".to_string() }, r(14, 28), 5, t_code),
            node(name("other"), r(14, 19), 5, t_fn),
        ],
        types: vec![ty(plain_function(KnownFunction::Other), "def fn() -> None", 0), ty(TypeKind::Other, "CodeType", 1)],
        comments: Some(vec![]),
    };
    let ds = run(&m);
    assert_eq!(rules_of(&ds), vec![MUTATING_FUNCTION_CODE_ATTRIBUTE]);
    assert_eq!(ds[0].primary.range, r(0, 11));
    assert_eq!(ds[0].message, "Mutating `__code__` attribute on a function may lead to runtime type errors.");
}

#[test]
fn type_ignore_comment_with_suffix() {
    let m = Module {
        nodes: vec![],
        types: vec![],
        comments: Some(vec![Comment { range: r(10, 29), text: "# type: ignore[foo]".to_string() }]),
    };
    let ds = run(&m);
    assert_eq!(rules_of(&ds), vec![TYPE_CHECKING_DIRECTIVE_USED]);
    assert_eq!(ds[0].primary.range, r(10, 29));
    assert_eq!(
        ds[0].message,
        "Type checking directive `type: ignore` suppresses type checker warnings, which may hide potential type errors."
    );
}

#[test]
fn unreadable_text_skips_only_the_comment_pass() {
    let mut m = any_module();
    m.comments = None;
    assert_eq!(run(&m).len(), 1);
}

/// `if TYPE_CHECKING: ...` and `if not typing.TYPE_CHECKING: ...` where both
/// resolve to `typing.TYPE_CHECKING`; `if DEBUG: ...`; and a local variable
/// that happens to be spelled `TYPE_CHECKING`.
#[test]
fn type_checking_branches() {
    let t_bool = 0;
    let t_flag = 1;
    let t_module = 2;
    let m = Module {
        nodes: vec![
            node(NodeKind::If { test: 1 }, r(0, 20), 2, t_bool),
            node(name("TYPE_CHECKING"), r(3, 16), 2, t_flag),
            node(NodeKind::If { test: 3 }, r(21, 60), 6, t_bool),
            node(NodeKind::UnaryOp { operand: 4 }, r(24, 48), 6, t_bool),
            node(NodeKind::Attribute { value: 5, attr: "TYPE_CHECKING".to_string() }, r(28, 48), 6, t_flag),
            node(name("typing"), r(28, 34), 6, t_module),
            node(NodeKind::If { test: 7 }, r(61, 70), 8, t_bool),
            node(name("DEBUG"), r(64, 69), 8, t_bool),
            node(NodeKind::If { test: 9 }, r(71, 90), 10, t_bool),
            node(name("TYPE_CHECKING"), r(74, 87), 10, t_bool),
        ],
        types: vec![
            ty(TypeKind::Other, "bool", t_bool),
            ty(TypeKind::TypeCheckingConstant, "bool", t_bool),
            ty(TypeKind::Other, "<module 'typing'>", t_module),
        ],
        comments: Some(vec![]),
    };
    let ds = run(&m);
    assert_eq!(rules_of(&ds), vec![IF_TYPE_CHECKING_USED, IF_TYPE_CHECKING_USED]);
    assert_eq!(ds[0].primary.range, r(3, 16));
    assert_eq!(ds[1].primary.range, r(24, 48));
}

/// A bare `return` in the implementation returns `None`, which is checked
/// against the overload return types like any other value.
#[test]
fn bare_return_is_checked_against_overloads() {
    let mut m = overload_module();
    m.types.push(ty(TypeKind::NoneType, "None", 7));
    m.nodes[5] = node(NodeKind::Return { value: None }, r(135, 141), 7, 7);
    let ds = run(&m);
    assert_eq!(rules_of(&ds), vec![TYPING_OVERLOAD_USED, TYPING_OVERLOAD_USED, INVALID_OVERLOAD_IMPLEMENTATION]);
    assert_eq!(
        ds[2].infos,
        vec!["This overload implementation is invalid as `None` is not assignable to any of the overload return types (`str`, `int`)".to_string()]
    );
    m.types[7].assignable_to = vec![4];
    assert_eq!(rules_of(&run(&m)), vec![TYPING_OVERLOAD_USED, TYPING_OVERLOAD_USED]);
}

/// `x: Callable[..., int]`
#[test]
fn callable_with_ellipsis_annotation() {
    let m = Module {
        nodes: vec![
            node(NodeKind::AnnAssign { annotation: 1 }, r(0, 21), 6, 2),
            node(NodeKind::Subscript { value: 2, slice: 3 }, r(3, 21), 6, 0),
            node(name("Callable"), r(3, 11), 3, 2),
            node(NodeKind::Tuple { elements: vec![4, 5] }, r(12, 20), 6, 2),
            node(NodeKind::EllipsisLiteral, r(12, 15), 5, 2),
            node(name("int"), r(17, 20), 6, 1),
        ],
        types: vec![
            ty(TypeKind::Callable, "(...) -> int", 0),
            ty(TypeKind::Other, "int", 1),
            ty(TypeKind::Other, "object", 2),
        ],
        comments: Some(vec![]),
    };
    let ds = run(&m);
    assert_eq!(rules_of(&ds), vec![CALLABLE_ELLIPSIS_USED]);
    assert_eq!(ds[0].primary.range, r(3, 21));
}

/// `def is_int(x: object) -> TypeIs[int]: ...`
#[test]
fn type_is_return_annotation() {
    let m = Module {
        nodes: vec![
            node(
                NodeKind::FunctionDef { parameters: vec![], return_annotation: Some(1), decorators: vec![] },
                r(0, 40),
                2,
                1,
            ),
            node(NodeKind::OtherExpression, r(25, 36), 2, 0),
        ],
        types: vec![ty(TypeKind::TypeIs, "TypeIs[int]", 0), ty(plain_function(KnownFunction::Other), "def is_int", 1)],
        comments: Some(vec![]),
    };
    let ds = run(&m);
    assert_eq!(rules_of(&ds), vec![TYPING_TYPE_IS_USED]);
    assert_eq!(ds[0].primary.range, r(25, 36));
}

/// `cast(int, value)` where `value: int | str`, and a redundant `cast(int, 1)`.
#[test]
fn cast_is_reported_unless_redundant() {
    let t_cast = 0;
    let t_int_class = 1;
    let t_int = 2;
    let t_union = 3;
    let t_lit = 4;
    let mut lit = ty(TypeKind::Other, "Literal[1]", t_int);
    lit.assignable_to = vec![t_int];
    let m = Module {
        nodes: vec![
            node(NodeKind::Call { func: 1, arguments: vec![2, 3] }, r(0, 16), 4, t_int),
            node(name("cast"), r(0, 4), 2, t_cast),
            node(name("int"), r(5, 8), 3, t_int_class),
            node(name("value"), r(10, 15), 4, t_union),
            node(NodeKind::Call { func: 5, arguments: vec![6, 7] }, r(20, 32), 8, t_int),
            node(name("cast"), r(20, 24), 6, t_cast),
            node(name("int"), r(25, 28), 7, t_int_class),
            node(NodeKind::OtherExpression, r(30, 31), 8, t_lit),
        ],
        types: vec![
            ty(plain_function(KnownFunction::Cast), "def cast(typ, val)", 0),
            ty(TypeKind::Other, "int", t_int),
            ty(TypeKind::Other, "int", t_int),
            ty(TypeKind::Other, "int | str", t_union),
            lit,
        ],
        comments: Some(vec![]),
    };
    let ds = run(&m);
    assert_eq!(rules_of(&ds), vec![TYPING_CAST_USED]);
    assert_eq!(ds[0].primary.range, r(0, 4));
    assert_eq!(ds[0].infos, vec!["Consider using `isinstance` checks to ensure types at runtime.".to_string()]);
}

/// `setattr(foo, "x", 1)` where `Foo.x: str`.
#[test]
fn setattr_with_wrong_type() {
    let t_foo = 0;
    let t_str = 1;
    let t_lit_str = 2;
    let t_lit_one = 3;
    let t_int = 4;
    let t_other = 5;
    let mut foo = ty(TypeKind::NominalInstance, "Foo", t_foo);
    foo.members = vec![Member { name: "x".to_string(), ty: t_str }];
    let mut one = ty(TypeKind::Other, "Literal[1]", t_int);
    one.assignable_to = vec![t_int];
    let m = Module {
        nodes: vec![
            node(NodeKind::Call { func: 1, arguments: vec![2, 3, 4] }, r(0, 20), 5, t_other),
            node(name("setattr"), r(0, 7), 2, t_other),
            node(name("foo"), r(8, 11), 3, t_foo),
            node(NodeKind::StringLiteral { value: "x".to_string() }, r(13, 16), 4, t_lit_str),
            node(NodeKind::OtherExpression, r(18, 19), 5, t_lit_one),
        ],
        types: vec![
            foo,
            ty(TypeKind::Other, "str", t_str),
            ty(TypeKind::Other, "Literal[\"x\"]", t_str),
            one,
            ty(TypeKind::Other, "int", t_int),
            ty(TypeKind::Other, "object", t_other),
        ],
        comments: Some(vec![]),
    };
    let ds = run(&m);
    assert_eq!(rules_of(&ds), vec![INVALID_SETATTR]);
    assert_eq!(ds[0].primary.range, r(0, 20));
    assert_eq!(
        ds[0].infos,
        vec!["Object of type `Literal[1]` is not assignable to attribute of type `str`".to_string()]
    );
}

/// `globals()['x'] = "hello"` where `x: int`.
#[test]
fn globals_write_with_wrong_type() {
    let t_int = 0;
    let t_str = 1;
    let t_other = 2;
    let mut hello = ty(TypeKind::Other, "Literal[\"hello\"]", t_str);
    hello.assignable_to = vec![t_str];
    let m = Module {
        nodes: vec![
            node(
                NodeKind::Assign { targets: vec![1], scope: vec![Member { name: "x".to_string(), ty: t_int }] },
                r(0, 24),
                6,
                t_other,
            ),
            node(NodeKind::Subscript { value: 2, slice: 4 }, r(0, 14), 5, 3),
            node(NodeKind::Call { func: 3, arguments: vec![] }, r(0, 9), 4, t_other),
            node(name("globals"), r(0, 7), 4, t_other),
            node(NodeKind::StringLiteral { value: "x".to_string() }, r(10, 13), 5, t_other),
            node(NodeKind::StringLiteral { value: "hello".to_string() }, r(17, 24), 6, 3),
        ],
        types: vec![ty(TypeKind::Other, "int", t_int), ty(TypeKind::Other, "str", t_str), ty(TypeKind::Other, "object", t_other), hello],
        comments: Some(vec![]),
    };
    let ds = run(&m);
    assert_eq!(rules_of(&ds), vec![MUTATING_GLOBALS_DICT]);
    assert_eq!(ds[0].primary.range, r(0, 14));
}

/// `foo.__defaults__ = ("string",)` for `def foo(a: str, x: int = 1)`,
/// then `foo.__defaults__ = ()` and `foo.__defaults__ = None`.
#[test]
fn defaults_replacement() {
    let t_fn = 0;
    let t_str = 1;
    let t_int = 2;
    let t_one_str = 3;
    let t_empty = 4;
    let t_none = 5;
    let t_lit_str = 6;
    let mut one_str = ty(TypeKind::Other, "tuple[str]", t_one_str);
    one_str.tuple_elements = Some(vec![t_lit_str]);
    let mut empty = ty(TypeKind::Other, "tuple[()]", t_empty);
    empty.tuple_elements = Some(vec![]);
    let mut lit = ty(TypeKind::Other, "Literal[\"string\"]", t_str);
    lit.assignable_to = vec![t_str];
    let function = TypeKind::Function {
        known: KnownFunction::Other,
        overloads: vec![],
        implementation: Some(Signature {
            annotated_types: vec![Some(t_str), Some(t_int)],
            default_types: vec![None, Some(t_int)],
        }),
        overload_return_union: t_fn,
    };
    let assign = |start: u32, value_type: usize, first: usize| {
        vec![
            node(NodeKind::Assign { targets: vec![first + 1], scope: vec![] }, r(start, start + 30), first + 3, value_type),
            node(NodeKind::Attribute { value: first + 2, attr: "__defaults__".to_string() }, r(start, start + 16), first + 3, value_type),
            node(name("foo"), r(start, start + 3), first + 3, t_fn),
        ]
    };
    let mut nodes = assign(0, t_one_str, 0);
    nodes.extend(assign(40, t_empty, 3));
    nodes.extend(assign(80, t_none, 6));
    let m = Module {
        nodes,
        types: vec![
            ty(function, "def foo(a: str, x: int = 1) -> int", t_fn),
            ty(TypeKind::Other, "str", t_str),
            ty(TypeKind::Other, "int", t_int),
            one_str,
            empty,
            ty(TypeKind::NoneType, "None", t_none),
            lit,
        ],
        comments: Some(vec![]),
    };
    let ds = run(&m);
    assert_eq!(rules_of(&ds), vec![INVALID_FUNCTION_DEFAULTS, INVALID_FUNCTION_DEFAULTS, INVALID_FUNCTION_DEFAULTS]);
    assert_eq!(ds[0].primary.range, r(0, 16));
    assert_eq!(
        ds[0].message,
        "Setting `__defaults__` to an object of type `tuple[str]` on a function may lead to runtime type errors."
    );
    assert_eq!(ds[1].primary.range, r(40, 56));
    assert_eq!(ds[2].primary.range, r(80, 96));
    assert_eq!(
        ds[2].message,
        "Setting `__defaults__` to an object of type `None` on a function may lead to runtime type errors."
    );
}

/// `self._Foo__secret` inside a method of `Foo`, and `self._Foo__` alone.
#[test]
fn mangled_private_name_access() {
    let t_self = 0;
    let t_foo = 1;
    let m = Module {
        nodes: vec![
            node(NodeKind::Attribute { value: 1, attr: "_Foo__secret".to_string() }, r(0, 17), 2, t_foo),
            node(name("self"), r(0, 4), 2, t_self),
            node(NodeKind::Attribute { value: 3, attr: "_Foo__".to_string() }, r(20, 31), 4, t_foo),
            node(name("self"), r(20, 24), 4, t_self),
        ],
        types: vec![ty(TypeKind::TypeVar { upper_bound: Some(t_foo) }, "Self@method", t_self), ty(TypeKind::NominalInstance, "Foo", t_foo)],
        comments: Some(vec![]),
    };
    let ds = run(&m);
    assert_eq!(rules_of(&ds), vec![MANGLED_DUNDER_INSTANCE_VARIABLE]);
    assert_eq!(
        ds[0].message,
        "Explicit use of mangled attribute `_Foo__secret` can bypass type checking and lead to runtime type errors."
    );
}

#[test]
fn project_concatenates_files_in_order() {
    let registry = default_rule_registry();
    let selection = RuleSelection::from_registry(&registry);
    let files = vec![any_module(), overload_module()];
    let ds = check_project(&files, &registry, &selection);
    assert_eq!(ds.len(), 4);
    assert_eq!(ds[0].primary.file, 0);
    assert_eq!(ds[1].primary.file, 1);
    assert_eq!(ds[3].rule, RuleId { index: INVALID_OVERLOAD_IMPLEMENTATION });
}
