//! `typing-any-used` on small Python files, each written out as the syntax
//! tree and types that the semantic front end produces for it. Spans are byte
//! ranges of the source text.
use unsoundness_checker::checker::check_file;
use unsoundness_checker::diagnostic::{Diagnostic, TextRange};
use unsoundness_checker::rule::Severity;
use unsoundness_checker::rules::default_rule_registry;
use unsoundness_checker::selection::RuleSelection;
use unsoundness_checker::syntax::{KnownFunction, Module, Node, NodeKind, Parameter, TypeInfo, TypeKind};

const T_ANY: usize = 0;
const T_OTHER: usize = 1;
const T_FUNCTION: usize = 2;

fn types() -> Vec<TypeInfo> {
    let ty = |kind, display: &str, promoted| TypeInfo {
        kind,
        display: display.to_string(),
        promoted,
        tuple_elements: None,
        members: vec![],
        assignable_to: vec![],
    };
    vec![
        ty(TypeKind::Any, "Any", T_ANY),
        ty(TypeKind::Other, "object", T_OTHER),
        ty(
            TypeKind::Function { known: KnownFunction::Other, overloads: vec![], implementation: None, overload_return_union: T_OTHER },
            "def f()",
            T_FUNCTION,
        ),
    ]
}

/// The byte offset of 1-based `line` and `column`.
fn offset(source: &str, line: usize, column: usize) -> usize {
    source.split('\n').take(line - 1).map(|l| l.len() + 1).sum::<usize>() + column - 1
}

fn range(start: usize, end: usize) -> TextRange {
    TextRange { start: start as u32, end: end as u32 }
}

/// The offset just after the first `marker` on `line`.
fn after(source: &str, line: usize, marker: &str) -> usize {
    let text = source.split('\n').nth(line - 1).unwrap();
    offset(source, line, 1) + text.find(marker).unwrap() + marker.len()
}

struct Tree<'s> {
    source: &'s str,
    nodes: Vec<Node>,
}

impl<'s> Tree<'s> {
    fn new(source: &'s str) -> Self {
        Tree { source, nodes: vec![] }
    }

    fn open(&mut self, kind: NodeKind, range: TextRange, ty: usize) -> usize {
        self.nodes.push(Node { kind, range, end: 0, ty });
        self.nodes.len() - 1
    }

    fn close(&mut self, index: usize) {
        self.nodes[index].end = self.nodes.len();
    }

    /// A statement on `line` without annotations.
    fn statement(&mut self, line: usize) {
        let start = offset(self.source, line, 1);
        let i = self.open(NodeKind::OtherStatement, range(start, start + 1), T_OTHER);
        self.close(i);
    }

    /// Parses the type expression at byte `start` of the source, as type
    /// expressions are written: names, subscripts, and unions with `|`.
    fn annotation(&mut self, start: usize) -> usize {
        let (node, _) = self.union(start);
        node
    }

    fn union(&mut self, start: usize) -> (usize, usize) {
        let index = self.nodes.len();
        let (first, mut pos) = self.primary(start);
        let mut root = first;
        while self.source[pos..].starts_with(" | ") {
            // `a | b` becomes a binary expression that encloses both operands.
            let binary = Node { kind: NodeKind::OtherExpression, range: range(start, 0), end: 0, ty: T_OTHER };
            self.nodes.insert(index, binary);
            for n in &mut self.nodes[index + 1..] {
                shift(n, index);
            }
            root = index;
            let (_, next) = self.primary(pos + 3);
            pos = next;
            self.nodes[root].range = range(start, pos);
            self.close(root);
        }
        (root, pos)
    }

    fn primary(&mut self, start: usize) -> (usize, usize) {
        let bytes = self.source.as_bytes();
        let mut pos = start;
        while pos < bytes.len() && (bytes[pos].is_ascii_alphanumeric() || bytes[pos] == b'_') {
            pos += 1;
        }
        let name = &self.source[start..pos];
        let ty = if name == "Any" { T_ANY } else { T_OTHER };
        if bytes.get(pos) != Some(&b'[') {
            let i = self.open(NodeKind::Name { id: name.to_string() }, range(start, pos), ty);
            self.close(i);
            return (i, pos);
        }
        let subscript = self.open(NodeKind::OtherExpression, range(start, 0), T_OTHER);
        let value = self.open(NodeKind::Name { id: name.to_string() }, range(start, pos), T_OTHER);
        self.close(value);
        let tuple_at = self.nodes.len();
        let mut elements = vec![];
        let mut p = pos + 1;
        loop {
            let (e, next) = self.union(p);
            elements.push(e);
            p = next;
            if self.source[p..].starts_with(", ") {
                p += 2;
            } else {
                break;
            }
        }
        let slice = if elements.len() == 1 {
            elements[0]
        } else {
            let tuple = Node { kind: NodeKind::Tuple { elements: vec![] }, range: range(pos + 1, p), end: 0, ty: T_OTHER };
            self.nodes.insert(tuple_at, tuple);
            for n in &mut self.nodes[tuple_at + 1..] {
                shift(n, tuple_at);
            }
            let elements = elements.iter().map(|e| e + 1).collect();
            self.nodes[tuple_at].kind = NodeKind::Tuple { elements };
            self.close(tuple_at);
            tuple_at
        };
        assert_eq!(&self.source[p..p + 1], "]");
        self.nodes[subscript].kind = NodeKind::Subscript { value, slice };
        self.nodes[subscript].range = range(start, p + 1);
        self.close(subscript);
        (subscript, p + 1)
    }

    /// `def` on `line` with the annotated parameters (each the line and the
    /// text just before its annotation) and return annotation, then `body`.
    fn function(&mut self, line: usize, parameters: &[(usize, &str)], returns_after: Option<(usize, &str)>, body: impl FnOnce(&mut Self)) {
        let start = offset(self.source, line, 1);
        let def = self.open(NodeKind::OtherStatement, range(start, start + 3), T_FUNCTION);
        let mut params = vec![];
        for (l, marker) in parameters {
            let a = self.annotation(after(self.source, *l, marker));
            params.push(Parameter { annotation: Some(a), default: None });
        }
        let return_annotation = returns_after.map(|(l, marker)| self.annotation(after(self.source, l, marker)));
        body(self);
        self.nodes[def].kind = NodeKind::FunctionDef { parameters: params, return_annotation, decorators: vec![] };
        self.close(def);
    }

    /// `target: annotation = value` on `line`, the annotation after `marker`.
    fn ann_assign(&mut self, line: usize, marker: &str) {
        let start = offset(self.source, line, 1);
        let stmt = self.open(NodeKind::OtherStatement, range(start, start + 1), T_OTHER);
        let a = self.annotation(after(self.source, line, marker));
        self.nodes[stmt].kind = NodeKind::AnnAssign { annotation: a };
        self.close(stmt);
    }

    /// A compound statement, such as a class, on `line` enclosing `body`.
    fn block(&mut self, line: usize, body: impl FnOnce(&mut Self)) {
        let start = offset(self.source, line, 1);
        let i = self.open(NodeKind::OtherStatement, range(start, start + 1), T_OTHER);
        body(self);
        self.close(i);
    }

    fn module(self) -> Module {
        Module { nodes: self.nodes, types: types(), comments: Some(vec![]) }
    }
}

/// Moves the node indices of `n` past a node inserted at `at`.
fn shift(n: &mut Node, at: usize) {
    let bump = |i: &mut usize| {
        if *i >= at {
            *i += 1;
        }
    };
    if n.end >= at {
        n.end += 1;
    }
    match &mut n.kind {
        NodeKind::Subscript { value, slice } => {
            bump(value);
            bump(slice);
        }
        NodeKind::Tuple { elements } => elements.iter_mut().for_each(bump),
        _ => {}
    }
}

fn run(module: &Module) -> Vec<Diagnostic> {
    assert!(module.is_well_formed());
    let registry = default_rule_registry();
    let selection = RuleSelection::from_registry(&registry);
    check_file(0, module, &registry, &selection)
}

/// The diagnostics are exactly one `typing-any-used` warning at each `Any`
/// at the given 1-based line and column, in order.
fn expect_any_at(source: &str, ds: &[Diagnostic], at: &[(usize, usize)]) {
    let got: Vec<TextRange> = ds.iter().map(|d| d.primary.range).collect();
    let want: Vec<TextRange> = at.iter().map(|&(l, c)| range(offset(source, l, c), offset(source, l, c) + 3)).collect();
    assert_eq!(got, want);
    for d in ds {
        assert_eq!(d.name, "typing-any-used");
        assert_eq!(d.severity, Severity::Warning);
        assert_eq!(d.message, "Using `typing.Any` in type annotations can lead to runtime errors.");
        assert_eq!(d.provenance, "rule `typing-any-used` is enabled by default");
    }
}

#[test]
fn typing_any_used_test_typing_any_detected() {
    let src = "\nfrom typing import Any\n\ndef foo(x: Any) -> str:\n    return str(x)\n";
    let mut t = Tree::new(src);
    t.statement(2);
    t.function(4, &[(4, "x: ")], Some((4, "-> ")), |t| t.statement(5));
    expect_any_at(src, &run(&t.module()), &[(4, 12)]);
}

#[test]
fn typing_any_used_test_multiple_any_parameters() {
    let src = "\nfrom typing import Any\n\ndef foo(x: Any, y: Any, z: str) -> None:\n    pass\n";
    let mut t = Tree::new(src);
    t.statement(2);
    t.function(4, &[(4, "x: "), (4, "y: "), (4, "z: ")], Some((4, "-> ")), |t| t.statement(5));
    expect_any_at(src, &run(&t.module()), &[(4, 12), (4, 20)]);
}

#[test]
fn typing_any_used_test_no_any_usage() {
    let src = "\ndef foo(x: str, y: int) -> bool:\n    return len(x) == y\n";
    let mut t = Tree::new(src);
    t.function(2, &[(2, "x: "), (2, "y: ")], Some((2, "-> ")), |t| t.statement(3));
    assert!(run(&t.module()).is_empty());
}

#[test]
fn typing_any_used_test_nested_function_with_any() {
    let src = "\nfrom typing import Any\n\ndef outer():\n    def inner(param: Any) -> str:\n        return str(param)\n    return inner\n";
    let mut t = Tree::new(src);
    t.statement(2);
    t.function(4, &[], None, |t| {
        t.function(5, &[(5, "param: ")], Some((5, "-> ")), |t| t.statement(6));
        t.statement(7);
    });
    expect_any_at(src, &run(&t.module()), &[(5, 22)]);
}

#[test]
fn typing_any_used_test_class_method_with_any() {
    let src = "\nfrom typing import Any\n\nclass TestClass:\n    def method(self, param: Any) -> None:\n        pass\n\n    @staticmethod\n    def static_method(param: Any) -> str:\n        return str(param)\n";
    let mut t = Tree::new(src);
    t.statement(2);
    t.block(4, |t| {
        t.function(5, &[(5, "param: ")], Some((5, "-> ")), |t| t.statement(6));
        t.function(9, &[(9, "param: ")], Some((9, "-> ")), |t| t.statement(10));
    });
    expect_any_at(src, &run(&t.module()), &[(5, 29), (9, 30)]);
}

#[test]
fn typing_any_used_test_mixed_annotations() {
    let src = "\nfrom typing import Any\n\ndef complex_function(\n    required_param: str,\n    any_param: Any,\n    optional_param: Any | None,\n    list_param: list[Any] | None,\n    dict_param: dict[str, Any] | None,\n    nested: list[dict[str, list[set[tuple[str, Any]]]] | None]\n) -> bool:\n    return True\n";
    let mut t = Tree::new(src);
    t.statement(2);
    t.function(
        4,
        &[(5, "param: "), (6, "param: "), (7, "param: "), (8, "param: "), (9, "param: "), (10, "nested: ")],
        Some((11, "-> ")),
        |t| t.statement(12),
    );
    expect_any_at(src, &run(&t.module()), &[(6, 16), (7, 21), (8, 22), (9, 27), (10, 48)]);
}

#[test]
fn test_any_in_return_type() {
    let src = "\nfrom typing import Any\n\ndef foo() -> Any:\n    return 42\n";
    let mut t = Tree::new(src);
    t.statement(2);
    t.function(4, &[], Some((4, "-> ")), |t| t.statement(5));
    // `Any` in return position is not flagged.
    expect_any_at(src, &run(&t.module()), &[]);
}

#[test]
fn test_any_in_return_type_not_detected() {
    let src = "\nfrom typing import Any\n\ndef foo(x: str) -> Any:\n    return x\n";
    let mut t = Tree::new(src);
    t.statement(2);
    t.function(4, &[(4, "x: ")], Some((4, "-> ")), |t| t.statement(5));
    assert!(run(&t.module()).is_empty());
}

#[test]
fn test_any_in_nested_return_type() {
    let src = "\nfrom typing import Any\n\ndef get_list() -> list[Any]:\n    return [1, \"hello\", 3.14]\n\ndef get_dict() -> dict[str, Any]:\n    return {\"key\": \"value\"}\n\ndef get_complex() -> dict[str, list[Any]]:\n    return {\"items\": [1, 2, 3]}\n";
    let mut t = Tree::new(src);
    t.statement(2);
    t.function(4, &[], Some((4, "-> ")), |t| t.statement(5));
    t.function(7, &[], Some((7, "-> ")), |t| t.statement(8));
    t.function(10, &[], Some((10, "-> ")), |t| t.statement(11));
    expect_any_at(src, &run(&t.module()), &[]);
}

#[test]
fn test_variable_annotation_expressions() {
    let src = "\nfrom typing import Any\n\na: Any = 1\nb: Any = \"hello\"\nc: Any = None\n";
    let mut t = Tree::new(src);
    t.statement(2);
    t.ann_assign(4, "a: ");
    t.ann_assign(5, "b: ");
    t.ann_assign(6, "c: ");
    expect_any_at(src, &run(&t.module()), &[(4, 4), (5, 4), (6, 4)]);
}

#[test]
fn test_nested_annotation_expressions() {
    let src = "\nfrom typing import Any\n\nitems: list[Any] = [1, 2, 3]\nmapping: dict[str, Any] = {\"key\": \"value\"}\nnested: dict[str, list[Any]] = {\"items\": [1, 2]}\n";
    let mut t = Tree::new(src);
    t.statement(2);
    t.ann_assign(4, "items: ");
    t.ann_assign(5, "mapping: ");
    t.ann_assign(6, "nested: ");
    expect_any_at(src, &run(&t.module()), &[(4, 13), (5, 20), (6, 24)]);
}

#[test]
fn test_class_attribute_annotation_expressions() {
    let src = "\nfrom typing import Any\n\nclass MyClass:\n    attr: Any = \"default\"\n    values: list[Any] = []\n\n    def __init__(self):\n        self.data: Any = None\n        self.items: dict[str, Any] = {}\n";
    let mut t = Tree::new(src);
    t.statement(2);
    t.block(4, |t| {
        t.ann_assign(5, "attr: ");
        t.ann_assign(6, "values: ");
        t.function(8, &[], None, |t| {
            t.ann_assign(9, "data: ");
            t.ann_assign(10, "items: ");
        });
    });
    expect_any_at(src, &run(&t.module()), &[(5, 11), (6, 18), (9, 20), (10, 31)]);
}

#[test]
fn test_deeply_nested_any_in_return_type() {
    let src = "\nfrom typing import Any\n\ndef deeply_nested() -> dict[str, list[tuple[str, Any]]]:\n    return {\"data\": [(\"key\", 42)]}\n\ndef ultra_nested() -> list[dict[str, set[tuple[Any, str]]]]:\n    return [{\"items\": {(\"value\", \"key\")}}]\n";
    let mut t = Tree::new(src);
    t.statement(2);
    t.function(4, &[], Some((4, "-> ")), |t| t.statement(5));
    t.function(7, &[], Some((7, "-> ")), |t| t.statement(8));
    expect_any_at(src, &run(&t.module()), &[]);
}

#[test]
fn test_any_in_union_return_type() {
    let src = "\nfrom typing import Any\n\ndef union_with_any() -> Any | str:\n    return \"hello\"\n\ndef complex_union() -> dict[str, Any] | list[Any] | None:\n    return None\n";
    let mut t = Tree::new(src);
    t.statement(2);
    t.function(4, &[], Some((4, "-> ")), |t| t.statement(5));
    t.function(7, &[], Some((7, "-> ")), |t| t.statement(8));
    expect_any_at(src, &run(&t.module()), &[]);
}

#[test]
fn checker_tests_test_typing_any_detected() {
    let src = "\nfrom typing import Any\n\ndef foo(x: Any) -> str:\n    return str(x)\n";
    let mut t = Tree::new(src);
    t.statement(2);
    t.function(4, &[(4, "x: ")], Some((4, "-> ")), |t| t.statement(5));
    expect_any_at(src, &run(&t.module()), &[(4, 12)]);
}

#[test]
fn checker_tests_test_multiple_any_parameters() {
    let src = "\nfrom typing import Any\n\ndef foo(x: Any, y: Any, z: str) -> None:\n    pass\n";
    let mut t = Tree::new(src);
    t.statement(2);
    t.function(4, &[(4, "x: "), (4, "y: "), (4, "z: ")], Some((4, "-> ")), |t| t.statement(5));
    expect_any_at(src, &run(&t.module()), &[(4, 12), (4, 20)]);
}

#[test]
fn checker_tests_test_no_any_usage() {
    let src = "\ndef foo(x: str, y: int) -> bool:\n    return len(x) == y\n";
    let mut t = Tree::new(src);
    t.function(2, &[(2, "x: "), (2, "y: ")], Some((2, "-> ")), |t| t.statement(3));
    assert!(run(&t.module()).is_empty());
}

#[test]
fn checker_tests_test_mixed_annotations() {
    let src = "\nfrom typing import Any, List, Optional\n\ndef complex_function(\n    required_param: str,\n    any_param: Any,\n    optional_param: Optional[int] = None,\n    list_param: List[str] = None\n) -> bool:\n    return True\n";
    let mut t = Tree::new(src);
    t.statement(2);
    t.function(4, &[(5, "param: "), (6, "param: "), (7, "param: "), (8, "param: ")], Some((9, "-> ")), |t| t.statement(10));
    expect_any_at(src, &run(&t.module()), &[(6, 16)]);
}

/// A lambda's parameters cannot be annotated: `Any` here is an ordinary
/// expression, whose type is the special form rather than the dynamic type.
#[test]
fn test_lambda_with_any() {
    let src = "\nfrom typing import Any\n\nlambda_func = lambda x: Any, y: str: str(x) + y\n";
    let mut t = Tree::new(src);
    t.statement(2);
    let start = offset(src, 4, 1);
    let assign = t.open(NodeKind::OtherStatement, range(start, start + 1), T_OTHER);
    let target = t.open(NodeKind::Name { id: "lambda_func".to_string() }, range(start, start + 11), T_OTHER);
    t.close(target);
    let lambda = t.open(NodeKind::OtherExpression, range(start + 14, start + 27), T_OTHER);
    let body = t.open(NodeKind::Name { id: "Any".to_string() }, range(start + 24, start + 27), T_OTHER);
    t.close(body);
    t.close(lambda);
    t.nodes[assign].kind = NodeKind::Assign { targets: vec![target], scope: vec![] };
    t.close(assign);
    assert!(run(&t.module()).is_empty());
}

#[test]
fn test_async_function_with_any() {
    let src = "\nfrom typing import Any\nimport asyncio\n\nasync def async_foo(param: Any) -> None:\n    await asyncio.sleep(0.1)\n    print(param)\n";
    let mut t = Tree::new(src);
    t.statement(2);
    t.statement(3);
    t.function(5, &[(5, "param: ")], Some((5, "-> ")), |t| {
        t.statement(6);
        t.statement(7);
    });
    expect_any_at(src, &run(&t.module()), &[(5, 28)]);
}
