//! A file's syntax tree, laid out in source order, together with the answers
//! of the semantic model that the rules consult.
//!
//! Nodes are stored in pre-order: node `i`'s subtree is the contiguous range
//! `i .. nodes[i].end`, and children come after their parent. Types are
//! indices into the module's type table.
use vstd::prelude::*;

use crate::diagnostic::TextRange;

verus! {

/// A function parameter: its annotation and default, as node indices.
#[derive(Clone, Debug)]
pub struct Parameter {
    pub annotation: Option<usize>,
    pub default: Option<usize>,
}

/// A named member of a type, or a symbol visible in a scope, with its type.
#[derive(Clone, Debug)]
pub struct Member {
    pub name: String,
    pub ty: usize,
}

/// The kinds of statements and expressions that the rules distinguish.
#[derive(Clone, Debug)]
pub enum NodeKind {
    FunctionDef { parameters: Vec<Parameter>, return_annotation: Option<usize>, decorators: Vec<usize> },
    AnnAssign { annotation: usize },
    /// A plain assignment, with the symbols in scope at the statement.
    Assign { targets: Vec<usize>, scope: Vec<Member> },
    If { test: usize },
    Return { value: Option<usize> },
    OtherStatement,
    Name { id: String },
    Attribute { value: usize, attr: String },
    /// A call with its positional arguments.
    Call { func: usize, arguments: Vec<usize> },
    Subscript { value: usize, slice: usize },
    Tuple { elements: Vec<usize> },
    ListLiteral,
    DictLiteral,
    SetLiteral,
    ListComp,
    DictComp,
    SetComp,
    EllipsisLiteral,
    StringLiteral { value: String },
    UnaryOp { operand: usize },
    OtherExpression,
}

/// One node: its kind, its source range, the end of its subtree, and its
/// inferred type (for a function definition, the function's type).
#[derive(Clone, Debug)]
pub struct Node {
    pub kind: NodeKind,
    pub range: TextRange,
    pub end: usize,
    pub ty: usize,
}

/// Well-known functions of the standard library.
#[derive(Clone, Copy, Debug, PartialEq, Eq, Structural)]
pub enum KnownFunction {
    Cast,
    Overload,
    Other,
}

/// One overload signature: its declared return type, if any, and the
/// decorators of its definition (node indices).
#[derive(Clone, Debug)]
pub struct Overload {
    pub return_type: Option<usize>,
    pub decorators: Vec<usize>,
}

/// The parameters of an implementation: annotated types and default types,
/// one entry per parameter.
#[derive(Clone, Debug)]
pub struct Signature {
    pub annotated_types: Vec<Option<usize>>,
    pub default_types: Vec<Option<usize>>,
}

/// What kind of type a type is, as far as the rules care.
#[derive(Clone, Debug)]
pub enum TypeKind {
    /// The explicit dynamic type `typing.Any`.
    Any,
    /// A dynamic type that the checker could not resolve.
    Unknown,
    Callable,
    TypeVar { upper_bound: Option<usize> },
    NominalInstance,
    TypeIs,
    NoneType,
    /// The `typing.TYPE_CHECKING` constant, as the semantic model resolves a
    /// name or attribute to it.
    TypeCheckingConstant,
    /// A function literal: the overloads and implementation visible from its
    /// definition, and the union of the overloads' return types.
    Function {
        known: KnownFunction,
        overloads: Vec<Overload>,
        implementation: Option<Signature>,
        overload_return_union: usize,
    },
    Other,
}

/// The semantic model's answers about one type.
#[derive(Clone, Debug)]
pub struct TypeInfo {
    pub kind: TypeKind,
    /// How the type is displayed.
    pub display: String,
    /// The type with literal types widened (`Literal[1]` to `int`).
    pub promoted: usize,
    /// The fixed elements, when the type is a tuple of known shape.
    pub tuple_elements: Option<Vec<usize>>,
    /// All members of the type.
    pub members: Vec<Member>,
    /// The types that this type is assignable to.
    pub assignable_to: Vec<usize>,
}

/// A comment of the file: its range and its text.
#[derive(Clone, Debug)]
pub struct Comment {
    pub range: TextRange,
    pub text: String,
}

/// One file prepared for checking. `comments` is `None` when the file's text
/// could not be read for the comment pass.
#[derive(Clone, Debug)]
pub struct Module {
    pub nodes: Vec<Node>,
    pub types: Vec<TypeInfo>,
    pub comments: Option<Vec<Comment>>,
}

impl Module {
    pub open spec fn node(&self, i: int) -> Node {
        self.nodes@[i]
    }

    pub open spec fn type_of(&self, i: int) -> TypeInfo {
        self.types@[self.nodes@[i].ty as int]
    }

    pub open spec fn valid_node(&self, i: int) -> bool {
        0 <= i < self.nodes@.len()
    }

    pub open spec fn valid_type(&self, t: int) -> bool {
        0 <= t < self.types@.len()
    }

    /// Whether a node index lies after `i`, inside its subtree.
    pub open spec fn child_of(&self, i: int, c: int) -> bool {
        i < c < self.nodes@[i].end
    }

    pub open spec fn opt_child(&self, i: int, o: Option<usize>) -> bool {
        match o {
            Some(c) => self.child_of(i, c as int),
            None => true,
        }
    }

    pub open spec fn opt_type(&self, o: Option<usize>) -> bool {
        match o {
            Some(t) => self.valid_type(t as int),
            None => true,
        }
    }

    pub open spec fn node_wf(&self, i: int) -> bool {
        let n = self.nodes@[i];
        &&& i < n.end <= self.nodes@.len()
        &&& self.valid_type(n.ty as int)
        &&& match n.kind {
            NodeKind::FunctionDef { parameters, return_annotation, decorators } => {
                &&& forall|k: int| 0 <= k < parameters@.len() ==> self.opt_child(i, (#[trigger] parameters@[k]).annotation)
                &&& forall|k: int| 0 <= k < parameters@.len() ==> self.opt_child(i, (#[trigger] parameters@[k]).default)
                &&& return_annotation matches Some(r) ==> self.child_of(i, r as int)
                &&& forall|k: int| 0 <= k < decorators@.len() ==> self.child_of(i, #[trigger] decorators@[k] as int)
            },
            NodeKind::AnnAssign { annotation } => self.child_of(i, annotation as int),
            NodeKind::Assign { targets, scope } => {
                &&& forall|k: int| 0 <= k < targets@.len() ==> self.child_of(i, #[trigger] targets@[k] as int)
                &&& forall|k: int| 0 <= k < scope@.len() ==> self.valid_type((#[trigger] scope@[k]).ty as int)
            },
            NodeKind::If { test } => self.child_of(i, test as int),
            NodeKind::Return { value } => value matches Some(v) ==> self.child_of(i, v as int),
            NodeKind::Attribute { value, .. } => self.child_of(i, value as int),
            NodeKind::Call { func, arguments } => {
                &&& self.child_of(i, func as int)
                &&& forall|k: int| 0 <= k < arguments@.len() ==> self.child_of(i, #[trigger] arguments@[k] as int)
            },
            NodeKind::Subscript { value, slice } => self.child_of(i, value as int) && self.child_of(i, slice as int),
            NodeKind::Tuple { elements } => forall|k: int| 0 <= k < elements@.len() ==> self.child_of(i, #[trigger] elements@[k] as int),
            NodeKind::UnaryOp { operand } => self.child_of(i, operand as int),
            _ => true,
        }
    }

    pub open spec fn type_wf(&self, t: int) -> bool {
        let info = self.types@[t];
        &&& self.valid_type(info.promoted as int)
        &&& info.tuple_elements matches Some(es) ==> forall|k: int| 0 <= k < es@.len() ==> self.valid_type(#[trigger] es@[k] as int)
        &&& forall|k: int| 0 <= k < info.members@.len() ==> self.valid_type((#[trigger] info.members@[k]).ty as int)
        &&& match info.kind {
            TypeKind::TypeVar { upper_bound } => upper_bound matches Some(b) ==> self.valid_type(b as int),
            _ => true,
        }
    }

    /// Every index in the module points inside it.
    pub open spec fn wf(&self) -> bool {
        &&& forall|i: int| 0 <= i < self.nodes@.len() ==> #[trigger] self.node_wf(i)
        &&& forall|t: int| 0 <= t < self.types@.len() ==> #[trigger] self.type_wf(t)
        &&& forall|t: int| 0 <= t < self.types@.len() ==> #[trigger] self.function_wf(t)
        &&& self.nodes@.len() < usize::MAX
    }

    pub open spec fn function_wf(&self, t: int) -> bool {
        match self.types@[t].kind {
            TypeKind::Function { overloads, implementation, overload_return_union, .. } => {
                &&& self.valid_type(overload_return_union as int)
                &&& forall|k: int| 0 <= k < overloads@.len() ==> self.opt_type((#[trigger] overloads@[k]).return_type)
                &&& forall|k: int, d: int| 0 <= k < overloads@.len() && 0 <= d < overloads@[k].decorators@.len() ==> self.valid_node(#[trigger] overloads@[k].decorators@[d] as int)
                &&& implementation matches Some(sig) ==> {
                    &&& forall|k: int| 0 <= k < sig.annotated_types@.len() ==> self.opt_type(#[trigger] sig.annotated_types@[k])
                    &&& forall|k: int| 0 <= k < sig.default_types@.len() ==> self.opt_type(#[trigger] sig.default_types@[k])
                }
            },
            _ => true,
        }
    }

    /// Whether type `a` is assignable to type `b`.
    pub open spec fn assignable(&self, a: int, b: int) -> bool {
        self.types@[a].assignable_to@.contains(b as usize)
    }

    /// Whether type `a` is assignable to type `b`.
    pub fn is_assignable_to(&self, a: usize, b: usize) -> (r: bool)
        requires
            self.valid_type(a as int),
        ensures
            r == self.assignable(a as int, b as int),
    {
        let targets = &self.types[a].assignable_to;
        let mut k: usize = 0;
        while k < targets.len()
            invariant
                targets@ == self.types@[a as int].assignable_to@,
                k <= targets@.len(),
                forall|j: int| 0 <= j < k ==> targets@[j] != b,
            decreases targets@.len() - k,
        {
            if targets[k] == b {
                return true;
            }
            k += 1;
        }
        false
    }
}

fn all_children(m: &Module, i: usize, cs: &Vec<usize>) -> (r: bool)
    requires
        i < m.nodes@.len(),
    ensures
        r == forall|k: int| 0 <= k < cs@.len() ==> m.child_of(i as int, #[trigger] cs@[k] as int),
{
    let end = m.nodes[i].end;
    let mut k: usize = 0;
    while k < cs.len()
        invariant
            i < m.nodes@.len(),
            end == m.nodes@[i as int].end,
            k <= cs@.len(),
            forall|q: int| 0 <= q < k ==> m.child_of(i as int, #[trigger] cs@[q] as int),
        decreases cs@.len() - k,
    {
        if !(i < cs[k] && cs[k] < end) {
            return false;
        }
        k += 1;
    }
    true
}

fn optional_child(m: &Module, i: usize, o: Option<usize>) -> (r: bool)
    requires
        i < m.nodes@.len(),
    ensures
        r == m.opt_child(i as int, o),
{
    match o {
        Some(c) => i < c && c < m.nodes[i].end,
        None => true,
    }
}

fn optional_type(m: &Module, o: Option<usize>) -> (r: bool)
    ensures
        r == m.opt_type(o),
{
    match o {
        Some(t) => t < m.types.len(),
        None => true,
    }
}

fn all_types(m: &Module, ts: &Vec<usize>) -> (r: bool)
    ensures
        r == forall|k: int| 0 <= k < ts@.len() ==> m.valid_type(#[trigger] ts@[k] as int),
{
    let mut k: usize = 0;
    while k < ts.len()
        invariant
            k <= ts@.len(),
            forall|q: int| 0 <= q < k ==> m.valid_type(#[trigger] ts@[q] as int),
        decreases ts@.len() - k,
    {
        if ts[k] >= m.types.len() {
            return false;
        }
        k += 1;
    }
    true
}

fn all_optional_types(m: &Module, ts: &Vec<Option<usize>>) -> (r: bool)
    ensures
        r == forall|k: int| 0 <= k < ts@.len() ==> m.opt_type(#[trigger] ts@[k]),
{
    let mut k: usize = 0;
    while k < ts.len()
        invariant
            k <= ts@.len(),
            forall|q: int| 0 <= q < k ==> m.opt_type(#[trigger] ts@[q]),
        decreases ts@.len() - k,
    {
        if !optional_type(m, ts[k]) {
            return false;
        }
        k += 1;
    }
    true
}

fn all_member_types(m: &Module, ms: &Vec<Member>) -> (r: bool)
    ensures
        r == forall|k: int| 0 <= k < ms@.len() ==> m.valid_type((#[trigger] ms@[k]).ty as int),
{
    let mut k: usize = 0;
    while k < ms.len()
        invariant
            k <= ms@.len(),
            forall|q: int| 0 <= q < k ==> m.valid_type((#[trigger] ms@[q]).ty as int),
        decreases ms@.len() - k,
    {
        if ms[k].ty >= m.types.len() {
            return false;
        }
        k += 1;
    }
    true
}

fn node_is_well_formed(m: &Module, i: usize) -> (r: bool)
    requires
        i < m.nodes@.len(),
    ensures
        r == m.node_wf(i as int),
{
    let n = &m.nodes[i];
    if !(i < n.end && n.end <= m.nodes.len() && n.ty < m.types.len()) {
        return false;
    }
    match &n.kind {
        NodeKind::FunctionDef { parameters, return_annotation, decorators } => {
            let mut k: usize = 0;
            while k < parameters.len()
                invariant
                    i < m.nodes@.len(),
                    m.nodes@[i as int].kind matches NodeKind::FunctionDef { parameters: ps, .. } && ps@ == parameters@,
                    k <= parameters@.len(),
                    forall|q: int| 0 <= q < k ==> m.opt_child(i as int, (#[trigger] parameters@[q]).annotation),
                    forall|q: int| 0 <= q < k ==> m.opt_child(i as int, (#[trigger] parameters@[q]).default),
                decreases parameters@.len() - k,
            {
                if !optional_child(m, i, parameters[k].annotation) || !optional_child(m, i, parameters[k].default) {
                    assert(!m.opt_child(i as int, parameters@[k as int].annotation) || !m.opt_child(i as int, parameters@[k as int].default));
                    return false;
                }
                k += 1;
            }
            optional_child(m, i, *return_annotation) && all_children(m, i, decorators)
        },
        NodeKind::AnnAssign { annotation } => optional_child(m, i, Some(*annotation)),
        NodeKind::Assign { targets, scope } => all_children(m, i, targets) && all_member_types(m, scope),
        NodeKind::If { test } => optional_child(m, i, Some(*test)),
        NodeKind::Return { value } => optional_child(m, i, *value),
        NodeKind::Attribute { value, .. } => optional_child(m, i, Some(*value)),
        NodeKind::Call { func, arguments } => optional_child(m, i, Some(*func)) && all_children(m, i, arguments),
        NodeKind::Subscript { value, slice } => optional_child(m, i, Some(*value)) && optional_child(m, i, Some(*slice)),
        NodeKind::Tuple { elements } => all_children(m, i, elements),
        NodeKind::UnaryOp { operand } => optional_child(m, i, Some(*operand)),
        _ => true,
    }
}

fn type_is_well_formed(m: &Module, t: usize) -> (r: bool)
    requires
        t < m.types@.len(),
    ensures
        r == (m.type_wf(t as int) && m.function_wf(t as int)),
{
    let info = &m.types[t];
    if info.promoted >= m.types.len() {
        return false;
    }
    let tuple_ok = match &info.tuple_elements {
        Some(es) => all_types(m, es),
        None => true,
    };
    if !tuple_ok || !all_member_types(m, &info.members) {
        return false;
    }
    match &info.kind {
        TypeKind::TypeVar { upper_bound } => optional_type(m, *upper_bound),
        TypeKind::Function { overloads, implementation, overload_return_union, .. } => {
            if *overload_return_union >= m.types.len() {
                return false;
            }
            let mut k: usize = 0;
            while k < overloads.len()
                invariant
                    t < m.types@.len(),
                    m.types@[t as int].kind matches TypeKind::Function { overloads: os, .. } && os@ == overloads@,
                    k <= overloads@.len(),
                    forall|q: int| 0 <= q < k ==> m.opt_type((#[trigger] overloads@[q]).return_type),
                    forall|q: int, d: int| 0 <= q < k && 0 <= d < overloads@[q].decorators@.len() ==> m.valid_node(#[trigger] overloads@[q].decorators@[d] as int),
                decreases overloads@.len() - k,
            {
                if !optional_type(m, overloads[k].return_type) {
                    assert(!m.opt_type(overloads@[k as int].return_type));
                    return false;
                }
                let ds = &overloads[k].decorators;
                let mut d: usize = 0;
                while d < ds.len()
                    invariant
                        t < m.types@.len(),
                        m.types@[t as int].kind matches TypeKind::Function { overloads: os, .. } && os@ == overloads@,
                        d <= ds@.len(),
                        k < overloads@.len(),
                        ds@ == overloads@[k as int].decorators@,
                        forall|e: int| 0 <= e < d ==> m.valid_node(#[trigger] ds@[e] as int),
                    decreases ds@.len() - d,
                {
                    if ds[d] >= m.nodes.len() {
                        assert(!m.valid_node(overloads@[k as int].decorators@[d as int] as int));
                        return false;
                    }
                    d += 1;
                }
                k += 1;
            }
            match implementation {
                Some(sig) => all_optional_types(m, &sig.annotated_types) && all_optional_types(m, &sig.default_types),
                None => true,
            }
        },
        _ => true,
    }
}

impl Module {
    /// Whether every index in the module points inside it, which the checks
    /// require.
    pub fn is_well_formed(&self) -> (r: bool)
        ensures
            r == self.wf(),
    {
        if self.nodes.len() == usize::MAX {
            return false;
        }
        let mut i: usize = 0;
        while i < self.nodes.len()
            invariant
                i <= self.nodes@.len(),
                forall|q: int| 0 <= q < i ==> #[trigger] self.node_wf(q),
            decreases self.nodes@.len() - i,
        {
            if !node_is_well_formed(self, i) {
                return false;
            }
            i += 1;
        }
        let mut t: usize = 0;
        while t < self.types.len()
            invariant
                t <= self.types@.len(),
                forall|q: int| 0 <= q < self.nodes@.len() ==> #[trigger] self.node_wf(q),
                forall|q: int| 0 <= q < t ==> #[trigger] self.type_wf(q),
                forall|q: int| 0 <= q < t ==> #[trigger] self.function_wf(q),
            decreases self.types@.len() - t,
        {
            if !type_is_well_formed(self, t) {
                return false;
            }
            t += 1;
        }
        true
    }
}

} // verus!
