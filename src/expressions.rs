//! Checks on expressions: `cast()` and `setattr()` calls, mangled attribute
//! access, and tests of `TYPE_CHECKING`.
use vstd::prelude::*;
use vstd::string::*;

use crate::annotations::plain;
use crate::context::{extends, lemma_extends_refl, lemma_skip_disabled, Context};
use crate::diagnostic::Finding;
use crate::rule::RuleId;
use crate::rules::{IF_TYPE_CHECKING_USED, INVALID_SETATTR, MANGLED_DUNDER_INSTANCE_VARIABLE, TYPING_CAST_USED};
use crate::syntax::{KnownFunction, Member, Module, NodeKind, TypeKind};
use crate::text::{has_prefix, owned, str_eq, str_starts_with};

verus! {

/// Whether `attr` is the mangled form `_<class>__<name>` of a private name of
/// `class`, with a non-empty `<name>`.
pub open spec fn is_mangled(attr: Seq<char>, class: Seq<char>) -> bool {
    let p = "_"@ + class + "__"@;
    p.len() < attr.len() && has_prefix(attr, p)
}

/// Checks if an attribute name is a mangled dunder variable of the class.
pub fn is_mangled_dunder_variable(attr_name: &str, class_name: &str) -> (r: bool)
    ensures
        r == is_mangled(attr_name@, class_name@),
{
    let expected_prefix = owned("_").concat(class_name).concat("__");
    if !str_starts_with(attr_name, expected_prefix.as_str()) {
        return false;
    }
    attr_name.unicode_len() > expected_prefix.as_str().unicode_len()
}

pub open spec fn mangled_message(attr: Seq<char>) -> Seq<char> {
    "Explicit use of mangled attribute `"@ + attr + "` can bypass type checking and lead to runtime type errors."@
}

/// The class whose private names an attribute access on node `v` could spell
/// out: the upper bound of a bound type variable (such as `self`), or the
/// class of an instance.
pub open spec fn class_name_of(m: &Module, v: int) -> Option<Seq<char>> {
    match m.type_of(v).kind {
        TypeKind::TypeVar { upper_bound: Some(b) } => Some(m.types@[b as int].display@),
        TypeKind::NominalInstance => Some(m.type_of(v).display@),
        _ => None,
    }
}

/// What an attribute access yields.
pub open spec fn attribute_findings(m: &Module, i: int) -> Seq<Finding> {
    match m.node(i).kind {
        NodeKind::Attribute { value, attr } => match class_name_of(m, value as int) {
            Some(c) => if is_mangled(attr@, c) {
                seq![plain(MANGLED_DUNDER_INSTANCE_VARIABLE, m.node(i).range, mangled_message(attr@))]
            } else {
                Seq::empty()
            },
            None => Seq::empty(),
        },
        _ => Seq::empty(),
    }
}

/// Reports an explicit use of a mangled private name at node `i`.
pub fn check_attribute_expression(ctx: &mut Context, m: &Module, i: usize)
    requires
        m.wf(),
        i < m.nodes@.len(),
        old(ctx).knows_rules(),
    ensures
        extends(final(ctx), old(ctx), attribute_findings(m, i as int)),
{
    assert(m.node_wf(i as int));
    proof {
        lemma_extends_refl(ctx);
    }
    if let NodeKind::Attribute { value, attr } = &m.nodes[i].kind {
        assert(m.node_wf(*value as int));
        let t = m.nodes[*value].ty;
        assert(m.type_wf(t as int));
        let class_name: Option<&str> = match &m.types[t].kind {
            TypeKind::TypeVar { upper_bound: Some(b) } => Some(m.types[*b].display.as_str()),
            TypeKind::NominalInstance => Some(m.types[t].display.as_str()),
            _ => None,
        };
        if let Some(c) = class_name {
            let mangled = is_mangled_dunder_variable(attr.as_str(), c);
            if mangled && !ctx.is_enabled(RuleId { index: MANGLED_DUNDER_INSTANCE_VARIABLE }) {
                proof {
                    lemma_skip_disabled(ctx, plain(MANGLED_DUNDER_INSTANCE_VARIABLE, m.node(i as int).range, mangled_message(attr@)));
                }
            } else if mangled {
                let message = owned("Explicit use of mangled attribute `").concat(attr.as_str()).concat(
                    "` can bypass type checking and lead to runtime type errors.",
                );
                ctx.report(RuleId { index: MANGLED_DUNDER_INSTANCE_VARIABLE }, m.nodes[i].range, message, Vec::new());
                assert(Seq::<String>::empty().map_values(|s: String| s@) =~= Seq::<Seq<char>>::empty());
            }
        }
    }
}

/// The type of the first member of `ms` named `name`.
pub open spec fn first_member(ms: Seq<Member>, name: Seq<char>) -> Option<usize>
    decreases ms.len(),
{
    if ms.len() == 0 {
        None
    } else if ms[0].name@ == name {
        Some(ms[0].ty)
    } else {
        first_member(ms.subrange(1, ms.len() as int), name)
    }
}

/// The type of the first member of `ms` named `name`.
pub fn find_member(ms: &Vec<Member>, name: &str) -> (r: Option<usize>)
    ensures
        r == first_member(ms@, name@),
        r matches Some(t) ==> exists|k: int| 0 <= k < ms@.len() && ms@[k].ty == t,
{
    let mut k: usize = 0;
    assert(ms@.subrange(0, ms@.len() as int) =~= ms@);
    while k < ms.len()
        invariant
            k <= ms@.len(),
            first_member(ms@, name@) == first_member(ms@.subrange(k as int, ms@.len() as int), name@),
        decreases ms@.len() - k,
    {
        let ghost rest = ms@.subrange(k as int, ms@.len() as int);
        assert(rest[0] == ms@[k as int]);
        if str_eq(ms[k].name.as_str(), name) {
            return Some(ms[k].ty);
        }
        assert(rest.subrange(1, rest.len() as int) =~= ms@.subrange(k + 1, ms@.len() as int));
        k += 1;
    }
    None
}

pub open spec fn cast_message() -> Seq<char> {
    "Using `typing.cast()` bypasses type checking and can lead to runtime type errors."@
}

pub open spec fn cast_info() -> Seq<char> {
    "Consider using `isinstance` checks to ensure types at runtime."@
}

pub open spec fn setattr_message() -> Seq<char> {
    "Using `setattr()` bypasses type checking and can lead to runtime type errors."@
}

pub open spec fn setattr_info(value: Seq<char>, attribute: Seq<char>) -> Seq<char> {
    "Object of type `"@ + value + "` is not assignable to attribute of type `"@ + attribute + "`"@
}

/// Whether node `e` is the bare name `name`.
pub open spec fn is_name(m: &Module, e: int, name: Seq<char>) -> bool {
    m.node(e).kind matches NodeKind::Name { id } && id@ == name
}

/// A `cast(T, value)` call is flagged when the value's type is not already
/// assignable to `T` with literals widened; redundant casts are not flagged.
pub open spec fn cast_findings(m: &Module, func: int, args: Seq<usize>) -> Seq<Finding> {
    match m.type_of(func).kind {
        TypeKind::Function { known: KnownFunction::Cast, .. } => if args.len() >= 2
            && !m.assignable(m.node(args[1] as int).ty as int, m.type_of(args[0] as int).promoted as int) {
            seq![Finding { rule: RuleId { index: TYPING_CAST_USED }, range: m.node(func).range, message: cast_message(), infos: seq![cast_info()] }]
        } else {
            Seq::empty()
        },
        _ => Seq::empty(),
    }
}

/// A `setattr(obj, "name", value)` call is flagged when `obj`'s type has a
/// member `name` and the value's type is not assignable to that member's type
/// with literals widened.
pub open spec fn setattr_findings(m: &Module, i: int, args: Seq<usize>) -> Seq<Finding> {
    if args.len() < 3 {
        Seq::empty()
    } else {
        match m.node(args[1] as int).kind {
            NodeKind::StringLiteral { value } => match first_member(m.type_of(args[0] as int).members@, value@) {
                Some(mt) => {
                    let pt = m.types@[mt as int].promoted;
                    let vt = m.node(args[2] as int).ty;
                    if !m.assignable(vt as int, pt as int) {
                        seq![Finding { rule: RuleId { index: INVALID_SETATTR }, range: m.node(i).range, message: setattr_message(), infos: seq![setattr_info(m.types@[vt as int].display@, m.types@[pt as int].display@)] }]
                    } else {
                        Seq::empty()
                    }
                },
                None => Seq::empty(),
            },
            _ => Seq::empty(),
        }
    }
}

/// What a call yields: a call of the name `setattr` goes to the `setattr`
/// check, any other call to the `cast` check.
pub open spec fn call_findings(m: &Module, i: int) -> Seq<Finding> {
    match m.node(i).kind {
        NodeKind::Call { func, arguments } => if is_name(m, func as int, "setattr"@) {
            setattr_findings(m, i, arguments@)
        } else {
            cast_findings(m, func as int, arguments@)
        },
        _ => Seq::empty(),
    }
}

/// Checks if node `e` is the bare name `name`.
fn node_is_name(m: &Module, e: usize, name: &str) -> (r: bool)
    requires
        e < m.nodes@.len(),
    ensures
        r == is_name(m, e as int, name@),
{
    match &m.nodes[e].kind {
        NodeKind::Name { id } => str_eq(id.as_str(), name),
        _ => false,
    }
}

/// Reports an unsafe `setattr()` or a non-redundant `cast()` at call node `i`.
pub fn check_call_expression(ctx: &mut Context, m: &Module, i: usize)
    requires
        m.wf(),
        i < m.nodes@.len(),
        old(ctx).knows_rules(),
    ensures
        extends(final(ctx), old(ctx), call_findings(m, i as int)),
{
    assert(m.node_wf(i as int));
    proof {
        lemma_extends_refl(ctx);
    }
    if let NodeKind::Call { func, arguments } = &m.nodes[i].kind {
        let func = *func;
        if node_is_name(m, func, "setattr") {
            check_setattr_call(ctx, m, i, arguments);
            return;
        }
        assert(m.node_wf(func as int));
        let is_cast = match &m.types[m.nodes[func].ty].kind {
            TypeKind::Function { known: KnownFunction::Cast, .. } => true,
            _ => false,
        };
        if !is_cast || arguments.len() < 2 {
            return;
        }
        assert(m.child_of(i as int, arguments@[0] as int));
        assert(m.child_of(i as int, arguments@[1] as int));
        let casting_type = m.nodes[arguments[0]].ty;
        let value_type = m.nodes[arguments[1]].ty;
        assert(m.node_wf(arguments@[0] as int));
        assert(m.node_wf(arguments@[1] as int));
        assert(m.type_wf(casting_type as int));
        let promotion = m.types[casting_type].promoted;
        let redundant = m.is_assignable_to(value_type, promotion);
        if !redundant && !ctx.is_enabled(RuleId { index: TYPING_CAST_USED }) {
            proof {
                lemma_skip_disabled(ctx, Finding { rule: RuleId { index: TYPING_CAST_USED }, range: m.node(func as int).range, message: cast_message(), infos: seq![cast_info()] });
            }
        } else if !redundant {
            let mut infos: Vec<String> = Vec::new();
            infos.push(owned("Consider using `isinstance` checks to ensure types at runtime."));
            let message = owned("Using `typing.cast()` bypasses type checking and can lead to runtime type errors.");
            ctx.report(RuleId { index: TYPING_CAST_USED }, m.nodes[func].range, message, infos);
            assert(infos@.map_values(|s: String| s@) =~= seq![cast_info()]);
        }
    }
}

fn check_setattr_call(ctx: &mut Context, m: &Module, i: usize, arguments: &Vec<usize>)
    requires
        m.wf(),
        i < m.nodes@.len(),
        m.node(i as int).kind matches NodeKind::Call { arguments: args, .. } && args@ == arguments@,
        old(ctx).knows_rules(),
    ensures
        extends(final(ctx), old(ctx), setattr_findings(m, i as int, arguments@)),
{
    assert(m.node_wf(i as int));
    proof {
        lemma_extends_refl(ctx);
    }
    if arguments.len() < 3 {
        return;
    }
    assert(m.child_of(i as int, arguments@[0] as int));
    assert(m.child_of(i as int, arguments@[1] as int));
    assert(m.child_of(i as int, arguments@[2] as int));
    let name = match &m.nodes[arguments[1]].kind {
        NodeKind::StringLiteral { value } => value.as_str(),
        _ => {
            return;
        },
    };
    let object_type = m.nodes[arguments[0]].ty;
    assert(m.node_wf(arguments@[0] as int));
    assert(m.type_wf(object_type as int));
    let member_type = match find_member(&m.types[object_type].members, name) {
        Some(t) => t,
        None => {
            return;
        },
    };
    assert(m.type_wf(member_type as int));
    let promotion = m.types[member_type].promoted;
    let value_type = m.nodes[arguments[2]].ty;
    assert(m.node_wf(arguments@[2] as int));
    let fits = m.is_assignable_to(value_type, promotion);
    if !fits && !ctx.is_enabled(RuleId { index: INVALID_SETATTR }) {
        proof {
            lemma_skip_disabled(ctx, Finding { rule: RuleId { index: INVALID_SETATTR }, range: m.node(i as int).range, message: setattr_message(), infos: seq![setattr_info(m.types@[value_type as int].display@, m.types@[promotion as int].display@)] });
        }
    } else if !fits {
        let info = owned("Object of type `").concat(m.types[value_type].display.as_str()).concat(
            "` is not assignable to attribute of type `",
        ).concat(m.types[promotion].display.as_str()).concat("`");
        let mut infos: Vec<String> = Vec::new();
        infos.push(info);
        let message = owned("Using `setattr()` bypasses type checking and can lead to runtime type errors.");
        ctx.report(RuleId { index: INVALID_SETATTR }, m.nodes[i].range, message, infos);
        assert(infos@.map_values(|s: String| s@) =~= seq![setattr_info(m.types@[value_type as int].display@, m.types@[promotion as int].display@)]);
    }
}

/// Whether node `e` refers to `typing.TYPE_CHECKING`: a name or attribute
/// that the semantic model resolves to that constant, or a negation of one.
pub open spec fn is_type_checking_test(m: &Module, e: int) -> bool
    decreases m.nodes@.len() - e,
{
    if 0 <= e < m.nodes@.len() {
        match m.node(e).kind {
            NodeKind::Name { .. } | NodeKind::Attribute { .. } => m.type_of(e).kind is TypeCheckingConstant,
            NodeKind::UnaryOp { operand } => if e < operand < m.nodes@.len() {
                is_type_checking_test(m, operand as int)
            } else {
                false
            },
            _ => false,
        }
    } else {
        false
    }
}

/// Checks if node `e` refers to `typing.TYPE_CHECKING`.
pub fn type_checking_test(m: &Module, e: usize) -> (r: bool)
    requires
        m.wf(),
        e < m.nodes@.len(),
    ensures
        r == is_type_checking_test(m, e as int),
    decreases m.nodes@.len() - e,
{
    assert(m.node_wf(e as int));
    match &m.nodes[e].kind {
        NodeKind::Name { .. } | NodeKind::Attribute { .. } => match m.types[m.nodes[e].ty].kind {
            TypeKind::TypeCheckingConstant => true,
            _ => false,
        },
        NodeKind::UnaryOp { operand } => type_checking_test(m, *operand),
        _ => false,
    }
}

pub open spec fn if_type_checking_message() -> Seq<char> {
    "Using `if TYPE_CHECKING:` blocks can lead to runtime errors if imports or definitions are incorrectly referenced at runtime."@
}

/// What a conditional statement yields: a test of `TYPE_CHECKING` is flagged.
pub open spec fn if_findings(m: &Module, i: int) -> Seq<Finding> {
    match m.node(i).kind {
        NodeKind::If { test } => if is_type_checking_test(m, test as int) {
            seq![plain(IF_TYPE_CHECKING_USED, m.node(test as int).range, if_type_checking_message())]
        } else {
            Seq::empty()
        },
        _ => Seq::empty(),
    }
}

/// Reports a conditional statement at node `i` that tests `TYPE_CHECKING`.
pub fn check_if_statement(ctx: &mut Context, m: &Module, i: usize)
    requires
        m.wf(),
        i < m.nodes@.len(),
        old(ctx).knows_rules(),
    ensures
        extends(final(ctx), old(ctx), if_findings(m, i as int)),
{
    assert(m.node_wf(i as int));
    proof {
        lemma_extends_refl(ctx);
    }
    if let NodeKind::If { test } = &m.nodes[i].kind {
        let tests_type_checking = type_checking_test(m, *test);
        if tests_type_checking && !ctx.is_enabled(RuleId { index: IF_TYPE_CHECKING_USED }) {
            proof {
                lemma_skip_disabled(ctx, plain(IF_TYPE_CHECKING_USED, m.node(*test as int).range, if_type_checking_message()));
            }
        } else if tests_type_checking {
            let message = owned(
                "Using `if TYPE_CHECKING:` blocks can lead to runtime errors if imports or definitions are incorrectly referenced at runtime.",
            );
            ctx.report(RuleId { index: IF_TYPE_CHECKING_USED }, m.nodes[*test].range, message, Vec::new());
            assert(Seq::<String>::empty().map_values(|s: String| s@) =~= Seq::<Seq<char>>::empty());
        }
    }
}

/// Whether node `e` is a literal mutable container or a comprehension.
pub open spec fn is_mutable(m: &Module, e: int) -> bool {
    match m.node(e).kind {
        NodeKind::ListLiteral | NodeKind::DictLiteral | NodeKind::SetLiteral | NodeKind::ListComp
        | NodeKind::DictComp | NodeKind::SetComp => true,
        _ => false,
    }
}

/// Returns `true` if node `e` is an expression that evaluates to a fresh mutable value.
pub fn is_mutable_expr(m: &Module, e: usize) -> (r: bool)
    requires
        e < m.nodes@.len(),
    ensures
        r == is_mutable(m, e as int),
{
    match m.nodes[e].kind {
        NodeKind::ListLiteral | NodeKind::DictLiteral | NodeKind::SetLiteral | NodeKind::ListComp
        | NodeKind::DictComp | NodeKind::SetComp => true,
        _ => false,
    }
}

/// Whether node `e` is a call of the bare name `globals`.
pub open spec fn is_globals(m: &Module, e: int) -> bool {
    m.node(e).kind matches NodeKind::Call { func, .. } && is_name(m, func as int, "globals"@)
}

/// Checks if node `e` is a call to `globals()`.
pub fn is_globals_call(m: &Module, e: usize) -> (r: bool)
    requires
        m.wf(),
        e < m.nodes@.len(),
    ensures
        r == is_globals(m, e as int),
{
    assert(m.node_wf(e as int));
    match &m.nodes[e].kind {
        NodeKind::Call { func, .. } => node_is_name(m, *func, "globals"),
        _ => false,
    }
}

} // verus!
