//! Checks on type annotations: the dynamic type `Any`, and `Callable[..., R]`.
use vstd::prelude::*;
use vstd::string::*;

use crate::context::{extends, lemma_extends_refl, lemma_extends_trans, lemma_skip_disabled, Context};
use crate::diagnostic::{Finding, TextRange};
use crate::rule::RuleId;
use crate::rules::{CALLABLE_ELLIPSIS_USED, TYPING_ANY_USED};
use crate::syntax::{Module, NodeKind, TypeKind};
use crate::text::owned;

verus! {

pub open spec fn any_message() -> Seq<char> {
    "Using `typing.Any` in type annotations can lead to runtime errors."@
}

pub open spec fn callable_ellipsis_message() -> Seq<char> {
    "Using `...` in `Callable` type annotations can lead to runtime type errors."@
}

/// A finding without info lines.
pub open spec fn plain(rule: usize, range: TextRange, message: Seq<char>) -> Finding {
    Finding { rule: RuleId { index: rule }, range, message, infos: Seq::empty() }
}

/// Reports a use of `typing.Any` at `range`; the message is built only when
/// the rule is enabled.
pub fn report_typing_any_used(ctx: &mut Context, range: TextRange)
    requires
        old(ctx).knows_rules(),
    ensures
        extends(final(ctx), old(ctx), seq![plain(TYPING_ANY_USED, range, any_message())]),
{
    if ctx.is_enabled(RuleId { index: TYPING_ANY_USED }) {
        ctx.report(RuleId { index: TYPING_ANY_USED }, range, owned("Using `typing.Any` in type annotations can lead to runtime errors."), Vec::new());
        assert(Seq::<String>::empty().map_values(|s: String| s@) =~= Seq::<Seq<char>>::empty());
    } else {
        proof {
            lemma_skip_disabled(ctx, plain(TYPING_ANY_USED, range, any_message()));
        }
    }
}

/// Whether node `j` is a subscript whose slice is a tuple that starts with `...`.
pub open spec fn subscript_with_leading_ellipsis(m: &Module, j: int) -> bool {
    match m.node(j).kind {
        NodeKind::Subscript { slice, .. } => match m.node(slice as int).kind {
            NodeKind::Tuple { elements } => elements@.len() > 0 && m.node(elements@[0] as int).kind is EllipsisLiteral,
            _ => false,
        },
        _ => false,
    }
}

/// What one sub-expression of an annotation yields: `Any` is flagged; a
/// callable type written with `...` as its first argument is flagged.
pub open spec fn annotation_node_findings(m: &Module, j: int) -> Seq<Finding> {
    let any = if m.type_of(j).kind is Any {
        seq![plain(TYPING_ANY_USED, m.node(j).range, any_message())]
    } else {
        Seq::empty()
    };
    let callable = if m.type_of(j).kind is Callable && subscript_with_leading_ellipsis(m, j) {
        seq![plain(CALLABLE_ELLIPSIS_USED, m.node(j).range, callable_ellipsis_message())]
    } else {
        Seq::empty()
    };
    any + callable
}

/// The findings of the nodes `from .. to`, in order.
pub open spec fn annotation_range_findings(m: &Module, from: int, to: int) -> Seq<Finding>
    decreases to - from,
{
    if to <= from {
        Seq::empty()
    } else {
        annotation_range_findings(m, from, to - 1) + annotation_node_findings(m, to - 1)
    }
}

/// The findings of an annotation: every sub-expression, outer before inner.
pub open spec fn annotation_findings(m: &Module, a: int) -> Seq<Finding> {
    annotation_range_findings(m, a, m.node(a).end as int)
}

/// Whether some sub-expression of the annotation is a type variable.
pub open spec fn is_generic_annotation(m: &Module, a: int) -> bool {
    exists|j: int| a <= j < m.node(a).end && m.type_of(j).kind is TypeVar
}

fn is_ellipsis_subscript(m: &Module, j: usize) -> (r: bool)
    requires
        m.wf(),
        j < m.nodes@.len(),
    ensures
        r == subscript_with_leading_ellipsis(m, j as int),
{
    assert(m.node_wf(j as int));
    match &m.nodes[j].kind {
        NodeKind::Subscript { slice, .. } => {
            assert(m.node_wf(*slice as int));
            match &m.nodes[*slice].kind {
                NodeKind::Tuple { elements } => {
                    if elements.len() == 0 {
                        false
                    } else {
                        match m.nodes[elements[0]].kind {
                            NodeKind::EllipsisLiteral => true,
                            _ => false,
                        }
                    }
                },
                _ => false,
            }
        },
        _ => false,
    }
}

/// Reports what the annotation rooted at node `a` yields.
pub fn check_annotation(ctx: &mut Context, m: &Module, a: usize)
    requires
        m.wf(),
        a < m.nodes@.len(),
        old(ctx).knows_rules(),
    ensures
        extends(final(ctx), old(ctx), annotation_findings(m, a as int)),
{
    assert(m.node_wf(a as int));
    let end = m.nodes[a].end;
    let mut j: usize = a;
    proof {
        lemma_extends_refl(ctx);
    }
    while j < end
        invariant
            m.wf(),
            a <= j <= end,
            end == m.node(a as int).end,
            end <= m.nodes@.len(),
            ctx.knows_rules(),
            extends(ctx, old(ctx), annotation_range_findings(m, a as int, j as int)),
        decreases end - j,
    {
        let ghost before = *ctx;
        assert(m.node_wf(j as int));
        let ty = m.nodes[j].ty;
        let range = m.nodes[j].range;
        match m.types[ty].kind {
            TypeKind::Any => {
                report_typing_any_used(ctx, range);
            },
            _ => {},
        }
        let ghost middle = *ctx;
        let is_callable = match m.types[ty].kind {
            TypeKind::Callable => true,
            _ => false,
        };
        if is_callable && is_ellipsis_subscript(m, j) {
            if ctx.is_enabled(RuleId { index: CALLABLE_ELLIPSIS_USED }) {
                ctx.report(RuleId { index: CALLABLE_ELLIPSIS_USED }, range, owned("Using `...` in `Callable` type annotations can lead to runtime type errors."), Vec::new());
            } else {
                proof {
                    lemma_skip_disabled(ctx, plain(CALLABLE_ELLIPSIS_USED, range, callable_ellipsis_message()));
                }
            }
        }
        proof {
            assert(Seq::<String>::empty().map_values(|s: String| s@) =~= Seq::<Seq<char>>::empty());
            let fa = if m.type_of(j as int).kind is Any { seq![plain(TYPING_ANY_USED, range, any_message())] } else { Seq::empty() };
            let fc = if m.type_of(j as int).kind is Callable && subscript_with_leading_ellipsis(m, j as int) { seq![plain(CALLABLE_ELLIPSIS_USED, range, callable_ellipsis_message())] } else { Seq::empty() };
            if !(m.type_of(j as int).kind is Any) {
                lemma_extends_refl(&before);
            }
            if !(m.type_of(j as int).kind is Callable && subscript_with_leading_ellipsis(m, j as int)) {
                lemma_extends_refl(&middle);
            }
            assert(extends(&middle, &before, fa));
            assert(extends(ctx, &middle, fc));
            lemma_extends_trans(&before, &middle, ctx, fa, fc);
            lemma_extends_trans(old(ctx), &before, ctx, annotation_range_findings(m, a as int, j as int), fa + fc);
            assert(annotation_range_findings(m, a as int, j + 1) == annotation_range_findings(m, a as int, j as int) + (fa + fc));
        }
        j += 1;
    }
}

/// Whether some sub-expression of the annotation rooted at `a` is a type variable.
pub fn annotation_is_generic(m: &Module, a: usize) -> (r: bool)
    requires
        m.wf(),
        a < m.nodes@.len(),
    ensures
        r == is_generic_annotation(m, a as int),
{
    assert(m.node_wf(a as int));
    let end = m.nodes[a].end;
    let mut j: usize = a;
    while j < end
        invariant
            m.wf(),
            a <= j <= end,
            end == m.node(a as int).end,
            end <= m.nodes@.len(),
            forall|k: int| a <= k < j ==> !(m.type_of(k).kind is TypeVar),
        decreases end - j,
    {
        assert(m.node_wf(j as int));
        match m.types[m.nodes[j].ty].kind {
            TypeKind::TypeVar { .. } => {
                assert(a <= j < m.node(a as int).end && m.type_of(j as int).kind is TypeVar);
                return true;
            },
            _ => {},
        }
        j += 1;
    }
    false
}

} // verus!
