//! Checks on function definitions: overload implementations and decorators,
//! `TypeIs` returns, mutable defaults of generic parameters, and annotations.
use vstd::prelude::*;
use vstd::string::*;

use crate::annotations::{annotation_findings, annotation_is_generic, check_annotation, is_generic_annotation, plain};
use crate::context::{extends, lemma_extends_refl, lemma_extends_trans, lemma_skip_all_disabled, lemma_skip_disabled, Context};
use crate::diagnostic::Finding;
use crate::expressions::{is_mutable, is_mutable_expr};
use crate::rule::RuleId;
use crate::rules::{INVALID_OVERLOAD_IMPLEMENTATION, MUTABLE_GENERIC_DEFAULT, TYPING_OVERLOAD_USED, TYPING_TYPE_IS_USED};
use crate::syntax::{KnownFunction, Module, NodeKind, Overload, Parameter, TypeKind};
use crate::text::owned;

verus! {

pub open spec fn overload_used_message() -> Seq<char> {
    "Using `typing.overload` can lead to runtime errors."@
}

pub open spec fn invalid_overload_message() -> Seq<char> {
    "Invalid overload implementation can lead to runtime errors."@
}

pub open spec fn type_is_message() -> Seq<char> {
    "Using `typing.TypeIs` can lead to runtime type errors."@
}

pub open spec fn mutable_default_message() -> Seq<char> {
    "Using a mutable default argument for a generic parameter in a function can lead to runtime type errors."@
}

/// The findings of the first `n` decorators of `ds`: each that refers to
/// `typing.overload` is flagged.
pub open spec fn decorator_findings(m: &Module, ds: Seq<usize>, n: int) -> Seq<Finding>
    decreases n,
{
    if n <= 0 {
        Seq::empty()
    } else {
        let d = ds[n - 1] as int;
        decorator_findings(m, ds, n - 1) + if m.type_of(d).kind matches TypeKind::Function { known, .. } && known == KnownFunction::Overload {
            seq![plain(TYPING_OVERLOAD_USED, m.node(d).range, overload_used_message())]
        } else {
            Seq::empty()
        }
    }
}

/// The decorator findings of the first `n` overloads.
pub open spec fn overloads_decorator_findings(m: &Module, os: Seq<Overload>, n: int) -> Seq<Finding>
    decreases n,
{
    if n <= 0 {
        Seq::empty()
    } else {
        overloads_decorator_findings(m, os, n - 1) + decorator_findings(m, os[n - 1].decorators@, os[n - 1].decorators@.len() as int)
    }
}

/// The `return` statements among nodes `j .. to`, skipping the subtrees of
/// nested function definitions.
pub open spec fn returns_from(m: &Module, j: int, to: int) -> Seq<usize>
    decreases to - j,
{
    if j < 0 || j >= to || j >= m.nodes@.len() {
        Seq::empty()
    } else {
        match m.node(j).kind {
            NodeKind::FunctionDef { .. } => if j < m.node(j).end <= to {
                returns_from(m, m.node(j).end as int, to)
            } else {
                Seq::empty()
            },
            NodeKind::Return { .. } => seq![#[verifier::truncate] (j as usize)] + returns_from(m, j + 1, to),
            _ => returns_from(m, j + 1, to),
        }
    }
}

/// Whether some overload's return type is missing or dynamic, so that the
/// implementation's returns cannot be validated.
pub open spec fn has_unknown_return(m: &Module, os: Seq<Overload>) -> bool {
    exists|k: int| 0 <= k < os.len() && match #[trigger] os[k].return_type {
        None => true,
        Some(t) => m.types@[t as int].kind is Any || m.types@[t as int].kind is Unknown,
    }
}

/// A type as the overload message shows it: its display in backticks, or
/// `None` where there is no type.
pub open spec fn shown(m: &Module, t: Option<usize>) -> Seq<char> {
    match t {
        Some(t) => "`"@ + m.types@[t as int].display@ + "`"@,
        None => "`None`"@,
    }
}

/// The first `n` overload return types as the message lists them.
pub open spec fn shown_returns(m: &Module, os: Seq<Overload>, n: int) -> Seq<char>
    decreases n,
{
    if n <= 0 {
        Seq::empty()
    } else if n == 1 {
        shown(m, os[0].return_type)
    } else {
        shown_returns(m, os, n - 1) + ", "@ + shown(m, os[n - 1].return_type)
    }
}

pub open spec fn invalid_overload_info(returned: Seq<char>, listed: Seq<char>) -> Seq<char> {
    "This overload implementation is invalid as "@ + returned
        + " is not assignable to any of the overload return types ("@ + listed + ")"@
}

/// The type that `return` statement `r` returns: its value's type, or for a
/// bare `return` the type of the statement itself, which is `None`.
pub open spec fn returned_type(m: &Module, r: int) -> usize {
    match m.node(r).kind->Return_value {
        Some(v) => m.node(v as int).ty,
        None => m.node(r).ty,
    }
}

/// What one `return` statement of an overload implementation yields: it is
/// flagged when the type it returns, a bare `return` included, is not
/// assignable to the union of the overload return types.
pub open spec fn return_finding(m: &Module, return_union: usize, os: Seq<Overload>, r: int) -> Seq<Finding> {
    let t = returned_type(m, r);
    let shown_value = shown(m, Some(t));
    if !m.assignable(t as int, return_union as int) {
        seq![Finding {
            rule: RuleId { index: INVALID_OVERLOAD_IMPLEMENTATION },
            range: m.node(r).range,
            message: invalid_overload_message(),
            infos: seq![invalid_overload_info(shown_value, shown_returns(m, os, os.len() as int))],
        }]
    } else {
        Seq::empty()
    }
}

/// The findings of the first `n` return statements `rs`.
pub open spec fn returns_findings(m: &Module, return_union: usize, os: Seq<Overload>, rs: Seq<usize>, n: int) -> Seq<Finding>
    decreases n,
{
    if n <= 0 {
        Seq::empty()
    } else {
        returns_findings(m, return_union, os, rs, n - 1) + return_finding(m, return_union, os, rs[n - 1] as int)
    }
}

/// What a definition's overloads yield. When the function has an
/// implementation, each `@overload` decorator of its overloads is flagged.
/// When it has overloads whose return types are all known, each `return` of
/// the body outside nested functions is checked against their return_union.
pub open spec fn overload_findings(m: &Module, i: int) -> Seq<Finding> {
    match m.type_of(i).kind {
        TypeKind::Function { overloads, implementation, overload_return_union, .. } => {
            let decorators = if implementation is Some {
                overloads_decorator_findings(m, overloads@, overloads@.len() as int)
            } else {
                Seq::empty()
            };
            let rs = returns_from(m, i + 1, m.node(i).end as int);
            let checked_returns = if overloads@.len() == 0 || has_unknown_return(m, overloads@) {
                Seq::empty()
            } else {
                returns_findings(m, overload_return_union, overloads@, rs, rs.len() as int)
            };
            decorators + checked_returns
        },
        _ => Seq::empty(),
    }
}

/// What one parameter yields: its annotation's findings, then a mutable
/// default of a parameter whose annotation mentions a type variable.
pub open spec fn parameter_findings(m: &Module, p: Parameter) -> Seq<Finding> {
    match p.annotation {
        Some(a) => annotation_findings(m, a as int) + match p.default {
            Some(d) => if is_mutable(m, d as int) && is_generic_annotation(m, a as int) {
                seq![plain(MUTABLE_GENERIC_DEFAULT, m.node(d as int).range, mutable_default_message())]
            } else {
                Seq::empty()
            },
            None => Seq::empty(),
        },
        None => Seq::empty(),
    }
}

/// The findings of the first `n` parameters.
pub open spec fn parameters_findings(m: &Module, ps: Seq<Parameter>, n: int) -> Seq<Finding>
    decreases n,
{
    if n <= 0 {
        Seq::empty()
    } else {
        parameters_findings(m, ps, n - 1) + parameter_findings(m, ps[n - 1])
    }
}

/// What a function definition yields, in order: overloads, a `TypeIs` return
/// annotation, then the parameters. `Any` in the return annotation is not
/// flagged: only parameter annotations go through the annotation checks.
pub open spec fn function_findings(m: &Module, i: int) -> Seq<Finding> {
    match m.node(i).kind {
        NodeKind::FunctionDef { parameters, return_annotation, .. } => {
            let type_is = match return_annotation {
                Some(r) => if m.type_of(r as int).kind is TypeIs {
                    seq![plain(TYPING_TYPE_IS_USED, m.node(r as int).range, type_is_message())]
                } else {
                    Seq::empty()
                },
                None => Seq::empty(),
            };
            overload_findings(m, i) + type_is + parameters_findings(m, parameters@, parameters@.len() as int)
        },
        _ => Seq::empty(),
    }
}

/// Collects the `return` statements of nodes `from .. to` outside nested functions.
pub fn return_statements(m: &Module, from: usize, to: usize) -> (r: Vec<usize>)
    requires
        m.wf(),
        from <= to <= m.nodes@.len(),
    ensures
        r@ == returns_from(m, from as int, to as int),
        forall|k: int| 0 <= k < r@.len() ==> from <= #[trigger] r@[k] < to && m.node(r@[k] as int).kind is Return,
{
    let mut out: Vec<usize> = Vec::new();
    let mut j: usize = from;
    while j < to
        invariant
            m.wf(),
            to <= m.nodes@.len(),
            from <= j,
            out@ + returns_from(m, j as int, to as int) == returns_from(m, from as int, to as int),
            forall|k: int| 0 <= k < out@.len() ==> from <= #[trigger] out@[k] < to && m.node(out@[k] as int).kind is Return,
            j <= m.nodes@.len(),
        decreases m.nodes@.len() - j,
    {
        assert(m.node_wf(j as int));
        match &m.nodes[j].kind {
            NodeKind::FunctionDef { .. } => {
                j = m.nodes[j].end;
            },
            NodeKind::Return { .. } => {
                let ghost before = out@;
                out.push(j);
                assert(out@ + returns_from(m, j + 1, to as int) =~= before + (seq![j] + returns_from(m, j + 1, to as int)));
                j += 1;
            },
            _ => {
                j += 1;
            },
        }
    }
    assert(out@ + returns_from(m, j as int, to as int) =~= out@);
    out
}

fn shown_type(m: &Module, t: Option<usize>) -> (r: String)
    requires
        m.wf(),
        m.opt_type(t),
    ensures
        r@ == shown(m, t),
{
    match t {
        Some(t) => owned("`").concat(m.types[t].display.as_str()).concat("`"),
        None => owned("`None`"),
    }
}

fn shown_overload_returns(m: &Module, os: &Vec<Overload>) -> (r: String)
    requires
        m.wf(),
        forall|k: int| 0 <= k < os@.len() ==> m.opt_type(#[trigger] os@[k].return_type),
    ensures
        r@ == shown_returns(m, os@, os@.len() as int),
{
    let mut out = String::new();
    let mut k: usize = 0;
    while k < os.len()
        invariant
            m.wf(),
            k <= os@.len(),
            forall|q: int| 0 <= q < os@.len() ==> m.opt_type(#[trigger] os@[q].return_type),
            out@ == shown_returns(m, os@, k as int),
        decreases os@.len() - k,
    {
        let s = shown_type(m, os[k].return_type);
        if k == 0 {
            out = s;
        } else {
            out = out.concat(", ").concat(s.as_str());
        }
        k += 1;
    }
    out
}

/// Reports the overload findings of function definition `i`.
pub fn check_overloads(ctx: &mut Context, m: &Module, i: usize)
    requires
        m.wf(),
        i < m.nodes@.len(),
        old(ctx).knows_rules(),
    ensures
        extends(final(ctx), old(ctx), overload_findings(m, i as int)),
{
    assert(m.node_wf(i as int));
    let t = m.nodes[i].ty;
    assert(m.function_wf(t as int));
    proof {
        lemma_extends_refl(ctx);
    }
    let (overloads, implementation, return_union) = match &m.types[t].kind {
        TypeKind::Function { overloads, implementation, overload_return_union, .. } => (overloads, implementation, *overload_return_union),
        _ => {
            return;
        },
    };
    let ghost start = *ctx;
    if implementation.is_some() {
        let mut k: usize = 0;
        while k < overloads.len()
            invariant
                m.wf(),
                m.function_wf(t as int),
                m.types@[t as int].kind matches TypeKind::Function { overloads: os, .. } && os@ == overloads@,
                k <= overloads@.len(),
                ctx.knows_rules(),
                extends(ctx, &start, overloads_decorator_findings(m, overloads@, k as int)),
            decreases overloads@.len() - k,
        {
            let ds = &overloads[k].decorators;
            let ghost outer = *ctx;
            let mut d: usize = 0;
            proof {
                lemma_extends_refl(ctx);
            }
            while d < ds.len()
                invariant
                    m.wf(),
                    m.function_wf(t as int),
                    m.types@[t as int].kind matches TypeKind::Function { overloads: os, .. } && os@ == overloads@,
                    k < overloads@.len(),
                    ds@ == overloads@[k as int].decorators@,
                    d <= ds@.len(),
                    ctx.knows_rules(),
                    extends(ctx, &outer, decorator_findings(m, ds@, d as int)),
                decreases ds@.len() - d,
            {
                let dn = ds[d];
                assert(m.valid_node(dn as int));
                assert(m.node_wf(dn as int));
                let is_overload = match &m.types[m.nodes[dn].ty].kind {
                    TypeKind::Function { known: KnownFunction::Overload, .. } => true,
                    _ => false,
                };
                let ghost before = *ctx;
                if is_overload && !ctx.is_enabled(RuleId { index: TYPING_OVERLOAD_USED }) {
                    proof {
                        lemma_skip_disabled(ctx, plain(TYPING_OVERLOAD_USED, m.node(dn as int).range, overload_used_message()));
                    }
                } else if is_overload {
                    let message = owned("Using `typing.overload` can lead to runtime errors.");
                    ctx.report(RuleId { index: TYPING_OVERLOAD_USED }, m.nodes[dn].range, message, Vec::new());
                    assert(Seq::<String>::empty().map_values(|s: String| s@) =~= Seq::<Seq<char>>::empty());
                } else {
                    proof {
                        lemma_extends_refl(ctx);
                    }
                }
                proof {
                    let f = if is_overload { seq![plain(TYPING_OVERLOAD_USED, m.node(dn as int).range, overload_used_message())] } else { Seq::empty() };
                    lemma_extends_trans(&outer, &before, ctx, decorator_findings(m, ds@, d as int), f);
                }
                d += 1;
            }
            proof {
                lemma_extends_trans(&start, &outer, ctx, overloads_decorator_findings(m, overloads@, k as int), decorator_findings(m, ds@, ds@.len() as int));
            }
            k += 1;
        }
    }
    let ghost after_decorators = *ctx;
    let ghost decorators = if implementation is Some { overloads_decorator_findings(m, overloads@, overloads@.len() as int) } else { Seq::empty() };
    assert(extends(ctx, &start, decorators));
    if overloads.len() == 0 || has_unknown_return_exec(m, overloads) {
        assert(decorators + Seq::<Finding>::empty() =~= decorators);
        return;
    }
    let end = m.nodes[i].end;
    if !ctx.is_enabled(RuleId { index: INVALID_OVERLOAD_IMPLEMENTATION }) {
        proof {
            let rs = returns_from(m, i + 1, end as int);
            let fs = returns_findings(m, return_union, overloads@, rs, rs.len() as int);
            lemma_returns_findings_rule(m, return_union, overloads@, rs, rs.len() as int);
            lemma_skip_all_disabled(ctx, fs);
            lemma_extends_trans(&start, &after_decorators, ctx, decorators, fs);
        }
        return;
    }
    assert(m.valid_type(return_union as int));
    let listed = shown_overload_returns(m, overloads);
    let rs = return_statements(m, i + 1, end);
    let mut k: usize = 0;
    proof {
        lemma_extends_refl(ctx);
    }
    while k < rs.len()
        invariant
            m.wf(),
            ctx.knows_rules(),
            k <= rs@.len(),
            end <= m.nodes@.len(),
            m.valid_type(return_union as int),
            listed@ == shown_returns(m, overloads@, overloads@.len() as int),
            forall|q: int| 0 <= q < rs@.len() ==> i + 1 <= #[trigger] rs@[q] < end && m.node(rs@[q] as int).kind is Return,
            extends(ctx, &after_decorators, returns_findings(m, return_union, overloads@, rs@, k as int)),
        decreases rs@.len() - k,
    {
        let r = rs[k];
        assert(m.node_wf(r as int));
        let ghost before = *ctx;
        let value = match &m.nodes[r].kind {
            NodeKind::Return { value } => *value,
            _ => None,
        };
        let vt = match value {
            Some(v) => {
                assert(m.node_wf(v as int));
                m.nodes[v].ty
            },
            None => m.nodes[r].ty,
        };
        let bad = !m.is_assignable_to(vt, return_union);
        let shown_value = shown_type(m, Some(vt));
        if bad {
            let info = owned("This overload implementation is invalid as ").concat(shown_value.as_str()).concat(
                " is not assignable to any of the overload return types (",
            ).concat(listed.as_str()).concat(")");
            let mut infos: Vec<String> = Vec::new();
            infos.push(info);
            let message = owned("Invalid overload implementation can lead to runtime errors.");
            ctx.report(RuleId { index: INVALID_OVERLOAD_IMPLEMENTATION }, m.nodes[r].range, message, infos);
            assert(infos@.map_values(|s: String| s@) =~= seq![invalid_overload_info(shown_value@, listed@)]);
        } else {
            proof {
                lemma_extends_refl(ctx);
            }
        }
        proof {
            lemma_extends_trans(&after_decorators, &before, ctx, returns_findings(m, return_union, overloads@, rs@, k as int), return_finding(m, return_union, overloads@, r as int));
        }
        k += 1;
    }
    proof {
        lemma_extends_trans(&start, &after_decorators, ctx, decorators, returns_findings(m, return_union, overloads@, rs@, rs@.len() as int));
    }
}

proof fn lemma_returns_findings_rule(m: &Module, return_union: usize, os: Seq<Overload>, rs: Seq<usize>, n: int)
    ensures
        forall|k: int| 0 <= k < returns_findings(m, return_union, os, rs, n).len() ==> (#[trigger] returns_findings(m, return_union, os, rs, n)[k]).rule
            == (RuleId { index: INVALID_OVERLOAD_IMPLEMENTATION }),
    decreases n,
{
    if n > 0 {
        lemma_returns_findings_rule(m, return_union, os, rs, n - 1);
        let prev = returns_findings(m, return_union, os, rs, n - 1);
        let last = return_finding(m, return_union, os, rs[n - 1] as int);
        assert forall|k: int| 0 <= k < (prev + last).len() implies (#[trigger] (prev + last)[k]).rule == RuleId { index: INVALID_OVERLOAD_IMPLEMENTATION } by {
            if k < prev.len() {
                assert((prev + last)[k] == prev[k]);
            } else {
                assert((prev + last)[k] == last[k - prev.len()]);
            }
        }
    }
}

fn has_unknown_return_exec(m: &Module, os: &Vec<Overload>) -> (r: bool)
    requires
        m.wf(),
        forall|k: int| 0 <= k < os@.len() ==> m.opt_type(#[trigger] os@[k].return_type),
    ensures
        r == has_unknown_return(m, os@),
{
    let mut k: usize = 0;
    while k < os.len()
        invariant
            k <= os@.len(),
            forall|q: int| 0 <= q < os@.len() ==> m.opt_type(#[trigger] os@[q].return_type),
            forall|q: int| 0 <= q < k ==> !match #[trigger] os@[q].return_type {
                None => true,
                Some(t) => m.types@[t as int].kind is Any || m.types@[t as int].kind is Unknown,
            },
        decreases os@.len() - k,
    {
        match os[k].return_type {
            None => {
                return true;
            },
            Some(t) => {
                match m.types[t].kind {
                    TypeKind::Any | TypeKind::Unknown => {
                        return true;
                    },
                    _ => {},
                }
            },
        }
        k += 1;
    }
    false
}

/// Reports what parameter `p` of a definition yields.
fn check_parameter(ctx: &mut Context, m: &Module, i: usize, p: &Parameter)
    requires
        m.wf(),
        i < m.nodes@.len(),
        m.opt_child(i as int, p.annotation),
        m.opt_child(i as int, p.default),
        old(ctx).knows_rules(),
    ensures
        extends(final(ctx), old(ctx), parameter_findings(m, *p)),
{
    assert(m.node_wf(i as int));
    proof {
        lemma_extends_refl(ctx);
    }
    if let Some(a) = p.annotation {
        check_annotation(ctx, m, a);
        let ghost middle = *ctx;
        let mut flagged = false;
        if let Some(d) = p.default {
            let mutable = is_mutable_expr(m, d);
            if mutable && !ctx.is_enabled(RuleId { index: MUTABLE_GENERIC_DEFAULT }) {
                proof {
                    lemma_skip_disabled(ctx, plain(MUTABLE_GENERIC_DEFAULT, m.node(d as int).range, mutable_default_message()));
                }
                flagged = true;
            } else if mutable && annotation_is_generic(m, a) {
                let message = owned(
                    "Using a mutable default argument for a generic parameter in a function can lead to runtime type errors.",
                );
                ctx.report(RuleId { index: MUTABLE_GENERIC_DEFAULT }, m.nodes[d].range, message, Vec::new());
                assert(Seq::<String>::empty().map_values(|s: String| s@) =~= Seq::<Seq<char>>::empty());
                flagged = true;
            }
        }
        if !flagged {
            proof {
                lemma_extends_refl(ctx);
            }
        }
        proof {
            let tail = match p.default {
                Some(d) => if is_mutable(m, d as int) && is_generic_annotation(m, a as int) {
                    seq![plain(MUTABLE_GENERIC_DEFAULT, m.node(d as int).range, mutable_default_message())]
                } else {
                    Seq::empty()
                },
                None => Seq::empty(),
            };
            lemma_extends_trans(old(ctx), &middle, ctx, annotation_findings(m, a as int), tail);
        }
    }
}

/// Reports what function definition `i` yields.
pub fn check_function_definition_statement(ctx: &mut Context, m: &Module, i: usize)
    requires
        m.wf(),
        i < m.nodes@.len(),
        old(ctx).knows_rules(),
    ensures
        extends(final(ctx), old(ctx), function_findings(m, i as int)),
{
    assert(m.node_wf(i as int));
    proof {
        lemma_extends_refl(ctx);
    }
    if let NodeKind::FunctionDef { parameters, return_annotation, .. } = &m.nodes[i].kind {
        check_overloads(ctx, m, i);
        let ghost after_overloads = *ctx;
        let mut type_is = false;
        if let Some(r) = return_annotation {
            assert(m.node_wf(*r as int));
            match m.types[m.nodes[*r].ty].kind {
                TypeKind::TypeIs if !ctx.is_enabled(RuleId { index: TYPING_TYPE_IS_USED }) => {
                    proof {
                        lemma_skip_disabled(ctx, plain(TYPING_TYPE_IS_USED, m.node(*r as int).range, type_is_message()));
                    }
                    type_is = true;
                },
                TypeKind::TypeIs => {
                    let message = owned("Using `typing.TypeIs` can lead to runtime type errors.");
                    ctx.report(RuleId { index: TYPING_TYPE_IS_USED }, m.nodes[*r].range, message, Vec::new());
                    assert(Seq::<String>::empty().map_values(|s: String| s@) =~= Seq::<Seq<char>>::empty());
                    type_is = true;
                },
                _ => {},
            }
        }
        if !type_is {
            proof {
                lemma_extends_refl(ctx);
            }
        }
        let ghost after_type_is = *ctx;
        let ghost type_is_part = match *return_annotation {
            Some(r) => if m.type_of(r as int).kind is TypeIs {
                seq![plain(TYPING_TYPE_IS_USED, m.node(r as int).range, type_is_message())]
            } else {
                Seq::empty()
            },
            None => Seq::empty(),
        };
        proof {
            lemma_extends_trans(old(ctx), &after_overloads, ctx, overload_findings(m, i as int), type_is_part);
        }
        let mut k: usize = 0;
        proof {
            lemma_extends_refl(ctx);
        }
        while k < parameters.len()
            invariant
                m.wf(),
                i < m.nodes@.len(),
                m.node_wf(i as int),
                m.node(i as int).kind matches NodeKind::FunctionDef { parameters: ps, .. } && ps@ == parameters@,
                k <= parameters@.len(),
                ctx.knows_rules(),
                extends(ctx, &after_type_is, parameters_findings(m, parameters@, k as int)),
            decreases parameters@.len() - k,
        {
            let ghost before = *ctx;
            check_parameter(ctx, m, i, &parameters[k]);
            proof {
                lemma_extends_trans(&after_type_is, &before, ctx, parameters_findings(m, parameters@, k as int), parameter_findings(m, parameters@[k as int]));
            }
            k += 1;
        }
        proof {
            lemma_extends_trans(old(ctx), &after_type_is, ctx, overload_findings(m, i as int) + type_is_part, parameters_findings(m, parameters@, parameters@.len() as int));
        }
    }
}

/// How many of the first `n` decorators of `ds` refer to `typing.overload`.
pub open spec fn overload_uses(m: &Module, ds: Seq<usize>, n: int) -> nat
    decreases n,
{
    if n <= 0 {
        0
    } else {
        overload_uses(m, ds, n - 1) + if m.type_of(ds[n - 1] as int).kind matches TypeKind::Function { known, .. } && known == KnownFunction::Overload {
            1nat
        } else {
            0nat
        }
    }
}

/// How many decorators of the first `n` overloads refer to `typing.overload`.
pub open spec fn overloads_uses(m: &Module, os: Seq<Overload>, n: int) -> nat
    decreases n,
{
    if n <= 0 {
        0
    } else {
        overloads_uses(m, os, n - 1) + overload_uses(m, os[n - 1].decorators@, os[n - 1].decorators@.len() as int)
    }
}

proof fn lemma_decorator_findings_count(m: &Module, ds: Seq<usize>, n: int)
    ensures
        decorator_findings(m, ds, n).len() == overload_uses(m, ds, n),
        forall|k: int| 0 <= k < decorator_findings(m, ds, n).len() ==> (#[trigger] decorator_findings(m, ds, n)[k]).rule == (RuleId { index: TYPING_OVERLOAD_USED }),
    decreases n,
{
    if n > 0 {
        lemma_decorator_findings_count(m, ds, n - 1);
        let prev = decorator_findings(m, ds, n - 1);
        let all = decorator_findings(m, ds, n);
        assert forall|k: int| 0 <= k < all.len() implies (#[trigger] all[k]).rule == (RuleId { index: TYPING_OVERLOAD_USED }) by {
            if k < prev.len() {
                assert(all[k] == prev[k]);
            }
        }
    }
}

/// Every use of the `@overload` decorator on the overloads of a function with
/// an implementation yields exactly one `typing-overload-used` finding, and a
/// function without an implementation yields none.
pub proof fn lemma_one_finding_per_overload_use(m: &Module, os: Seq<Overload>, n: int)
    ensures
        overloads_decorator_findings(m, os, n).len() == overloads_uses(m, os, n),
        forall|k: int| 0 <= k < overloads_decorator_findings(m, os, n).len() ==> (#[trigger] overloads_decorator_findings(m, os, n)[k]).rule
            == (RuleId { index: TYPING_OVERLOAD_USED }),
    decreases n,
{
    if n > 0 {
        lemma_one_finding_per_overload_use(m, os, n - 1);
        let ds = os[n - 1].decorators@;
        lemma_decorator_findings_count(m, ds, ds.len() as int);
        let prev = overloads_decorator_findings(m, os, n - 1);
        let last = decorator_findings(m, ds, ds.len() as int);
        let all = overloads_decorator_findings(m, os, n);
        assert forall|k: int| 0 <= k < all.len() implies (#[trigger] all[k]).rule == (RuleId { index: TYPING_OVERLOAD_USED }) by {
            if k < prev.len() {
                assert(all[k] == prev[k]);
            } else {
                assert(all[k] == last[k - prev.len()]);
            }
        }
    }
}

/// The overload decorators are checked only when the function has an
/// implementation.
pub proof fn lemma_no_overload_use_without_implementation(m: &Module, i: int)
    requires
        m.type_of(i).kind matches TypeKind::Function { implementation, .. } && implementation is None,
    ensures
        forall|k: int| 0 <= k < overload_findings(m, i).len() ==> (#[trigger] overload_findings(m, i)[k]).rule
            != (RuleId { index: TYPING_OVERLOAD_USED }),
{
    match m.type_of(i).kind {
        TypeKind::Function { overloads, overload_return_union, .. } => {
            let rs = returns_from(m, i + 1, m.node(i).end as int);
            lemma_returns_findings_rule(m, overload_return_union, overloads@, rs, rs.len() as int);
            let checked = if overloads@.len() == 0 || has_unknown_return(m, overloads@) {
                Seq::<Finding>::empty()
            } else {
                returns_findings(m, overload_return_union, overloads@, rs, rs.len() as int)
            };
            assert(overload_findings(m, i) =~= Seq::<Finding>::empty() + checked);
        },
        _ => {},
    }
}

} // verus!
