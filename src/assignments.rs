//! Checks on plain assignments: writes through `globals()`, and replacing a
//! function's `__defaults__` or `__code__`.
use vstd::prelude::*;
use vstd::string::*;

use crate::annotations::plain;
use crate::context::{extends, lemma_extends_refl, lemma_extends_trans, lemma_skip_all_disabled, lemma_skip_disabled, Context};
use crate::diagnostic::Finding;
use crate::expressions::{find_member, first_member, is_globals, is_globals_call};
use crate::rule::RuleId;
use crate::rules::{INVALID_FUNCTION_DEFAULTS, MUTATING_FUNCTION_CODE_ATTRIBUTE, MUTATING_GLOBALS_DICT};
use crate::syntax::{Member, Module, NodeKind, Signature, TypeKind};
use crate::text::{owned, str_eq};

verus! {

pub open spec fn globals_message() -> Seq<char> {
    "Mutating the `globals()` dictionary may lead to runtime type errors."@
}

pub open spec fn code_message() -> Seq<char> {
    "Mutating `__code__` attribute on a function may lead to runtime type errors."@
}

pub open spec fn defaults_message(shown: Seq<char>) -> Seq<char> {
    "Setting `__defaults__` to an object of type `"@ + shown + "` on a function may lead to runtime type errors."@
}

/// A write `globals()["name"] = value` to target `t`, with `scope` the symbols
/// visible at the statement, is flagged when `name` is a symbol whose type,
/// with literals widened, does not admit the value's type.
pub open spec fn globals_findings(m: &Module, scope: Seq<Member>, t: int) -> Seq<Finding> {
    match m.node(t).kind {
        NodeKind::Subscript { value, slice } => if is_globals(m, value as int) {
            match m.node(slice as int).kind {
                NodeKind::StringLiteral { value: key } => match first_member(scope, key@) {
                    Some(ct) => if !m.assignable(m.node(t).ty as int, m.types@[ct as int].promoted as int) {
                        seq![plain(MUTATING_GLOBALS_DICT, m.node(t).range, globals_message())]
                    } else {
                        Seq::empty()
                    },
                    None => Seq::empty(),
                },
                _ => Seq::empty(),
            }
        } else {
            Seq::empty()
        },
        _ => Seq::empty(),
    }
}

/// How many entries of `s` are present.
pub open spec fn count_present(s: Seq<Option<usize>>) -> nat
    decreases s.len(),
{
    if s.len() == 0 {
        0
    } else {
        count_present(s.drop_last()) + if s.last() is Some { 1nat } else { 0nat }
    }
}

/// Whether some element of the new defaults tuple `es`, aligned with the
/// trailing parameters as Python aligns `__defaults__`, is not assignable,
/// with literals widened, to that parameter's annotation.
pub open spec fn defaults_mismatch(m: &Module, es: Seq<usize>, annotated: Seq<Option<usize>>) -> bool {
    exists|k: int| 0 <= k < es.len() && #[trigger] element_mismatch(m, es, annotated, k)
}

/// Whether element `k` of the new defaults `es` does not fit the parameter it
/// replaces the default of.
pub open spec fn element_mismatch(m: &Module, es: Seq<usize>, annotated: Seq<Option<usize>>, k: int) -> bool {
    let p = annotated.len() - es.len() + k;
    0 <= p < annotated.len() && match annotated[p] {
        Some(a) => !m.assignable(m.types@[es[k] as int].promoted as int, a as int),
        None => false,
    }
}

/// What assigning to `fn.__defaults__` (target `t`) yields for a function
/// with implementation `sig`: `None` over existing defaults, a tuple with
/// fewer elements than there are defaults, or an element whose type does not
/// fit its parameter is flagged.
pub open spec fn defaults_findings(m: &Module, t: int, sig: Signature) -> Seq<Finding> {
    let tt = m.node(t).ty as int;
    let count = count_present(sig.default_types@);
    let f = seq![plain(INVALID_FUNCTION_DEFAULTS, m.node(t).range, defaults_message(m.types@[tt].display@))];
    let none_part = if m.types@[tt].kind is NoneType && count > 0 { f } else { Seq::empty() };
    let tuple_part = match m.types@[tt].tuple_elements {
        Some(es) => if es@.len() < count || defaults_mismatch(m, es@, sig.annotated_types@) { f } else { Seq::empty() },
        None => Seq::empty(),
    };
    none_part + tuple_part
}

/// What one assignment target yields.
pub open spec fn target_findings(m: &Module, scope: Seq<Member>, t: int) -> Seq<Finding> {
    match m.node(t).kind {
        NodeKind::Subscript { .. } => globals_findings(m, scope, t),
        NodeKind::Attribute { value, attr } => match m.type_of(value as int).kind {
            TypeKind::Function { implementation, .. } => if attr@ == "__defaults__"@ {
                match implementation {
                    Some(sig) => defaults_findings(m, t, sig),
                    None => Seq::empty(),
                }
            } else if attr@ == "__code__"@ {
                seq![plain(MUTATING_FUNCTION_CODE_ATTRIBUTE, m.node(t).range, code_message())]
            } else {
                Seq::empty()
            },
            _ => Seq::empty(),
        },
        _ => Seq::empty(),
    }
}

/// The findings of the first `n` targets.
pub open spec fn targets_findings(m: &Module, scope: Seq<Member>, ts: Seq<usize>, n: int) -> Seq<Finding>
    decreases n,
{
    if n <= 0 {
        Seq::empty()
    } else {
        targets_findings(m, scope, ts, n - 1) + target_findings(m, scope, ts[n - 1] as int)
    }
}

/// What an assignment statement yields: each target, in order.
pub open spec fn assignment_findings(m: &Module, i: int) -> Seq<Finding> {
    match m.node(i).kind {
        NodeKind::Assign { targets, scope } => targets_findings(m, scope@, targets@, targets@.len() as int),
        _ => Seq::empty(),
    }
}

fn count_defaults(s: &Vec<Option<usize>>) -> (r: usize)
    ensures
        r == count_present(s@),
{
    let mut c: usize = 0;
    let mut k: usize = 0;
    while k < s.len()
        invariant
            k <= s@.len(),
            c == count_present(s@.subrange(0, k as int)),
            c <= k,
        decreases s@.len() - k,
    {
        assert(s@.subrange(0, k + 1).drop_last() =~= s@.subrange(0, k as int));
        if s[k].is_some() {
            c += 1;
        }
        k += 1;
    }
    assert(s@.subrange(0, s@.len() as int) =~= s@);
    c
}

fn has_defaults_mismatch(m: &Module, es: &Vec<usize>, annotated: &Vec<Option<usize>>) -> (r: bool)
    requires
        m.wf(),
        forall|k: int| 0 <= k < es@.len() ==> m.valid_type(#[trigger] es@[k] as int),
    ensures
        r == defaults_mismatch(m, es@, annotated@),
{
    let mut k: usize = 0;
    while k < es.len()
        invariant
            m.wf(),
            k <= es@.len(),
            forall|q: int| 0 <= q < es@.len() ==> m.valid_type(#[trigger] es@[q] as int),
            forall|q: int| 0 <= q < k ==> !#[trigger] element_mismatch(m, es@, annotated@, q),
        decreases es@.len() - k,
    {
        if es.len() - k <= annotated.len() {
            let p = annotated.len() - (es.len() - k);
            if p < annotated.len() {
                if let Some(a) = annotated[p] {
                    assert(m.type_wf(es@[k as int] as int));
                    let promoted = m.types[es[k]].promoted;
                    if !m.is_assignable_to(promoted, a) {
                        assert(element_mismatch(m, es@, annotated@, k as int));
                        return true;
                    }
                }
            }
        }
        k += 1;
    }
    false
}

fn check_defaults(ctx: &mut Context, m: &Module, t: usize, sig: &Signature)
    requires
        m.wf(),
        t < m.nodes@.len(),
        old(ctx).knows_rules(),
    ensures
        extends(final(ctx), old(ctx), defaults_findings(m, t as int, *sig)),
{
    assert(m.node_wf(t as int));
    let tt = m.nodes[t].ty;
    assert(m.type_wf(tt as int));
    let count = count_defaults(&sig.default_types);
    let is_none = match m.types[tt].kind {
        TypeKind::NoneType => true,
        _ => false,
    };
    let ghost f = seq![plain(INVALID_FUNCTION_DEFAULTS, m.node(t as int).range, defaults_message(m.types@[tt as int].display@))];
    if !ctx.is_enabled(RuleId { index: INVALID_FUNCTION_DEFAULTS }) {
        proof {
            let fs = defaults_findings(m, t as int, *sig);
            assert forall|k: int| 0 <= k < fs.len() implies (#[trigger] fs[k]).rule == RuleId { index: INVALID_FUNCTION_DEFAULTS } by {
                let none_part = if m.types@[tt as int].kind is NoneType && count > 0 { f } else { Seq::empty() };
                if k < none_part.len() {
                    assert(fs[k] == none_part[k]);
                } else {
                    assert(fs[k] == f[0]);
                }
            }
            lemma_skip_all_disabled(ctx, fs);
        }
        return;
    }
    proof {
        lemma_extends_refl(ctx);
    }
    if is_none && count > 0 {
        let message = owned("Setting `__defaults__` to an object of type `").concat(m.types[tt].display.as_str()).concat(
            "` on a function may lead to runtime type errors.",
        );
        ctx.report(RuleId { index: INVALID_FUNCTION_DEFAULTS }, m.nodes[t].range, message, Vec::new());
        assert(Seq::<String>::empty().map_values(|s: String| s@) =~= Seq::<Seq<char>>::empty());
    }
    let ghost middle = *ctx;
    let ghost none_part = if m.types@[tt as int].kind is NoneType && count > 0 { f } else { Seq::empty() };
    let flag_tuple = match &m.types[tt].tuple_elements {
        Some(es) => es.len() < count || has_defaults_mismatch(m, es, &sig.annotated_types),
        None => false,
    };
    if flag_tuple {
        let message = owned("Setting `__defaults__` to an object of type `").concat(m.types[tt].display.as_str()).concat(
            "` on a function may lead to runtime type errors.",
        );
        ctx.report(RuleId { index: INVALID_FUNCTION_DEFAULTS }, m.nodes[t].range, message, Vec::new());
        assert(Seq::<String>::empty().map_values(|s: String| s@) =~= Seq::<Seq<char>>::empty());
    } else {
        proof {
            lemma_extends_refl(ctx);
        }
    }
    proof {
        let tuple_part = if flag_tuple { f } else { Seq::empty() };
        lemma_extends_trans(old(ctx), &middle, ctx, none_part, tuple_part);
    }
}

fn check_target(ctx: &mut Context, m: &Module, scope: &Vec<Member>, t: usize)
    requires
        m.wf(),
        t < m.nodes@.len(),
        forall|k: int| 0 <= k < scope@.len() ==> m.valid_type((#[trigger] scope@[k]).ty as int),
        old(ctx).knows_rules(),
    ensures
        extends(final(ctx), old(ctx), target_findings(m, scope@, t as int)),
{
    assert(m.node_wf(t as int));
    proof {
        lemma_extends_refl(ctx);
    }
    match &m.nodes[t].kind {
        NodeKind::Subscript { value, slice } => {
            if !is_globals_call(m, *value) {
                return;
            }
            assert(m.node_wf(*slice as int));
            let key = match &m.nodes[*slice].kind {
                NodeKind::StringLiteral { value: key } => key.as_str(),
                _ => {
                    return;
                },
            };
            let current = match find_member(scope, key) {
                Some(ct) => ct,
                None => {
                    return;
                },
            };
            assert(m.type_wf(current as int));
            let promoted = m.types[current].promoted;
            let fits = m.is_assignable_to(m.nodes[t].ty, promoted);
            if !fits && !ctx.is_enabled(RuleId { index: MUTATING_GLOBALS_DICT }) {
                proof {
                    lemma_skip_disabled(ctx, plain(MUTATING_GLOBALS_DICT, m.node(t as int).range, globals_message()));
                }
            } else if !fits {
                let message = owned("Mutating the `globals()` dictionary may lead to runtime type errors.");
                ctx.report(RuleId { index: MUTATING_GLOBALS_DICT }, m.nodes[t].range, message, Vec::new());
                assert(Seq::<String>::empty().map_values(|s: String| s@) =~= Seq::<Seq<char>>::empty());
            }
        },
        NodeKind::Attribute { value, attr } => {
            assert(m.node_wf(*value as int));
            let vt = m.nodes[*value].ty;
            if let TypeKind::Function { implementation, .. } = &m.types[vt].kind {
                if str_eq(attr.as_str(), "__defaults__") {
                    if let Some(sig) = implementation {
                        check_defaults(ctx, m, t, sig);
                    }
                } else if str_eq(attr.as_str(), "__code__") {
                    if ctx.is_enabled(RuleId { index: MUTATING_FUNCTION_CODE_ATTRIBUTE }) {
                        let message = owned("Mutating `__code__` attribute on a function may lead to runtime type errors.");
                        ctx.report(RuleId { index: MUTATING_FUNCTION_CODE_ATTRIBUTE }, m.nodes[t].range, message, Vec::new());
                        assert(Seq::<String>::empty().map_values(|s: String| s@) =~= Seq::<Seq<char>>::empty());
                    } else {
                        proof {
                            lemma_skip_disabled(ctx, plain(MUTATING_FUNCTION_CODE_ATTRIBUTE, m.node(t as int).range, code_message()));
                        }
                    }
                }
            }
        },
        _ => {},
    }
}

/// Reports what assignment statement `i` yields.
pub fn check_assignment(ctx: &mut Context, m: &Module, i: usize)
    requires
        m.wf(),
        i < m.nodes@.len(),
        old(ctx).knows_rules(),
    ensures
        extends(final(ctx), old(ctx), assignment_findings(m, i as int)),
{
    assert(m.node_wf(i as int));
    proof {
        lemma_extends_refl(ctx);
    }
    if let NodeKind::Assign { targets, scope } = &m.nodes[i].kind {
        let mut k: usize = 0;
        while k < targets.len()
            invariant
                m.wf(),
                i < m.nodes@.len(),
                m.node_wf(i as int),
                m.node(i as int).kind matches NodeKind::Assign { targets: ts, scope: sc } && ts@ == targets@ && sc@ == scope@,
                k <= targets@.len(),
                ctx.knows_rules(),
                extends(ctx, old(ctx), targets_findings(m, scope@, targets@, k as int)),
            decreases targets@.len() - k,
        {
            let ghost before = *ctx;
            check_target(ctx, m, scope, targets[k]);
            proof {
                lemma_extends_trans(old(ctx), &before, ctx, targets_findings(m, scope@, targets@, k as int), target_findings(m, scope@, targets@[k as int] as int));
            }
            k += 1;
        }
    }
}

} // verus!
