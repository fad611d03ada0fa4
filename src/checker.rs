//! The per-file pipeline: one pass over the nodes in source order, routing
//! each node kind to its checks, then one pass over the comments.
use vstd::prelude::*;
use vstd::string::*;

use crate::annotations::{annotation_findings, check_annotation, plain};
use crate::assignments::{assignment_findings, check_assignment};
use crate::context::{emitted_all, extends, lemma_extends_refl, lemma_extends_trans, lemma_skip_disabled, Context};
use crate::diagnostic::{rendered_all, Diagnostic, DiagnosticView, Finding};
use crate::directives::{directive_in, find_type_checking_directive};
use crate::expressions::{
    attribute_findings, call_findings, check_attribute_expression, check_call_expression, check_if_statement,
    if_findings,
};
use crate::functions::{check_function_definition_statement, function_findings};
use crate::rule::{RuleId, RuleRegistry};
use crate::rules::{RULE_COUNT, TYPE_CHECKING_DIRECTIVE_USED};
use crate::selection::RuleSelection;
use crate::syntax::{Comment, Module, NodeKind};
use crate::text::owned;

verus! {

/// What node `i` yields, by kind.
pub open spec fn node_findings(m: &Module, i: int) -> Seq<Finding> {
    match m.node(i).kind {
        NodeKind::FunctionDef { .. } => function_findings(m, i),
        NodeKind::AnnAssign { annotation } => annotation_findings(m, annotation as int),
        NodeKind::Assign { .. } => assignment_findings(m, i),
        NodeKind::If { .. } => if_findings(m, i),
        NodeKind::Call { .. } => call_findings(m, i),
        NodeKind::Attribute { .. } => attribute_findings(m, i),
        _ => Seq::empty(),
    }
}

/// What the first `n` nodes yield, in source order.
pub open spec fn nodes_findings(m: &Module, n: int) -> Seq<Finding>
    decreases n,
{
    if n <= 0 {
        Seq::empty()
    } else {
        nodes_findings(m, n - 1) + node_findings(m, n - 1)
    }
}

pub open spec fn directive_message(d: Seq<char>) -> Seq<char> {
    "Type checking directive `"@ + d + "` suppresses type checker warnings, which may hide potential type errors."@
}

/// What one comment yields: the directive it holds, if any.
pub open spec fn comment_finding(c: Comment) -> Seq<Finding> {
    match directive_in(c.text@) {
        Some(d) => seq![plain(TYPE_CHECKING_DIRECTIVE_USED, c.range, directive_message(d))],
        None => Seq::empty(),
    }
}

/// What the first `n` comments yield, in order.
pub open spec fn comments_findings(cs: Seq<Comment>, n: int) -> Seq<Finding>
    decreases n,
{
    if n <= 0 {
        Seq::empty()
    } else {
        comments_findings(cs, n - 1) + comment_finding(cs[n - 1])
    }
}

/// Everything a file yields: the tree walk, then the comment pass, which is
/// skipped when the file's text could not be read.
pub open spec fn file_findings(m: &Module) -> Seq<Finding> {
    nodes_findings(m, m.nodes@.len() as int) + match m.comments {
        Some(cs) => comments_findings(cs@, cs@.len() as int),
        None => Seq::empty(),
    }
}

/// The diagnostics of a file under a selection.
pub open spec fn file_diagnostics(file: usize, m: &Module, registry: &RuleRegistry, selection: &RuleSelection) -> Seq<DiagnosticView> {
    emitted_all(registry, selection, file, file_findings(m))
}

/// Routes node `i` to the checks of its kind.
pub fn check_node(ctx: &mut Context, m: &Module, i: usize)
    requires
        m.wf(),
        i < m.nodes@.len(),
        old(ctx).knows_rules(),
    ensures
        extends(final(ctx), old(ctx), node_findings(m, i as int)),
{
    assert(m.node_wf(i as int));
    match &m.nodes[i].kind {
        NodeKind::FunctionDef { .. } => check_function_definition_statement(ctx, m, i),
        NodeKind::AnnAssign { annotation } => check_annotation(ctx, m, *annotation),
        NodeKind::Assign { .. } => check_assignment(ctx, m, i),
        NodeKind::If { .. } => check_if_statement(ctx, m, i),
        NodeKind::Call { .. } => check_call_expression(ctx, m, i),
        NodeKind::Attribute { .. } => check_attribute_expression(ctx, m, i),
        _ => {
            proof {
                lemma_extends_refl(ctx);
            }
        },
    }
}

/// Reports the suppression directive of each comment.
pub fn check_comments(ctx: &mut Context, comments: &Vec<Comment>)
    requires
        old(ctx).knows_rules(),
    ensures
        extends(final(ctx), old(ctx), comments_findings(comments@, comments@.len() as int)),
{
    let mut k: usize = 0;
    proof {
        lemma_extends_refl(ctx);
    }
    while k < comments.len()
        invariant
            k <= comments@.len(),
            ctx.knows_rules(),
            extends(ctx, old(ctx), comments_findings(comments@, k as int)),
        decreases comments@.len() - k,
    {
        let ghost before = *ctx;
        let c = &comments[k];
        match find_type_checking_directive(c.text.as_str()) {
            Some(d) if !ctx.is_enabled(RuleId { index: TYPE_CHECKING_DIRECTIVE_USED }) => {
                proof {
                    lemma_skip_disabled(ctx, plain(TYPE_CHECKING_DIRECTIVE_USED, c.range, directive_message(d@)));
                }
            },
            Some(d) => {
                let message = owned("Type checking directive `").concat(d).concat(
                    "` suppresses type checker warnings, which may hide potential type errors.",
                );
                ctx.report(RuleId { index: TYPE_CHECKING_DIRECTIVE_USED }, c.range, message, Vec::new());
                assert(Seq::<String>::empty().map_values(|s: String| s@) =~= Seq::<Seq<char>>::empty());
            },
            None => {
                proof {
                    lemma_extends_refl(ctx);
                }
            },
        }
        proof {
            lemma_extends_trans(old(ctx), &before, ctx, comments_findings(comments@, k as int), comment_finding(comments@[k as int]));
        }
        k += 1;
    }
}

/// Walks the tree once, in source order, routing every node to its checks.
pub fn check_ast(ctx: &mut Context, m: &Module)
    requires
        m.wf(),
        old(ctx).knows_rules(),
    ensures
        extends(final(ctx), old(ctx), nodes_findings(m, m.nodes@.len() as int)),
{
    proof {
        lemma_extends_refl(ctx);
    }
    let mut i: usize = 0;
    while i < m.nodes.len()
        invariant
            m.wf(),
            i <= m.nodes@.len(),
            ctx.knows_rules(),
            extends(ctx, old(ctx), nodes_findings(m, i as int)),
        decreases m.nodes@.len() - i,
    {
        let ghost before = *ctx;
        check_node(ctx, m, i);
        proof {
            lemma_extends_trans(old(ctx), &before, ctx, nodes_findings(m, i as int), node_findings(m, i as int));
        }
        i += 1;
    }
}

/// Checks one file: every node in source order, then its comments. The
/// result depends on the file and the selection alone.
pub fn check_file(file: usize, m: &Module, registry: &RuleRegistry, selection: &RuleSelection) -> (r: Vec<Diagnostic>)
    requires
        m.wf(),
        registry.arena().len() >= RULE_COUNT,
    ensures
        r@.map_values(|d: Diagnostic| d@) == file_diagnostics(file, m, registry, selection),
{
    let mut ctx = Context::new(file, registry, selection);
    let ghost start = ctx;
    check_ast(&mut ctx, m);
    let ghost after_nodes = ctx;
    match &m.comments {
        Some(cs) => check_comments(&mut ctx, cs),
        None => {
            proof {
                lemma_extends_refl(&ctx);
            }
        },
    }
    proof {
        let tail = if m.comments is Some {
            comments_findings(m.comments->Some_0@, m.comments->Some_0@.len() as int)
        } else {
            Seq::empty()
        };
        lemma_extends_trans(&start, &after_nodes, &ctx, nodes_findings(m, m.nodes@.len() as int), tail);
        assert(start.diagnostics() + file_diagnostics(file, m, registry, selection) =~= file_diagnostics(file, m, registry, selection));
    }
    ctx.into_diagnostics()
}

/// The diagnostics of the first `n` files, file `k` identified by `k`, in
/// file order.
pub open spec fn project_diagnostics(files: Seq<Module>, registry: &RuleRegistry, selection: &RuleSelection, n: int) -> Seq<DiagnosticView>
    decreases n,
{
    if n <= 0 {
        Seq::empty()
    } else {
        project_diagnostics(files, registry, selection, n - 1) + file_diagnostics((n - 1) as usize, &files[n - 1], registry, selection)
    }
}

/// Checks every file independently and concatenates their diagnostics; file
/// `k` is identified by its position `k`.
pub fn check_project(files: &Vec<Module>, registry: &RuleRegistry, selection: &RuleSelection) -> (r: Vec<Diagnostic>)
    requires
        forall|k: int| 0 <= k < files@.len() ==> (#[trigger] files@[k]).wf(),
        registry.arena().len() >= RULE_COUNT,
    ensures
        r@.map_values(|d: Diagnostic| d@) == project_diagnostics(files@, registry, selection, files@.len() as int),
{
    let mut out: Vec<Diagnostic> = Vec::new();
    let mut k: usize = 0;
    while k < files.len()
        invariant
            k <= files@.len(),
            forall|q: int| 0 <= q < files@.len() ==> (#[trigger] files@[q]).wf(),
            registry.arena().len() >= RULE_COUNT,
            out@.map_values(|d: Diagnostic| d@) == project_diagnostics(files@, registry, selection, k as int),
        decreases files@.len() - k,
    {
        let mut ds = check_file(k, &files[k], registry, selection);
        let ghost before = out@;
        let ghost added = ds@;
        out.append(&mut ds);
        assert(out@ =~= before + added);
        assert(out@.map_values(|d: Diagnostic| d@) =~= before.map_values(|d: Diagnostic| d@) + added.map_values(|d: Diagnostic| d@));
        k += 1;
    }
    out
}

/// Checking the same file twice under the same selection yields the same
/// diagnostics in the same order, and so byte-identical rendered output.
pub proof fn lemma_check_file_deterministic(
    file: usize,
    m: &Module,
    registry: &RuleRegistry,
    selection: &RuleSelection,
    path: Seq<char>,
    first: Seq<DiagnosticView>,
    second: Seq<DiagnosticView>,
)
    requires
        first == file_diagnostics(file, m, registry, selection),
        second == file_diagnostics(file, m, registry, selection),
    ensures
        first == second,
        rendered_all(first, path, first.len() as int) == rendered_all(second, path, second.len() as int),
{
}

} // verus!
