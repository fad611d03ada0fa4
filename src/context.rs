//! The per-file diagnostic sink and its guarded emission path.
use vstd::prelude::*;
use vstd::string::*;

use crate::diagnostic::{
    provenance_text, Annotation, Diagnostic, DiagnosticTag, DiagnosticView, Finding, TextRange,
};
use crate::rule::{RuleId, RuleRegistry, Severity};
use crate::selection::{RuleSelection, RuleSource};
use crate::text::owned;

verus! {

/// The diagnostic that a finding becomes under a selection, if its rule is enabled.
pub open spec fn emitted(reg: &RuleRegistry, sel: &RuleSelection, file: usize, f: Finding) -> Option<DiagnosticView> {
    match sel.spec_get(f.rule) {
        Some((severity, source)) => {
            let name = reg.arena()[f.rule.index as int].name@;
            Some(
                DiagnosticView {
                    rule: f.rule,
                    name,
                    severity,
                    message: f.message,
                    file,
                    range: f.range,
                    primary_message: None,
                    infos: f.infos,
                    provenance: provenance_text(name, source),
                },
            )
        },
        None => None,
    }
}

/// The diagnostics that a sequence of findings becomes, in order; findings of
/// disabled rules are dropped.
pub open spec fn emitted_all(reg: &RuleRegistry, sel: &RuleSelection, file: usize, fs: Seq<Finding>) -> Seq<DiagnosticView>
    decreases fs.len(),
{
    if fs.len() == 0 {
        Seq::empty()
    } else {
        let prev = emitted_all(reg, sel, file, fs.drop_last());
        match emitted(reg, sel, file, fs.last()) {
            Some(d) => prev.push(d),
            None => prev,
        }
    }
}

/// A single finding is emitted alone, or not at all.
pub proof fn lemma_emitted_single(reg: &RuleRegistry, sel: &RuleSelection, file: usize, f: Finding)
    ensures
        emitted_all(reg, sel, file, seq![f]) == match emitted(reg, sel, file, f) {
            Some(d) => seq![d],
            None => Seq::<DiagnosticView>::empty(),
        },
{
    assert(seq![f].drop_last() =~= Seq::<Finding>::empty());
    assert(seq![f].last() == f);
    reveal_with_fuel(emitted_all, 2);
    match emitted(reg, sel, file, f) {
        Some(d) => {
            assert(Seq::<DiagnosticView>::empty().push(d) =~= seq![d]);
        },
        None => {},
    }
}

/// Emitting a concatenation emits each part in turn.
pub proof fn lemma_emitted_concat(reg: &RuleRegistry, sel: &RuleSelection, file: usize, a: Seq<Finding>, b: Seq<Finding>)
    ensures
        emitted_all(reg, sel, file, a + b) == emitted_all(reg, sel, file, a) + emitted_all(reg, sel, file, b),
    decreases b.len(),
{
    if b.len() == 0 {
        assert(a + b =~= a);
        assert(emitted_all(reg, sel, file, a) + emitted_all(reg, sel, file, b) =~= emitted_all(reg, sel, file, a));
    } else {
        assert((a + b).drop_last() =~= a + b.drop_last());
        assert((a + b).last() == b.last());
        lemma_emitted_concat(reg, sel, file, a, b.drop_last());
        match emitted(reg, sel, file, b.last()) {
            Some(d) => {
                assert(emitted_all(reg, sel, file, a) + emitted_all(reg, sel, file, b.drop_last()).push(d) =~= (emitted_all(reg, sel, file, a) + emitted_all(reg, sel, file, b.drop_last())).push(d));
            },
            None => {},
        }
    }
}

/// `new` is `old` after the findings `fs` were reported.
pub open spec fn extends(new: &Context, old: &Context, fs: Seq<Finding>) -> bool {
    &&& new.current_file() == old.current_file()
    &&& new.registry() == old.registry()
    &&& new.selection() == old.selection()
    &&& new.diagnostics() == old.diagnostics() + emitted_all(old.registry(), old.selection(), old.current_file(), fs)
}

/// Reporting nothing changes nothing.
pub proof fn lemma_extends_refl(c: &Context)
    ensures
        extends(c, c, Seq::empty()),
{
    assert(c.diagnostics() + emitted_all(c.registry(), c.selection(), c.current_file(), Seq::empty()) =~= c.diagnostics());
}

/// Reports in sequence add up.
pub proof fn lemma_extends_trans(a: &Context, b: &Context, c: &Context, f: Seq<Finding>, g: Seq<Finding>)
    requires
        extends(b, a, f),
        extends(c, b, g),
    ensures
        extends(c, a, f + g),
{
    lemma_emitted_concat(a.registry(), a.selection(), a.current_file(), f, g);
    assert(c.diagnostics() =~= a.diagnostics() + emitted_all(a.registry(), a.selection(), a.current_file(), f + g));
}

/// A finding of a disabled rule is not reported.
pub proof fn lemma_skip_disabled(c: &Context, f: Finding)
    requires
        c.selection().spec_get(f.rule) is None,
    ensures
        extends(c, c, seq![f]),
{
    lemma_emitted_single(c.registry(), c.selection(), c.current_file(), f);
    assert(c.diagnostics() + Seq::<DiagnosticView>::empty() =~= c.diagnostics());
}

/// Findings whose rules are all disabled are not reported.
pub proof fn lemma_skip_all_disabled(c: &Context, fs: Seq<Finding>)
    requires
        forall|k: int| 0 <= k < fs.len() ==> c.selection().spec_get((#[trigger] fs[k]).rule) is None,
    ensures
        extends(c, c, fs),
    decreases fs.len(),
{
    if fs.len() == 0 {
        lemma_extends_refl(c);
    } else {
        lemma_skip_all_disabled(c, fs.drop_last());
        assert(fs.last() == fs[fs.len() - 1]);
        assert(emitted(c.registry(), c.selection(), c.current_file(), fs.last()) is None);
    }
}

/// Collects the diagnostics of one file.
pub struct Context<'a> {
    file: usize,
    registry: &'a RuleRegistry,
    selection: &'a RuleSelection,
    diagnostics: Vec<Diagnostic>,
}

/// The first phase of a report: the rule is enabled, and its severity and
/// provenance are known. No diagnostic exists yet.
pub struct LintDiagnosticGuardBuilder {
    pub rule: RuleId,
    pub name: String,
    pub severity: Severity,
    pub source: RuleSource,
    pub file: usize,
    pub range: TextRange,
}

/// A diagnostic under construction. It reaches the context through `emit`,
/// which adds the provenance line; a guard is moved there and cannot be
/// emitted twice.
pub struct LintDiagnosticGuard {
    diag: Diagnostic,
    source: RuleSource,
}

impl<'a> Context<'a> {
    pub closed spec fn current_file(&self) -> usize {
        self.file
    }

    pub closed spec fn registry(&self) -> &'a RuleRegistry {
        self.registry
    }

    pub closed spec fn selection(&self) -> &'a RuleSelection {
        self.selection
    }

    /// Whether the registry holds every rule of the default registry, so that
    /// the checks can report under their fixed ids.
    pub open spec fn knows_rules(&self) -> bool {
        self.registry().arena().len() >= crate::rules::RULE_COUNT
    }

    /// The diagnostics collected so far.
    pub closed spec fn diagnostics(&self) -> Seq<DiagnosticView> {
        self.diagnostics@.map_values(|d: Diagnostic| d@)
    }

    /// An empty context for `file`, reporting under `selection`.
    pub fn new(file: usize, registry: &'a RuleRegistry, selection: &'a RuleSelection) -> (r: Context<'a>)
        ensures
            r.current_file() == file,
            r.registry() == registry,
            r.selection() == selection,
            r.diagnostics() == Seq::<DiagnosticView>::empty(),
    {
        let r = Context { file, registry, selection, diagnostics: Vec::new() };
        assert(r.diagnostics() =~= Seq::<DiagnosticView>::empty());
        r
    }

    pub fn rule_selection(&self) -> (r: &'a RuleSelection)
        ensures
            r == self.selection(),
    {
        self.selection
    }

    pub fn file(&self) -> (r: usize)
        ensures
            r == self.current_file(),
    {
        self.file
    }

    /// Whether `rule` is enabled: the one lookup a check makes before it
    /// spends anything on a message.
    pub fn is_enabled(&self, rule: RuleId) -> (r: bool)
        ensures
            r == self.selection().spec_get(rule) is Some,
    {
        self.selection.is_enabled(rule)
    }

    /// Starts a report of `rule` at `range`. `None` when the rule is disabled:
    /// the caller then builds nothing.
    pub fn report_lint(&self, rule: RuleId, range: TextRange) -> (r: Option<LintDiagnosticGuardBuilder>)
        requires
            self.registry().contains_id(rule),
        ensures
            match self.selection().spec_get(rule) {
                Some((severity, source)) => r matches Some(b) && b.rule == rule && b.severity == severity
                    && b.source == source && b.file == self.current_file() && b.range == range
                    && b.name@ == self.registry().arena()[rule.index as int].name@,
                None => r is None,
            },
    {
        match self.selection.get(rule) {
            Some((severity, source)) => {
                let name = self.registry.metadata(rule).name.clone();
                Some(LintDiagnosticGuardBuilder { rule, name, severity, source, file: self.file, range })
            },
            None => None,
        }
    }

    /// Reports a finding as one inseparable step: the diagnostic is built and
    /// emitted, with its provenance, exactly when the rule is enabled.
    pub fn report(&mut self, rule: RuleId, range: TextRange, message: String, infos: Vec<String>)
        requires
            old(self).registry().contains_id(rule),
        ensures
            final(self).current_file() == old(self).current_file(),
            final(self).registry() == old(self).registry(),
            final(self).selection() == old(self).selection(),
            final(self).diagnostics() == old(self).diagnostics() + emitted_all(
                old(self).registry(),
                old(self).selection(),
                old(self).current_file(),
                seq![Finding { rule, range, message: message@, infos: infos@.map_values(|s: String| s@) }],
            ),
    {
        let ghost f = Finding { rule, range, message: message@, infos: infos@.map_values(|s: String| s@) };
        assert(seq![f].drop_last() =~= Seq::<Finding>::empty());
        match self.report_lint(rule, range) {
            Some(builder) => {
                let mut guard = builder.into_diagnostic(message);
                let mut i: usize = 0;
                while i < infos.len()
                    invariant
                        i <= infos@.len(),
                        old(self).registry().contains_id(rule),
                        guard.view().infos == infos@.subrange(0, i as int).map_values(|s: String| s@),
                        guard.view().message == message@,
                        guard.view().rule == rule,
                        guard.view().range == range,
                        guard.view().file == old(self).current_file(),
                        guard.view().primary_message is None,
                        guard.view().name == old(self).registry().arena()[rule.index as int].name@,
                        old(self).selection().spec_get(rule) == Some((guard.view().severity, guard.source())),
                    decreases infos@.len() - i,
                {
                    guard.info(infos[i].clone());
                    assert(infos@.subrange(0, i + 1).map_values(|s: String| s@) =~= infos@.subrange(0, i as int).map_values(|s: String| s@).push(infos@[i as int]@));
                    i += 1;
                }
                assert(infos@.subrange(0, infos@.len() as int) =~= infos@);
                let ghost gv = guard.view();
                let ghost src = guard.source();
                guard.emit(self);
                proof {
                    let d = DiagnosticView { provenance: provenance_text(gv.name, src), ..gv };
                    assert(emitted(old(self).registry(), old(self).selection(), old(self).current_file(), f) == Some(d));
                    lemma_emitted_single(old(self).registry(), old(self).selection(), old(self).current_file(), f);
                    assert(old(self).diagnostics().push(d) =~= old(self).diagnostics() + seq![d]);
                }
            },
            None => {
                proof {
                    lemma_emitted_single(old(self).registry(), old(self).selection(), old(self).current_file(), f);
                }
                assert(self.diagnostics() + Seq::<DiagnosticView>::empty() =~= self.diagnostics());
            },
        }
    }

    /// The collected diagnostics, in the order they were emitted.
    pub fn into_diagnostics(self) -> (r: Vec<Diagnostic>)
        ensures
            r@.map_values(|d: Diagnostic| d@) == self.diagnostics(),
    {
        self.diagnostics
    }
}

impl LintDiagnosticGuardBuilder {
    /// Creates the diagnostic, with a primary annotation at the reported range
    /// that carries no message of its own.
    pub fn into_diagnostic(self, message: String) -> (r: LintDiagnosticGuard)
        ensures
            r.view().rule == self.rule,
            r.view().name == self.name@,
            r.view().severity == self.severity,
            r.source() == self.source,
            r.view().message == message@,
            r.view().file == self.file,
            r.view().range == self.range,
            r.view().primary_message is None,
            r.view().infos == Seq::<Seq<char>>::empty(),
    {
        let diag = Diagnostic {
            rule: self.rule,
            name: self.name,
            severity: self.severity,
            message,
            primary: Annotation { file: self.file, range: self.range, message: None, tags: Vec::new() },
            infos: Vec::new(),
            provenance: String::new(),
        };
        let r = LintDiagnosticGuard { diag, source: self.source };
        assert(r.view().infos =~= Seq::<Seq<char>>::empty());
        r
    }
}

impl LintDiagnosticGuard {
    /// The diagnostic as it stands.
    pub open spec fn view(&self) -> DiagnosticView {
        self.spec_diag()@
    }

    pub closed spec fn spec_diag(&self) -> Diagnostic {
        self.diag
    }

    pub closed spec fn source(&self) -> RuleSource {
        self.source
    }

    /// The diagnostic under construction.
    pub fn diagnostic(&self) -> (r: &Diagnostic)
        ensures
            r@ == self.view(),
    {
        &self.diag
    }

    /// Adds an info line.
    pub fn info(&mut self, message: String)
        ensures
            final(self).view() == (DiagnosticView { infos: old(self).view().infos.push(message@), ..old(self).view() }),
            final(self).source() == old(self).source(),
    {
        let ghost old_infos = self.diag.infos@;
        self.diag.infos.push(message);
        assert(self.diag.infos@.map_values(|s: String| s@) =~= old_infos.map_values(|s: String| s@).push(message@));
    }

    /// Sets the message of the primary annotation.
    pub fn set_primary_message(&mut self, message: String)
        ensures
            final(self).view() == (DiagnosticView { primary_message: Some(message@), ..old(self).view() }),
            final(self).source() == old(self).source(),
    {
        self.diag.primary.message = Some(message);
    }

    /// Adds a tag on the primary annotation.
    pub fn add_primary_tag(&mut self, tag: DiagnosticTag)
        ensures
            final(self).view() == old(self).view(),
            final(self).source() == old(self).source(),
    {
        self.diag.primary.tags.push(tag);
    }

    /// Finishes the diagnostic: adds the line that says which configuration
    /// layer enabled the rule, and appends it to the context.
    pub fn emit(self, ctx: &mut Context)
        ensures
            final(ctx).current_file() == old(ctx).current_file(),
            final(ctx).registry() == old(ctx).registry(),
            final(ctx).selection() == old(ctx).selection(),
            final(ctx).diagnostics() == old(ctx).diagnostics().push(
                DiagnosticView { provenance: provenance_text(self.view().name, self.source()), ..self.view() },
            ),
    {
        let mut diag = self.diag;
        let text = match self.source {
            RuleSource::Default => owned("rule `").concat(diag.name.as_str()).concat("` is enabled by default"),
            RuleSource::Cli => owned("rule `").concat(diag.name.as_str()).concat("` was selected on the command line"),
            RuleSource::File => owned("rule `").concat(diag.name.as_str()).concat("` was selected in the configuration file"),
        };
        diag.provenance = text;
        let ghost old_diags = ctx.diagnostics@;
        ctx.diagnostics.push(diag);
        assert(ctx.diagnostics@.map_values(|d: Diagnostic| d@) =~= old_diags.map_values(|d: Diagnostic| d@).push(diag@));
    }
}

} // verus!
