//! Which rules are active for a run, at which severity, and which configuration
//! layer decided it.
use vstd::prelude::*;
use vstd::string::*;

use rustc_hash::{FxBuildHasher, FxHashMap};

use crate::diagnostic::TextRange;
use crate::rule::{entry_id, GetRuleError, Level, RuleEntry, RuleId, RuleRegistry, Severity};
use crate::text::owned;

verus! {

/// rustc-hash's `FxBuildHasher`, the hasher of `FxHashMap`, carried as an
/// opaque type.
#[verifier::external_type_specification]
#[verifier::external_body]
pub struct ExFxBuildHasher(FxBuildHasher);

/// The configuration layer that decided a rule's severity.
#[derive(Clone, Copy, Debug, PartialEq, Eq, Structural, Default)]
pub enum RuleSource {
    /// The user didn't enable the rule explicitly, instead it's enabled by default.
    #[default]
    Default,
    /// The rule was enabled by using a CLI argument.
    Cli,
    /// The rule was enabled in a configuration file.
    File,
}

/// Relies on `HashMap::insert` (std), here with rustc-hash's `FxBuildHasher`:
/// afterwards the key maps to the new value and the other keys are untouched.
#[verifier::external_body]
fn fx_insert(m: &mut FxHashMap<usize, (Severity, RuleSource)>, k: usize, v: (Severity, RuleSource))
    ensures
        final(m)@ == old(m)@.insert(k, v),
{
    m.insert(k, v);
}

/// Relies on `HashMap::remove` (std), here with rustc-hash's `FxBuildHasher`:
/// afterwards the key is absent and the other keys are untouched.
#[verifier::external_body]
fn fx_remove(m: &mut FxHashMap<usize, (Severity, RuleSource)>, k: usize)
    ensures
        final(m)@ == old(m)@.remove(k),
{
    m.remove(&k);
}

/// Relies on `HashMap::get` (std), here with rustc-hash's `FxBuildHasher`: the
/// value stored under the key, if any.
#[verifier::external_body]
fn fx_get(m: &FxHashMap<usize, (Severity, RuleSource)>, k: usize) -> (r: Option<(Severity, RuleSource)>)
    ensures
        r == (if m@.contains_key(k) { Some(m@[k]) } else { None::<(Severity, RuleSource)> }),
{
    m.get(&k).copied()
}

/// The severity that a registered rule gets by default: its own default level,
/// or `fallback` where that level is `ignore`.
pub open spec fn default_config(reg: &RuleRegistry, id: RuleId, fallback: Option<Severity>) -> Option<(Severity, RuleSource)> {
    if reg.active().contains(id) {
        match reg.arena()[id.index as int].default_level.spec_severity() {
            Some(s) => Some((s, RuleSource::Default)),
            None => match fallback {
                Some(s) => Some((s, RuleSource::Default)),
                None => None,
            },
        }
    } else {
        None
    }
}

/// The mapping from each enabled rule to its severity and provenance. A rule
/// without an entry is disabled.
#[derive(Clone, Debug)]
pub struct RuleSelection {
    rules: FxHashMap<usize, (Severity, RuleSource)>,
}

impl View for RuleSelection {
    type V = Map<usize, (Severity, RuleSource)>;

    closed spec fn view(&self) -> Map<usize, (Severity, RuleSource)> {
        self.rules@
    }
}

/// Where a rule override was written.
#[derive(Clone, Debug)]
pub enum OverrideSource {
    /// A configuration file, with the range of the rule's name in it if known.
    File { path: String, range: Option<TextRange> },
    /// A command-line flag.
    Cli,
}

/// One `(rule name, level)` pair of the configuration, tagged with its origin.
#[derive(Clone, Debug)]
pub struct RuleOverride {
    pub name: String,
    pub level: Level,
    pub source: OverrideSource,
}

/// A warning about an override whose rule name does not resolve.
#[derive(Clone, Debug)]
pub struct ConfigDiagnostic {
    /// The name as written in the override.
    pub rule_name: String,
    /// Why the name did not resolve.
    pub error: GetRuleError,
    pub severity: Severity,
    pub message: String,
    /// The configuration file and the range of the name in it, if known.
    pub file: Option<String>,
    pub range: Option<TextRange>,
}

/// The provenance that an override's origin gives.
pub open spec fn source_of(s: OverrideSource) -> RuleSource {
    match s {
        OverrideSource::File { .. } => RuleSource::File,
        OverrideSource::Cli => RuleSource::Cli,
    }
}

/// The selection after one override: a resolved rule gets the override's
/// severity and provenance, replacing any earlier entry, or loses its entry
/// for `ignore`. An override whose name does not resolve changes nothing.
/// Precedence between sources is not decided here but by `ranked`, which
/// applies all file overrides before all command-line ones.
pub open spec fn applied(reg: &RuleRegistry, sel: Map<usize, (Severity, RuleSource)>, o: RuleOverride) -> Map<usize, (Severity, RuleSource)> {
    match reg.resolve(o.name@) {
        Some(RuleEntry::Rule(id)) => match o.level.spec_severity() {
            Some(s) => sel.insert(id.index, (s, source_of(o.source))),
            None => sel.remove(id.index),
        },
        _ => sel,
    }
}

/// The warning for an override whose name resolved to `error`.
fn warning(o: &RuleOverride, error: GetRuleError) -> (r: ConfigDiagnostic)
    ensures
        r.rule_name@ == o.name@,
        r.severity == Severity::Warning,
        r.message@ == (match error {
            GetRuleError::Removed(_) => "Removed lint rule `"@ + o.name@ + "`"@,
            _ => "Unknown lint rule `"@ + o.name@ + "`"@,
        }),
        match o.source {
            OverrideSource::File { path, range } => r.file matches Some(f) && f@ == path@ && r.range == range,
            OverrideSource::Cli => r.file is None && r.range is None,
        },
{
    let message = match error {
        GetRuleError::Removed(_) => owned("Removed lint rule `").concat(o.name.as_str()).concat("`"),
        _ => owned("Unknown lint rule `").concat(o.name.as_str()).concat("`"),
    };
    let (file, range) = match &o.source {
        OverrideSource::File { path, range } => (Some(path.clone()), *range),
        OverrideSource::Cli => (None, None),
    };
    ConfigDiagnostic { rule_name: o.name.clone(), error, severity: Severity::Warning, message, file, range }
}

/// The overrides of `os` that come from a configuration file, in order.
pub open spec fn from_file(os: Seq<RuleOverride>) -> Seq<RuleOverride>
    decreases os.len(),
{
    if os.len() == 0 {
        Seq::empty()
    } else if os.last().source is File {
        from_file(os.drop_last()).push(os.last())
    } else {
        from_file(os.drop_last())
    }
}

/// The overrides of `os` that come from the command line, in order.
pub open spec fn from_cli(os: Seq<RuleOverride>) -> Seq<RuleOverride>
    decreases os.len(),
{
    if os.len() == 0 {
        Seq::empty()
    } else if os.last().source is Cli {
        from_cli(os.drop_last()).push(os.last())
    } else {
        from_cli(os.drop_last())
    }
}

/// The selection after the overrides `os`: those of configuration files in
/// their order, then those of the command line in their order, so that the
/// command line outranks the file whatever the order in which they came.
pub open spec fn ranked(reg: &RuleRegistry, sel: Map<usize, (Severity, RuleSource)>, os: Seq<RuleOverride>) -> Map<usize, (Severity, RuleSource)> {
    applied_all(reg, applied_all(reg, sel, from_file(os)), from_cli(os))
}

/// The selection after a list of overrides, applied in order.
pub open spec fn applied_all(reg: &RuleRegistry, sel: Map<usize, (Severity, RuleSource)>, os: Seq<RuleOverride>) -> Map<usize, (Severity, RuleSource)>
    decreases os.len(),
{
    if os.len() == 0 {
        sel
    } else {
        applied(reg, applied_all(reg, sel, os.drop_last()), os.last())
    }
}

/// The overrides of a list whose names do not resolve to an active rule, in order.
pub open spec fn unresolved(reg: &RuleRegistry, os: Seq<RuleOverride>) -> Seq<RuleOverride>
    decreases os.len(),
{
    if os.len() == 0 {
        Seq::empty()
    } else if reg.resolve(os.last().name@) matches Some(RuleEntry::Rule(_)) {
        unresolved(reg, os.drop_last())
    } else {
        unresolved(reg, os.drop_last()).push(os.last())
    }
}

/// The warning's text for a name that did not resolve.
pub open spec fn unresolved_message(reg: &RuleRegistry, name: Seq<char>) -> Seq<char> {
    match reg.resolve(name) {
        Some(RuleEntry::Removed(_)) => "Removed lint rule `"@ + name + "`"@,
        _ => "Unknown lint rule `"@ + name + "`"@,
    }
}

/// Whether `d` is the warning for the unresolved override `o`.
pub open spec fn warns_about(reg: &RuleRegistry, d: ConfigDiagnostic, o: RuleOverride) -> bool {
    &&& d.rule_name@ == o.name@
    &&& d.severity == Severity::Warning
    &&& d.message@ == unresolved_message(reg, o.name@)
    &&& match o.source {
        OverrideSource::File { path, range } => d.file matches Some(f) && f@ == path@ && d.range
            == range,
        OverrideSource::Cli => d.file is None && d.range is None,
    }
}

impl RuleSelection {
    /// The entry of `id`, if the rule is enabled.
    pub open spec fn spec_get(&self, id: RuleId) -> Option<(Severity, RuleSource)> {
        if self@.contains_key(id.index) {
            Some(self@[id.index])
        } else {
            None
        }
    }

    /// A selection with every rule disabled.
    pub fn empty() -> (r: RuleSelection)
        ensures
            r@ == Map::<usize, (Severity, RuleSource)>::empty(),
    {
        RuleSelection { rules: FxHashMap::default() }
    }

    /// Every active rule of the registry at its default severity, with
    /// provenance `Default`; rules whose default level is `ignore` get no entry.
    pub fn from_registry(registry: &RuleRegistry) -> (r: RuleSelection)
        requires
            registry.wf(),
        ensures
            forall|id: RuleId| #[trigger] r.spec_get(id) == default_config(registry, id, None),
            forall|id: RuleId|
                registry.active().contains(id) ==> match registry.arena()[id.index as int].default_level {
                    Level::Ignore => r.spec_get(id) is None,
                    Level::Warn => #[trigger] r.spec_get(id) == Some((Severity::Warning, RuleSource::Default)),
                    Level::Error => r.spec_get(id) == Some((Severity::Error, RuleSource::Default)),
                },
    {
        Self::from_registry_with_default(registry, None)
    }

    /// Like `from_registry`, but rules whose default level is `ignore` are
    /// enabled at `default_severity` when it is given.
    pub fn from_registry_with_default(registry: &RuleRegistry, default_severity: Option<Severity>) -> (r: RuleSelection)
        requires
            registry.wf(),
        ensures
            forall|id: RuleId| #[trigger] r.spec_get(id) == default_config(registry, id, default_severity),
    {
        let rules = registry.rules();
        let mut map: FxHashMap<usize, (Severity, RuleSource)> = FxHashMap::default();
        let mut i: usize = 0;
        assert forall|k: int| 0 <= k < rules@.len() implies (#[trigger] rules@[k]).index < registry.arena().len() by {
            lemma_active_in_range(registry, k);
        }
        while i < rules.len()
            invariant
                registry.wf(),
                rules@ == registry.active(),
                i <= rules@.len(),
                forall|k: int| 0 <= k < i ==> {
                    let cfg = default_config(registry, #[trigger] rules@[k], default_severity);
                    cfg == (if map@.contains_key(rules@[k].index) { Some(map@[rules@[k].index]) } else { None })
                },
                forall|key: usize| #[trigger] map@.contains_key(key) ==> exists|k: int| 0 <= k < i && (#[trigger] rules@[k]).index == key,
                forall|k: int| 0 <= k < rules@.len() ==> (#[trigger] rules@[k]).index < registry.arena().len(),
            decreases rules@.len() - i,
        {
            let id = rules[i];
            let level = registry.metadata(id).default_level;
            let sev = match level.severity() {
                Some(s) => Some(s),
                None => default_severity,
            };
            assert(registry.active().contains(id)) by {
                assert(rules@[i as int] == id);
            }
            match sev {
                Some(s) => {
                    fx_insert(&mut map, id.index, (s, RuleSource::Default));
                },
                None => {},
            }
            i += 1;
        }
        proof {
            assert forall|id: RuleId| #[trigger] default_config(registry, id, default_severity) == (if map@.contains_key(id.index) { Some(map@[id.index]) } else { None }) by {
                if registry.active().contains(id) {
                    let k = choose|k: int| 0 <= k < rules@.len() && rules@[k] == id;
                    assert(rules@[k] == id);
                } else if map@.contains_key(id.index) {
                    let k = choose|k: int| 0 <= k < rules@.len() && (#[trigger] rules@[k]).index == id.index;
                    assert(rules@[k] == id);
                    assert(registry.active().contains(id));
                }
            }
        }
        RuleSelection { rules: map }
    }

    /// The severity and provenance of `rule`, or `None` when it is disabled.
    pub fn get(&self, rule: RuleId) -> (r: Option<(Severity, RuleSource)>)
        ensures
            r == self.spec_get(rule),
    {
        fx_get(&self.rules, rule.index)
    }

    /// Whether `rule` is enabled.
    pub fn is_enabled(&self, rule: RuleId) -> (r: bool)
        ensures
            r == self.spec_get(rule) is Some,
    {
        self.get(rule).is_some()
    }

    /// The severity of `rule`, or `None` when it is disabled.
    pub fn severity(&self, rule: RuleId) -> (r: Option<Severity>)
        ensures
            r == (match self.spec_get(rule) {
                Some(e) => Some(e.0),
                None => None::<Severity>,
            }),
    {
        match self.get(rule) {
            Some(e) => Some(e.0),
            None => None,
        }
    }

    /// Enables `rule` with the given severity, replacing any earlier entry.
    pub fn enable(&mut self, rule: RuleId, severity: Severity, source: RuleSource)
        ensures
            final(self)@ == old(self)@.insert(rule.index, (severity, source)),
    {
        fx_insert(&mut self.rules, rule.index, (severity, source));
    }

    /// Disables `rule` if it was enabled.
    pub fn disable(&mut self, rule: RuleId)
        ensures
            final(self)@ == old(self)@.remove(rule.index),
    {
        fx_remove(&mut self.rules, rule.index);
    }

    /// Applies one override as it stands. A name that does not resolve to an
    /// active rule changes nothing and yields a warning that points at the
    /// override. `from_rules_selection` orders the overrides by source so that
    /// the command line outranks the file.
    pub fn apply_override(&mut self, registry: &RuleRegistry, o: &RuleOverride) -> (r: Option<ConfigDiagnostic>)
        requires
            registry.wf(),
        ensures
            final(self)@ == applied(registry, old(self)@, *o),
            match registry.resolve(o.name@) {
                Some(RuleEntry::Rule(_)) => r is None,
                _ => r matches Some(d) && warns_about(registry, d, *o),
            },
    {
        match registry.get(o.name.as_str()) {
            Ok(id) => {
                let source = match o.source {
                    OverrideSource::File { .. } => RuleSource::File,
                    OverrideSource::Cli => RuleSource::Cli,
                };
                match o.level.severity() {
                    Some(s) => self.enable(id, s, source),
                    None => self.disable(id),
                }
                None
            },
            Err(error) => Some(warning(o, error)),
        }
    }

    /// The warning for override `o`, when its name does not resolve to an
    /// active rule; the selection is not consulted or changed.
    pub fn unresolved_warning(registry: &RuleRegistry, o: &RuleOverride) -> (r: Option<ConfigDiagnostic>)
        requires
            registry.wf(),
        ensures
            match registry.resolve(o.name@) {
                Some(RuleEntry::Rule(_)) => r is None,
                _ => r matches Some(d) && warns_about(registry, d, *o),
            },
    {
        match registry.get(o.name.as_str()) {
            Ok(_) => None,
            Err(error) => Some(warning(o, error)),
        }
    }

    /// The selection for a run: the registry's defaults, then the overrides of
    /// configuration files, then those of the command line, each group in its
    /// order with the last applied winning. The command line thus outranks the
    /// file. Overrides whose names do not resolve are skipped, each with a
    /// warning, in the order the overrides were given, and the rest still apply.
    pub fn from_rules_selection(registry: &RuleRegistry, overrides: Option<&Vec<RuleOverride>>) -> (r: (RuleSelection, Vec<ConfigDiagnostic>))
        requires
            registry.wf(),
        ensures
            ({
                let defaults = Map::new(
                    |k: usize| default_config(registry, RuleId { index: k }, None) is Some,
                    |k: usize| default_config(registry, RuleId { index: k }, None)->Some_0,
                );
                match overrides {
                    Some(os) => {
                        &&& r.0@ == ranked(registry, defaults, os@)
                        &&& r.1@.len() == unresolved(registry, os@).len()
                        &&& forall|k: int| 0 <= k < r.1@.len() ==> warns_about(registry, #[trigger] r.1@[k], unresolved(registry, os@)[k])
                    },
                    None => r.0@ == defaults && r.1@.len() == 0,
                }
            }),
    {
        let mut selection = Self::from_registry(registry);
        let ghost defaults = Map::new(
            |k: usize| default_config(registry, RuleId { index: k }, None) is Some,
            |k: usize| default_config(registry, RuleId { index: k }, None)->Some_0,
        );
        proof {
            assert forall|k: usize| #[trigger] selection@.contains_key(k) == defaults.contains_key(k) by {
                assert(selection.spec_get(RuleId { index: k }) == default_config(registry, RuleId { index: k }, None));
            }
            assert forall|k: usize| selection@.contains_key(k) implies #[trigger] selection@[k] == defaults[k] by {
                assert(selection.spec_get(RuleId { index: k }) == default_config(registry, RuleId { index: k }, None));
            }
            assert(selection@ =~= defaults);
        }
        let mut diagnostics: Vec<ConfigDiagnostic> = Vec::new();
        let os = match overrides {
            Some(os) => os,
            None => {
                return (selection, diagnostics);
            },
        };
        let mut i: usize = 0;
        while i < os.len()
            invariant
                registry.wf(),
                i <= os@.len(),
                selection@ == applied_all(registry, defaults, from_file(os@.subrange(0, i as int))),
                diagnostics@.len() == unresolved(registry, os@.subrange(0, i as int)).len(),
                forall|k: int| 0 <= k < diagnostics@.len() ==> warns_about(registry, #[trigger] diagnostics@[k], unresolved(registry, os@.subrange(0, i as int))[k]),
            decreases os@.len() - i,
        {
            let ghost prefix = os@.subrange(0, i + 1);
            assert(prefix.drop_last() =~= os@.subrange(0, i as int));
            assert(prefix.last() == os@[i as int]);
            let ghost before = from_file(os@.subrange(0, i as int));
            proof {
                if os@[i as int].source is File {
                    assert(from_file(prefix) == before.push(os@[i as int]));
                    assert(from_file(prefix).drop_last() =~= before);
                    assert(from_file(prefix).last() == os@[i as int]);
                } else {
                    assert(from_file(prefix) == before);
                }
            }
            let d = match os[i].source {
                OverrideSource::File { .. } => selection.apply_override(registry, &os[i]),
                OverrideSource::Cli => Self::unresolved_warning(registry, &os[i]),
            };
            match d {
                Some(d) => {
                    diagnostics.push(d);
                },
                None => {},
            }
            i += 1;
        }
        assert(os@.subrange(0, os@.len() as int) =~= os@);
        let ghost after_file = selection@;
        let mut j: usize = 0;
        while j < os.len()
            invariant
                registry.wf(),
                j <= os@.len(),
                after_file == applied_all(registry, defaults, from_file(os@)),
                selection@ == applied_all(registry, after_file, from_cli(os@.subrange(0, j as int))),
            decreases os@.len() - j,
        {
            let ghost prefix = os@.subrange(0, j + 1);
            assert(prefix.drop_last() =~= os@.subrange(0, j as int));
            assert(prefix.last() == os@[j as int]);
            let ghost before = from_cli(os@.subrange(0, j as int));
            proof {
                if os@[j as int].source is Cli {
                    assert(from_cli(prefix) == before.push(os@[j as int]));
                    assert(from_cli(prefix).drop_last() =~= before);
                    assert(from_cli(prefix).last() == os@[j as int]);
                } else {
                    assert(from_cli(prefix) == before);
                }
            }
            if let OverrideSource::Cli = os[j].source {
                let _ = selection.apply_override(registry, &os[j]);
            }
            j += 1;
        }
        assert(os@.subrange(0, os@.len() as int) =~= os@);
        (selection, diagnostics)
    }
}

pub proof fn lemma_active_in_range(reg: &RuleRegistry, k: int)
    requires
        0 <= k < reg.active().len(),
    ensures
        reg.active()[k].index < reg.arena().len(),
{
    lemma_active_ids_bounded(reg.arena(), reg.arena().len(), k);
}

proof fn lemma_active_ids_bounded(arena: Seq<crate::rule::RuleMetadata>, n: nat, k: int)
    requires
        0 <= k < crate::rule::active_ids(arena, n).len(),
    ensures
        crate::rule::active_ids(arena, n)[k].index < n,
    decreases n,
{
    if n > 0 {
        let prev = crate::rule::active_ids(arena, (n - 1) as nat);
        if k < prev.len() {
            lemma_active_ids_bounded(arena, (n - 1) as nat, k);
        }
    }
}

/// The command line outranks a configuration file: of two overrides for the
/// same rule, one from each, the command line's decides the rule whatever
/// their order. The rule ends at its severity with provenance `Cli`, or
/// disabled when its level is `ignore`.
pub proof fn lemma_cli_outranks_file(reg: &RuleRegistry, sel: Map<usize, (Severity, RuleSource)>, file: RuleOverride, cli: RuleOverride)
    requires
        file.source is File,
        cli.source is Cli,
        reg.resolve(cli.name@) is Some,
        reg.resolve(cli.name@)->Some_0 is Rule,
    ensures
        ({
            let id = entry_id(reg.resolve(cli.name@)->Some_0);
            let file_first = ranked(reg, sel, seq![file, cli]);
            let cli_first = ranked(reg, sel, seq![cli, file]);
            match cli.level.spec_severity() {
                Some(s) => file_first.contains_key(id.index) && file_first[id.index] == (s, RuleSource::Cli)
                    && cli_first.contains_key(id.index) && cli_first[id.index] == (s, RuleSource::Cli),
                None => !file_first.contains_key(id.index) && !cli_first.contains_key(id.index),
            }
        }),
{
    let a = seq![file, cli];
    let b = seq![cli, file];
    assert(a.drop_last() =~= seq![file]);
    assert(b.drop_last() =~= seq![cli]);
    assert(seq![file].drop_last() =~= Seq::<RuleOverride>::empty());
    assert(seq![cli].drop_last() =~= Seq::<RuleOverride>::empty());
    reveal_with_fuel(from_file, 3);
    reveal_with_fuel(from_cli, 3);
    assert(Seq::<RuleOverride>::empty().push(file) =~= seq![file]);
    assert(Seq::<RuleOverride>::empty().push(cli) =~= seq![cli]);
    assert(from_file(a) =~= seq![file]);
    assert(from_cli(a) =~= seq![cli]);
    assert(from_file(b) =~= seq![file]);
    assert(from_cli(b) =~= seq![cli]);
    assert(seq![cli].last() == cli);
    assert(seq![file].last() == file);
    reveal_with_fuel(applied_all, 2);
}

/// An `ignore` override for a known rule removes it from the enabled set,
/// whatever its entry was before.
pub proof fn lemma_ignore_disables(reg: &RuleRegistry, sel: Map<usize, (Severity, RuleSource)>, o: RuleOverride)
    requires
        o.level == Level::Ignore,
        reg.resolve(o.name@) is Some,
        reg.resolve(o.name@)->Some_0 is Rule,
    ensures
        !applied(reg, sel, o).contains_key(entry_id(reg.resolve(o.name@)->Some_0).index),
{
}

/// Whether override `o` names rule `id`.
pub open spec fn names_rule(reg: &RuleRegistry, o: RuleOverride, id: RuleId) -> bool {
    reg.resolve(o.name@) == Some(RuleEntry::Rule(id))
}

proof fn lemma_all_ignore_applied(reg: &RuleRegistry, base: Map<usize, (Severity, RuleSource)>, cs: Seq<RuleOverride>, id: RuleId)
    requires
        forall|k: int| 0 <= k < cs.len() && names_rule(reg, #[trigger] cs[k], id) ==> cs[k].level == Level::Ignore,
    ensures
        (exists|k: int| 0 <= k < cs.len() && names_rule(reg, #[trigger] cs[k], id)) ==> !applied_all(reg, base, cs).contains_key(id.index),
        !(exists|k: int| 0 <= k < cs.len() && names_rule(reg, #[trigger] cs[k], id)) ==> (applied_all(reg, base, cs).contains_key(id.index)
            == base.contains_key(id.index) && applied_all(reg, base, cs)[id.index] == base[id.index]),
    decreases cs.len(),
{
    if cs.len() > 0 {
        let init = cs.drop_last();
        assert forall|k: int| 0 <= k < init.len() && names_rule(reg, #[trigger] init[k], id) implies init[k].level == Level::Ignore by {
            assert(init[k] == cs[k]);
        }
        lemma_all_ignore_applied(reg, base, init, id);
        let last = cs.last();
        assert(last == cs[cs.len() - 1]);
        if exists|k: int| 0 <= k < cs.len() && names_rule(reg, #[trigger] cs[k], id) {
            if !names_rule(reg, last, id) {
                let k = choose|k: int| 0 <= k < cs.len() && names_rule(reg, #[trigger] cs[k], id);
                assert(k < init.len());
                assert(init[k] == cs[k]);
            }
        } else {
            assert forall|k: int| 0 <= k < init.len() implies !names_rule(reg, #[trigger] init[k], id) by {
                assert(init[k] == cs[k]);
            }
        }
    }
}

proof fn lemma_from_file_elements(os: Seq<RuleOverride>)
    ensures
        forall|k: int| 0 <= k < from_file(os).len() ==> exists|j: int| 0 <= j < os.len() && os[j] == #[trigger] from_file(os)[k],
        forall|j: int| 0 <= j < os.len() && (#[trigger] os[j]).source is File ==> exists|k: int| 0 <= k < from_file(os).len() && from_file(os)[k] == os[j],
    decreases os.len(),
{
    if os.len() > 0 {
        let init = os.drop_last();
        lemma_from_file_elements(init);
        assert forall|k: int| 0 <= k < from_file(os).len() implies exists|j: int| 0 <= j < os.len() && os[j] == #[trigger] from_file(os)[k] by {
            if k < from_file(init).len() {
                let j = choose|j: int| 0 <= j < init.len() && init[j] == from_file(init)[k];
                assert(os[j] == init[j]);
            } else {
                assert(os[os.len() - 1] == from_file(os)[k]);
            }
        }
        assert forall|j: int| 0 <= j < os.len() && (#[trigger] os[j]).source is File implies exists|k: int| 0 <= k < from_file(os).len() && from_file(os)[k] == os[j] by {
            if j < init.len() {
                assert(init[j] == os[j]);
                let k = choose|k: int| 0 <= k < from_file(init).len() && from_file(init)[k] == init[j];
                assert(from_file(os)[k] == os[j]);
            } else {
                assert(from_file(os)[from_file(init).len() as int] == os[j]);
            }
        }
    }
}

proof fn lemma_from_cli_elements(os: Seq<RuleOverride>)
    ensures
        forall|k: int| 0 <= k < from_cli(os).len() ==> exists|j: int| 0 <= j < os.len() && os[j] == #[trigger] from_cli(os)[k],
        forall|j: int| 0 <= j < os.len() && (#[trigger] os[j]).source is Cli ==> exists|k: int| 0 <= k < from_cli(os).len() && from_cli(os)[k] == os[j],
    decreases os.len(),
{
    if os.len() > 0 {
        let init = os.drop_last();
        lemma_from_cli_elements(init);
        assert forall|k: int| 0 <= k < from_cli(os).len() implies exists|j: int| 0 <= j < os.len() && os[j] == #[trigger] from_cli(os)[k] by {
            if k < from_cli(init).len() {
                let j = choose|j: int| 0 <= j < init.len() && init[j] == from_cli(init)[k];
                assert(os[j] == init[j]);
            } else {
                assert(os[os.len() - 1] == from_cli(os)[k]);
            }
        }
        assert forall|j: int| 0 <= j < os.len() && (#[trigger] os[j]).source is Cli implies exists|k: int| 0 <= k < from_cli(os).len() && from_cli(os)[k] == os[j] by {
            if j < init.len() {
                assert(init[j] == os[j]);
                let k = choose|k: int| 0 <= k < from_cli(init).len() && from_cli(init)[k] == init[j];
                assert(from_cli(os)[k] == os[j]);
            } else {
                assert(from_cli(os)[from_cli(init).len() as int] == os[j]);
            }
        }
    }
}

/// A rule that the overrides name only to `ignore` it, at least once and from
/// either source, ends disabled, whatever the order of the overrides and
/// whatever other overrides, resolved or unknown, stand beside them.
pub proof fn lemma_ignored_rule_disabled(reg: &RuleRegistry, sel: Map<usize, (Severity, RuleSource)>, os: Seq<RuleOverride>, id: RuleId)
    requires
        exists|k: int| 0 <= k < os.len() && names_rule(reg, #[trigger] os[k], id),
        forall|k: int| 0 <= k < os.len() && names_rule(reg, #[trigger] os[k], id) ==> os[k].level == Level::Ignore,
    ensures
        !ranked(reg, sel, os).contains_key(id.index),
{
    lemma_from_file_elements(os);
    lemma_from_cli_elements(os);
    let fs = from_file(os);
    let cs = from_cli(os);
    assert forall|k: int| 0 <= k < fs.len() && names_rule(reg, #[trigger] fs[k], id) implies fs[k].level == Level::Ignore by {
        let j = choose|j: int| 0 <= j < os.len() && os[j] == fs[k];
    }
    assert forall|k: int| 0 <= k < cs.len() && names_rule(reg, #[trigger] cs[k], id) implies cs[k].level == Level::Ignore by {
        let j = choose|j: int| 0 <= j < os.len() && os[j] == cs[k];
    }
    lemma_all_ignore_applied(reg, sel, fs, id);
    let mid = applied_all(reg, sel, fs);
    lemma_all_ignore_applied(reg, mid, cs, id);
    let j = choose|j: int| 0 <= j < os.len() && names_rule(reg, #[trigger] os[j], id);
    if os[j].source is File {
        let k = choose|k: int| 0 <= k < fs.len() && fs[k] == os[j];
        assert(names_rule(reg, fs[k], id));
    } else {
        let k = choose|k: int| 0 <= k < cs.len() && cs[k] == os[j];
        assert(names_rule(reg, cs[k], id));
    }
}

/// An override whose name does not resolve to an active rule changes nothing.
pub proof fn lemma_unknown_override_ignored(reg: &RuleRegistry, sel: Map<usize, (Severity, RuleSource)>, o: RuleOverride)
    requires
        !(reg.resolve(o.name@) matches Some(RuleEntry::Rule(_))),
    ensures
        applied(reg, sel, o) == sel,
{
}

} // verus!
