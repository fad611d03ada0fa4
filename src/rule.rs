//! The rule catalog: rule metadata, identities and the registry that indexes
//! rules and aliases by name.
use vstd::prelude::*;
use vstd::string::*;

use crate::categories::Category;
use crate::directives::{drop_trailing_whitespace, is_whitespace, spec_is_whitespace};
use crate::text::{owned, str_eq};

verus! {

/// The weight of an enabled rule's findings.
#[derive(Clone, Copy, Debug, PartialEq, Eq, Structural)]
pub enum Severity {
    Warning,
    Error,
}

/// A rule level as written in configuration: `ignore`, `warn` or `error`.
#[derive(Clone, Copy, Debug, PartialEq, Eq, Structural, PartialOrd, Ord, Hash)]
pub enum Level {
    /// The rule is disabled and should not run.
    Ignore,
    /// The rule is enabled and diagnostics have a warning severity.
    Warn,
    /// The rule is enabled and diagnostics have an error severity.
    Error,
}

impl Level {
    pub open spec fn spec_severity(self) -> Option<Severity> {
        match self {
            Level::Ignore => None,
            Level::Warn => Some(Severity::Warning),
            Level::Error => Some(Severity::Error),
        }
    }

    pub open spec fn spec_name(self) -> Seq<char> {
        match self {
            Level::Ignore => "ignore"@,
            Level::Warn => "warn"@,
            Level::Error => "error"@,
        }
    }

    /// The severity that this level gives, `None` for `ignore`.
    pub fn severity(self) -> (r: Option<Severity>)
        ensures
            r == self.spec_severity(),
    {
        match self {
            Level::Ignore => None,
            Level::Warn => Some(Severity::Warning),
            Level::Error => Some(Severity::Error),
        }
    }

    /// The level's configuration keyword.
    pub fn as_str(self) -> (r: &'static str)
        ensures
            r@ == self.spec_name(),
    {
        match self {
            Level::Ignore => "ignore",
            Level::Warn => "warn",
            Level::Error => "error",
        }
    }

    /// Parses a configuration keyword into a level.
    pub fn from_name(s: &str) -> (r: Option<Level>)
        ensures
            r == level_named(s@),
    {
        if str_eq(s, "ignore") {
            Some(Level::Ignore)
        } else if str_eq(s, "warn") {
            Some(Level::Warn)
        } else if str_eq(s, "error") {
            Some(Level::Error)
        } else {
            None
        }
    }
}

/// The level whose keyword is `s`, if any.
pub open spec fn level_named(s: Seq<char>) -> Option<Level> {
    if s == "ignore"@ {
        Some(Level::Ignore)
    } else if s == "warn"@ {
        Some(Level::Warn)
    } else if s == "error"@ {
        Some(Level::Error)
    } else {
        None
    }
}

/// Whether a rule can still be used.
#[derive(Clone, Debug)]
pub enum RuleStatus {
    /// The rule is stable.
    Stable {
        /// The version in which the rule was stabilized.
        since: String,
    },
    /// The rule has been removed and can no longer be used.
    Removed {
        /// The version in which the rule was removed.
        since: String,
        /// The reason why the rule has been removed.
        reason: String,
    },
}

impl RuleStatus {
    /// A stable status since the given version.
    pub fn stable(since: &str) -> (r: RuleStatus)
        ensures
            r is Stable,
            r->Stable_since@ == since@,
    {
        RuleStatus::Stable { since: owned(since) }
    }

    pub fn is_removed(&self) -> (r: bool)
        ensures
            r == self is Removed,
    {
        match self {
            RuleStatus::Removed { .. } => true,
            RuleStatus::Stable { .. } => false,
        }
    }
}

/// The static description of one rule.
#[derive(Clone, Debug)]
pub struct RuleMetadata {
    /// The unique identifier for the rule (kebab-case).
    pub name: String,
    /// A one-sentence summary of what the rule catches.
    pub summary: String,
    /// An in depth explanation of the rule in markdown.
    pub raw_documentation: String,
    /// The default level of the rule if the user doesn't specify one.
    pub default_level: Level,
    pub status: RuleStatus,
    /// Categories of unsoundness that this rule detects.
    pub categories: Vec<Category>,
}

impl RuleMetadata {
    pub fn name(&self) -> (r: &str)
        ensures
            r@ == self.name@,
    {
        self.name.as_str()
    }

    /// Returns the documentation line by line with one leading white space
    /// character and all trailing white space removed.
    pub fn documentation_lines(&self) -> (r: Vec<String>)
        ensures
            r@.map_values(|l: String| l@) == lines_from(self.raw_documentation@, 0),
    {
        let s = self.raw_documentation.as_str();
        let n = s.unicode_len();
        let mut out: Vec<String> = Vec::new();
        let mut a: usize = 0;
        while a < n
            invariant
                n == s@.len(),
                s@ == self.raw_documentation@,
                a <= n,
                out@.map_values(|l: String| l@) + lines_from(s@, a as int) == lines_from(s@, 0),
            decreases n - a,
        {
            let mut e: usize = a;
            while e < n && s.get_char(e) != '\n'
                invariant
                    n == s@.len(),
                    a <= e <= n,
                    line_end(s@, a as int) == line_end(s@, e as int),
                decreases n - e,
            {
                e += 1;
            }
            let ghost line = s@.subrange(a as int, e as int);
            let mut b: usize = a;
            if a < e && is_whitespace(s.get_char(a)) {
                b = a + 1;
            }
            let ghost stripped = s@.subrange(b as int, e as int);
            assert(stripped =~= strip_one_whitespace(line));
            let mut c: usize = e;
            while c > b && is_whitespace(s.get_char(c - 1))
                invariant
                    n == s@.len(),
                    b <= c <= e <= n,
                    stripped == s@.subrange(b as int, e as int),
                    drop_trailing_whitespace(stripped, 0, stripped.len() as int) == drop_trailing_whitespace(stripped, 0, c - b),
                decreases c - b,
            {
                assert(stripped[c - 1 - b] == s@[c - 1]);
                c -= 1;
            }
            let cleaned = owned(s.substring_char(b, c));
            assert(cleaned@ =~= clean_line(line));
            let ghost before = out@.map_values(|l: String| l@);
            out.push(cleaned);
            assert(out@.map_values(|l: String| l@) =~= before.push(clean_line(line)));
            if e < n {
                assert(before.push(clean_line(line)) + lines_from(s@, e + 1) =~= before + (seq![clean_line(line)] + lines_from(s@, e + 1)));
                a = e + 1;
            } else {
                assert(before.push(clean_line(line)) + lines_from(s@, n as int) =~= before + seq![clean_line(line)]);
                a = n;
            }
        }
        assert(out@.map_values(|l: String| l@) + lines_from(s@, a as int) =~= out@.map_values(|l: String| l@));
        out
    }

    pub fn default_level(&self) -> (r: Level)
        ensures
            r == self.default_level,
    {
        self.default_level
    }
}

/// The position of the first line break at or after `a`, or the end of `s`.
pub open spec fn line_end(s: Seq<char>, a: int) -> int
    decreases s.len() - a,
{
    if a < 0 || a >= s.len() || s[a] == '\n' {
        a
    } else {
        line_end(s, a + 1)
    }
}

/// `line` without one leading white space character.
pub open spec fn strip_one_whitespace(line: Seq<char>) -> Seq<char> {
    if line.len() > 0 && spec_is_whitespace(line[0]) {
        line.subrange(1, line.len() as int)
    } else {
        line
    }
}

/// A documentation line as shown: one leading white space character and all
/// trailing white space dropped.
pub open spec fn clean_line(line: Seq<char>) -> Seq<char> {
    let l = strip_one_whitespace(line);
    l.subrange(0, drop_trailing_whitespace(l, 0, l.len() as int))
}

/// The cleaned lines of `s` from position `a` on; a final line break ends
/// the last line rather than starting an empty one.
pub open spec fn lines_from(s: Seq<char>, a: int) -> Seq<Seq<char>>
    decreases s.len() - a,
{
    if a < 0 || a >= s.len() {
        Seq::empty()
    } else {
        let e = line_end(s, a);
        if e < a || e > s.len() {
            Seq::empty()
        } else if e == s.len() {
            seq![clean_line(s.subrange(a, e))]
        } else {
            seq![clean_line(s.subrange(a, e))] + lines_from(s, e + 1)
        }
    }
}

/// The identity of a registered rule: its position in the registry's arena of
/// rule descriptors. Two ids are equal exactly when they name the same descriptor.
#[derive(Clone, Copy, Debug, PartialEq, Eq, Structural, Hash)]
pub struct RuleId {
    pub index: usize,
}

/// Why a name does not resolve to a usable rule.
#[derive(Clone, Debug)]
pub enum GetRuleError {
    /// No rule or alias has this name.
    Unknown(String),
    /// The name resolves to a removed rule.
    Removed(RuleId),
    /// The name is a `category:name` form whose bare part is a known name.
    PrefixedWithCategory { prefixed: String, suggestion: String },
}

/// What a name resolves to in the registry's name index.
#[derive(Clone, Copy, Debug, PartialEq, Eq, Structural)]
pub enum RuleEntry {
    /// An active rule.
    Rule(RuleId),
    /// A rule that has been removed.
    Removed(RuleId),
}

/// The part of `s` after its first `:`, if it has one.
pub open spec fn after_category(s: Seq<char>) -> Option<Seq<char>> {
    if exists|i: int| 0 <= i < s.len() && s[i] == ':' {
        let i = choose|i: int|
            0 <= i < s.len() && s[i] == ':' && forall|j: int| 0 <= j < i ==> s[j] != ':';
        Some(s.subrange(i + 1, s.len() as int))
    } else {
        None
    }
}

/// Rules and aliases collected during registration.
///
/// Every rule descriptor lives in an arena and is identified by its position;
/// aliases map an extra name to a descriptor. All names, of rules and aliases
/// together, are distinct.
#[derive(Debug)]
pub struct RuleRegistryBuilder {
    arena: Vec<RuleMetadata>,
    rules: Vec<RuleId>,
    aliases: Vec<(String, RuleId)>,
}

/// The ids of the descriptors among the first `n` of `arena` that are not removed,
/// in registration order.
pub open spec fn active_ids(arena: Seq<RuleMetadata>, n: nat) -> Seq<RuleId>
    decreases n,
{
    if n == 0 {
        Seq::empty()
    } else {
        let prev = active_ids(arena, (n - 1) as nat);
        if arena[n - 1].status is Removed {
            prev
        } else {
            prev.push(RuleId { index: (n - 1) as usize })
        }
    }
}

/// The name index shared by the builder and the registry.
pub open spec fn names_wf(arena: Seq<RuleMetadata>, aliases: Seq<(String, RuleId)>) -> bool {
    &&& forall|i: int, j: int|
        0 <= i < arena.len() && 0 <= j < arena.len() && i != j ==> arena[i].name@ != arena[j].name@
    &&& forall|i: int, j: int|
        0 <= i < aliases.len() && 0 <= j < aliases.len() && i != j ==> aliases[i].0@
            != aliases[j].0@
    &&& forall|i: int, j: int|
        0 <= i < arena.len() && 0 <= j < aliases.len() ==> arena[i].name@ != aliases[j].0@
    &&& forall|j: int| 0 <= j < aliases.len() ==> aliases[j].1.index < arena.len()
}

/// Every name in the index: rule names in registration order, then alias names.
pub open spec fn all_names(arena: Seq<RuleMetadata>, aliases: Seq<(String, RuleId)>) -> Seq<
    Seq<char>,
> {
    arena.map_values(|m: RuleMetadata| m.name@) + aliases.map_values(|a: (String, RuleId)| a.0@)
}

/// The descriptor that `name` resolves to, with aliases followed.
pub open spec fn resolve(arena: Seq<RuleMetadata>, aliases: Seq<(String, RuleId)>, name: Seq<char>) -> Option<RuleEntry> {
    if exists|i: int| 0 <= i < arena.len() && arena[i].name@ == name {
        let i = choose|i: int| 0 <= i < arena.len() && arena[i].name@ == name;
        Some(entry_of(arena, i))
    } else if exists|j: int| 0 <= j < aliases.len() && aliases[j].0@ == name {
        let j = choose|j: int| 0 <= j < aliases.len() && aliases[j].0@ == name;
        Some(entry_of(arena, aliases[j].1.index as int))
    } else {
        None
    }
}

/// The index entry of descriptor `i`: active or removed.
pub open spec fn entry_of(arena: Seq<RuleMetadata>, i: int) -> RuleEntry {
    if arena[i].status is Removed {
        RuleEntry::Removed(RuleId { index: i as usize })
    } else {
        RuleEntry::Rule(RuleId { index: i as usize })
    }
}

/// Whether `name` is taken by a rule or an alias.
pub open spec fn name_taken(arena: Seq<RuleMetadata>, aliases: Seq<(String, RuleId)>, name: Seq<char>) -> bool {
    (exists|i: int| 0 <= i < arena.len() && arena[i].name@ == name) || (exists|j: int|
        0 <= j < aliases.len() && aliases[j].0@ == name)
}

/// Position of the descriptor named `name`.
fn find_rule(arena: &Vec<RuleMetadata>, name: &str) -> (r: Option<usize>)
    ensures
        match r {
            Some(i) => i < arena@.len() && arena@[i as int].name@ == name@,
            None => forall|i: int| 0 <= i < arena@.len() ==> arena@[i].name@ != name@,
        },
{
    let mut i: usize = 0;
    while i < arena.len()
        invariant
            i <= arena@.len(),
            forall|k: int| 0 <= k < i ==> arena@[k].name@ != name@,
        decreases arena@.len() - i,
    {
        if str_eq(arena[i].name.as_str(), name) {
            return Some(i);
        }
        i += 1;
    }
    None
}

/// Position of the alias named `name`.
fn find_alias(aliases: &Vec<(String, RuleId)>, name: &str) -> (r: Option<usize>)
    ensures
        match r {
            Some(j) => j < aliases@.len() && aliases@[j as int].0@ == name@,
            None => forall|j: int| 0 <= j < aliases@.len() ==> aliases@[j].0@ != name@,
        },
{
    let mut j: usize = 0;
    while j < aliases.len()
        invariant
            j <= aliases@.len(),
            forall|k: int| 0 <= k < j ==> aliases@[k].0@ != name@,
        decreases aliases@.len() - j,
    {
        if str_eq(aliases[j].0.as_str(), name) {
            return Some(j);
        }
        j += 1;
    }
    None
}

impl RuleRegistryBuilder {
    pub closed spec fn arena(&self) -> Seq<RuleMetadata> {
        self.arena@
    }

    pub closed spec fn aliases(&self) -> Seq<(String, RuleId)> {
        self.aliases@
    }

    pub closed spec fn wf(&self) -> bool {
        &&& names_wf(self.arena@, self.aliases@)
        &&& self.rules@ == active_ids(self.arena@, self.arena@.len())
    }

    /// An empty builder.
    pub fn new() -> (r: RuleRegistryBuilder)
        ensures
            r.wf(),
            r.arena() == Seq::<RuleMetadata>::empty(),
            r.aliases() == Seq::<(String, RuleId)>::empty(),
    {
        RuleRegistryBuilder { arena: Vec::new(), rules: Vec::new(), aliases: Vec::new() }
    }

    /// Whether `name` is taken by a rule or an alias.
    pub fn is_name_taken(&self, name: &str) -> (r: bool)
        ensures
            r == name_taken(self.arena(), self.aliases(), name@),
    {
        find_rule(&self.arena, name).is_some() || find_alias(&self.aliases, name).is_some()
    }

    /// Whether `name` is the own name of a registered rule, active or removed.
    pub fn is_rule_name(&self, name: &str) -> (r: bool)
        ensures
            r == exists|i: int| 0 <= i < self.arena().len() && self.arena()[i].name@ == name@,
    {
        match find_rule(&self.arena, name) {
            Some(i) => {
                assert(self.arena()[i as int].name@ == name@);
                true
            },
            None => false,
        }
    }

    /// Adds a rule under its own name. Registering a name that is already
    /// taken, by a rule or an alias, is a programming error that is ruled out
    /// before the call (`is_name_taken` tests it).
    pub fn register_rule(&mut self, rule: RuleMetadata) -> (r: RuleId)
        requires
            old(self).wf(),
            !name_taken(old(self).arena(), old(self).aliases(), rule.name@),
        ensures
            final(self).wf(),
            r == (RuleId { index: old(self).arena().len() as usize }),
            final(self).arena() == old(self).arena().push(rule),
            final(self).aliases() == old(self).aliases(),
    {
        let id = RuleId { index: self.arena.len() };
        let removed = rule.status.is_removed();
        let ghost old_arena = self.arena@;
        self.arena.push(rule);
        if !removed {
            self.rules.push(id);
        }
        assert(self.arena@.subrange(0, old_arena.len() as int) =~= old_arena);
        proof {
            lemma_active_ids_prefix(self.arena@, old_arena, old_arena.len());
        }
        id
    }

    /// Binds the extra name `from` to the rule named `to`, active or removed.
    /// A taken `from`, or a `to` that names no rule (nothing, or only an
    /// alias), is a programming error ruled out before the call.
    pub fn register_alias(&mut self, from: &str, to: &str)
        requires
            old(self).wf(),
            !name_taken(old(self).arena(), old(self).aliases(), from@),
            exists|i: int| 0 <= i < old(self).arena().len() && old(self).arena()[i].name@ == to@,
        ensures
            final(self).wf(),
            final(self).arena() == old(self).arena(),
            final(self).aliases().len() == old(self).aliases().len() + 1,
            final(self).aliases().drop_last() == old(self).aliases(),
            final(self).aliases().last().0@ == from@,
            old(self).arena()[final(self).aliases().last().1.index as int].name@ == to@,
    {
        match find_rule(&self.arena, to) {
            Some(i) => {
                let ghost old_aliases = self.aliases@;
                self.aliases.push((owned(from), RuleId { index: i }));
                assert(self.aliases@.drop_last() =~= old_aliases);
            },
            None => {},
        }
    }

    /// Freezes the builder into a registry.
    pub fn build(self) -> (r: RuleRegistry)
        requires
            self.wf(),
        ensures
            r.wf(),
            r.arena() == self.arena(),
            r.aliases() == self.aliases(),
    {
        RuleRegistry { arena: self.arena, rules: self.rules, aliases: self.aliases }
    }
}

proof fn lemma_active_ids_prefix(arena: Seq<RuleMetadata>, prefix: Seq<RuleMetadata>, n: nat)
    requires
        n <= prefix.len(),
        prefix.len() <= arena.len(),
        arena.subrange(0, prefix.len() as int) == prefix,
    ensures
        active_ids(arena, n) == active_ids(prefix, n),
    decreases n,
{
    if n > 0 {
        assert(arena[n - 1] == arena.subrange(0, prefix.len() as int)[n - 1]);
        lemma_active_ids_prefix(arena, prefix, (n - 1) as nat);
    }
}

/// The frozen rule catalog: all active rules in registration order and a name
/// index over active rules, removed rules and aliases.
#[derive(Debug, Clone)]
pub struct RuleRegistry {
    arena: Vec<RuleMetadata>,
    rules: Vec<RuleId>,
    aliases: Vec<(String, RuleId)>,
}

impl RuleRegistry {
    pub closed spec fn arena(&self) -> Seq<RuleMetadata> {
        self.arena@
    }

    pub closed spec fn aliases(&self) -> Seq<(String, RuleId)> {
        self.aliases@
    }

    pub closed spec fn wf(&self) -> bool {
        &&& names_wf(self.arena@, self.aliases@)
        &&& self.rules@ == active_ids(self.arena@, self.arena@.len())
    }

    /// The active rules in registration order.
    pub open spec fn active(&self) -> Seq<RuleId> {
        active_ids(self.arena(), self.arena().len())
    }

    /// What `name` resolves to.
    pub open spec fn resolve(&self, name: Seq<char>) -> Option<RuleEntry> {
        resolve(self.arena(), self.aliases(), name)
    }

    /// Whether `id` names one of the registry's descriptors.
    pub open spec fn contains_id(&self, id: RuleId) -> bool {
        id.index < self.arena().len()
    }

    /// Returns all registered, non-removed rules.
    pub fn rules(&self) -> (r: &[RuleId])
        requires
            self.wf(),
        ensures
            r@ == self.active(),
    {
        self.rules.as_slice()
    }

    /// The descriptor of a registered rule.
    pub fn metadata(&self, id: RuleId) -> (r: &RuleMetadata)
        requires
            self.contains_id(id),
        ensures
            *r == self.arena()[id.index as int],
    {
        &self.arena[id.index]
    }

    /// Resolves a rule name or alias. A removed rule, directly or through an
    /// alias, is reported as removed. An unknown name of the form `category:name`
    /// whose bare part is known is reported with that bare name as a suggestion.
    pub fn get(&self, name: &str) -> (r: Result<RuleId, GetRuleError>)
        requires
            self.wf(),
        ensures
            match self.resolve(name@) {
                Some(RuleEntry::Rule(id)) => r == Ok::<RuleId, GetRuleError>(id),
                Some(RuleEntry::Removed(id)) => r is Err && r->Err_0 is Removed && r->Err_0->Removed_0 == id,
                None => match after_category(name@) {
                    Some(bare) => match self.resolve(bare) {
                        Some(e) => r is Err && r->Err_0 is PrefixedWithCategory
                            && r->Err_0->PrefixedWithCategory_prefixed@ == name@
                            && r->Err_0->PrefixedWithCategory_suggestion@ == self.arena()[entry_id(e).index as int].name@,
                        None => r is Err && r->Err_0 is Unknown && r->Err_0->Unknown_0@ == name@,
                    },
                    None => r is Err && r->Err_0 is Unknown && r->Err_0->Unknown_0@ == name@,
                },
            },
    {
        match self.lookup(name) {
            Some(RuleEntry::Rule(id)) => Ok(id),
            Some(RuleEntry::Removed(id)) => Err(GetRuleError::Removed(id)),
            None => {
                match split_category(name) {
                    Some(bare) => match self.lookup(bare) {
                        Some(e) => {
                            let id = match e {
                                RuleEntry::Rule(id) => id,
                                RuleEntry::Removed(id) => id,
                            };
                            Err(
                                GetRuleError::PrefixedWithCategory {
                                    prefixed: owned(name),
                                    suggestion: self.arena[id.index].name.clone(),
                                },
                            )
                        },
                        None => Err(GetRuleError::Unknown(owned(name))),
                    },
                    None => Err(GetRuleError::Unknown(owned(name))),
                }
            },
        }
    }

    fn lookup(&self, name: &str) -> (r: Option<RuleEntry>)
        requires
            self.wf(),
        ensures
            r == self.resolve(name@),
            r matches Some(e) ==> self.contains_id(entry_id(e)),
    {
        match find_rule(&self.arena, name) {
            Some(i) => {
                let id = RuleId { index: i };
                if self.arena[i].status.is_removed() {
                    Some(RuleEntry::Removed(id))
                } else {
                    Some(RuleEntry::Rule(id))
                }
            },
            None => match find_alias(&self.aliases, name) {
                Some(j) => {
                    let id = self.aliases[j].1;
                    if self.arena[id.index].status.is_removed() {
                        Some(RuleEntry::Removed(id))
                    } else {
                        Some(RuleEntry::Rule(id))
                    }
                },
                None => None,
            },
        }
    }
}

/// The descriptor an index entry points at.
pub open spec fn entry_id(e: RuleEntry) -> RuleId {
    match e {
        RuleEntry::Rule(id) => id,
        RuleEntry::Removed(id) => id,
    }
}

/// The part of `s` after its first `:`.
fn split_category(s: &str) -> (r: Option<&str>)
    ensures
        r matches Some(b) ==> after_category(s@) == Some(b@),
        r is None ==> after_category(s@) is None,
{
    let n = s.unicode_len();
    let mut i: usize = 0;
    while i < n
        invariant
            n == s@.len(),
            i <= n,
            forall|j: int| 0 <= j < i ==> s@[j] != ':',
        decreases n - i,
    {
        if s.get_char(i) == ':' {
            let rest = s.substring_char(i + 1, n);
            proof {
                let k = choose|k: int|
                    0 <= k < s@.len() && s@[k] == ':' && forall|j: int| 0 <= j < k ==> s@[j] != ':';
                assert(k == i as int) by {
                    if k < i {
                    } else if k > i {
                    }
                }
            }
            return Some(rest);
        }
        i += 1;
    }
    None
}

/// What a well-formed name index guarantees: distinct names across rules
/// and aliases, and alias targets inside the arena.
pub proof fn lemma_registry_wf(reg: &RuleRegistry)
    requires
        reg.wf(),
    ensures
        names_wf(reg.arena(), reg.aliases()),
{
}

/// What a well-formed builder guarantees; registering keeps it well formed.
pub proof fn lemma_builder_wf(b: &RuleRegistryBuilder)
    requires
        b.wf(),
    ensures
        names_wf(b.arena(), b.aliases()),
{
}

/// In a well-formed name index no two entries share a name.
pub proof fn lemma_names_distinct(arena: Seq<RuleMetadata>, aliases: Seq<(String, RuleId)>)
    requires
        names_wf(arena, aliases),
    ensures
        all_names(arena, aliases).no_duplicates(),
{
    let s = all_names(arena, aliases);
    assert forall|i: int, j: int| 0 <= i < s.len() && 0 <= j < s.len() && i != j implies s[i]
        != s[j] by {
        if i < arena.len() && j < arena.len() {
        } else if i >= arena.len() && j >= arena.len() {
            assert(s[i] == aliases[i - arena.len()].0@);
            assert(s[j] == aliases[j - arena.len()].0@);
        } else if i < arena.len() {
            assert(s[j] == aliases[j - arena.len()].0@);
        } else {
            assert(s[i] == aliases[i - arena.len()].0@);
        }
    }
}

/// No two entries of a registry's name index (active rules, removed rules and
/// aliases together) share a name.
pub proof fn lemma_registry_names_distinct(reg: &RuleRegistry)
    requires
        reg.wf(),
    ensures
        all_names(reg.arena(), reg.aliases()).no_duplicates(),
{
    lemma_names_distinct(reg.arena(), reg.aliases());
}

/// No two entries of a builder's name index share a name; since
/// `register_rule` and `register_alias` keep the builder well formed, this
/// holds after every registration.
pub proof fn lemma_builder_names_distinct(b: &RuleRegistryBuilder)
    requires
        b.wf(),
    ensures
        all_names(b.arena(), b.aliases()).no_duplicates(),
{
    lemma_names_distinct(b.arena(), b.aliases());
}

/// Looking up an alias gives what looking up its target gives: the same rule
/// identity, or, when the target has been removed, the same removed rule.
pub proof fn lemma_alias_resolves_like_target(reg: &RuleRegistry, j: int)
    requires
        reg.wf(),
        0 <= j < reg.aliases().len(),
    ensures
        reg.resolve(reg.aliases()[j].0@) == reg.resolve(reg.arena()[reg.aliases()[j].1.index as int].name@),
        reg.resolve(reg.aliases()[j].0@) == Some(entry_of(reg.arena(), reg.aliases()[j].1.index as int)),
        reg.arena()[reg.aliases()[j].1.index as int].status is Removed ==> reg.resolve(reg.aliases()[j].0@)
            == Some(RuleEntry::Removed(reg.aliases()[j].1)),
        !(reg.arena()[reg.aliases()[j].1.index as int].status is Removed) ==> reg.resolve(reg.aliases()[j].0@)
            == Some(RuleEntry::Rule(reg.aliases()[j].1)),
{
    let a = reg.arena();
    let al = reg.aliases();
    let t = al[j].1.index as int;
    let name = al[j].0@;
    assert(!(exists|i: int| 0 <= i < a.len() && a[i].name@ == name));
    let jj = choose|k: int| 0 <= k < al.len() && al[k].0@ == name;
    assert(jj == j);
    let tn = a[t].name@;
    assert(exists|i: int| 0 <= i < a.len() && a[i].name@ == tn);
    let ii = choose|i: int| 0 <= i < a.len() && a[i].name@ == tn;
    assert(ii == t);
}

} // verus!
