//! What the command line decides from a run's diagnostics: the exit status
//! and the per-rule summary.
use vstd::prelude::*;

use crate::diagnostic::{decimal, decimal_text_usize, Diagnostic, DiagnosticView};
use crate::text::owned;
use crate::rule::{RuleId, Severity};
use crate::text::{lemma_lex_total, lemma_lex_trans, lex_lt, str_eq, str_lt};

verus! {

/// Summary output mode for diagnostics.
#[derive(Debug, Clone, Copy, PartialEq, Eq, Structural, Default)]
pub enum SummaryMode {
    /// Don't show summary (default).
    #[default]
    False,
    /// Show diagnostics and summary.
    True,
    /// Show only summary, not individual diagnostics.
    Only,
}

impl SummaryMode {
    /// Whether individual diagnostics are shown.
    pub fn shows_diagnostics(self) -> (r: bool)
        ensures
            r == !(self is Only),
    {
        !matches!(self, SummaryMode::Only)
    }

    /// Whether the per-rule summary is shown.
    pub fn shows_summary(self) -> (r: bool)
        ensures
            r == (self is True || self is Only),
    {
        matches!(self, SummaryMode::True | SummaryMode::Only)
    }
}

/// How a run ended.
#[derive(Copy, Clone, Debug, PartialEq, Eq, Structural)]
pub enum ExitStatus {
    /// Checking was successful and there were no errors.
    Success,
    /// Checking was successful but there were errors.
    Failure,
    /// Checking failed.
    Error,
}

impl ExitStatus {
    pub open spec fn spec_code(self) -> i32 {
        match self {
            ExitStatus::Success => 0,
            ExitStatus::Failure => 1,
            ExitStatus::Error => 2,
        }
    }

    /// The process exit code.
    pub fn to_i32(self) -> (r: i32)
        ensures
            r == self.spec_code(),
    {
        match self {
            ExitStatus::Success => 0,
            ExitStatus::Failure => 1,
            ExitStatus::Error => 2,
        }
    }

    /// `Failure` when some diagnostic has error severity, `Success` otherwise:
    /// a run with only warnings, or none, succeeds.
    pub fn from_diagnostics(diagnostics: &Vec<Diagnostic>) -> (r: ExitStatus)
        ensures
            r == (if exists|k: int| 0 <= k < diagnostics@.len() && (#[trigger] diagnostics@[k]).severity == Severity::Error {
                ExitStatus::Failure
            } else {
                ExitStatus::Success
            }),
    {
        let mut k: usize = 0;
        while k < diagnostics.len()
            invariant
                k <= diagnostics@.len(),
                forall|q: int| 0 <= q < k ==> (#[trigger] diagnostics@[q]).severity != Severity::Error,
            decreases diagnostics@.len() - k,
        {
            if diagnostics[k].severity == Severity::Error {
                return ExitStatus::Failure;
            }
            k += 1;
        }
        ExitStatus::Success
    }
}

/// How many of `ds` are diagnostics of `rule`.
pub open spec fn count_of(ds: Seq<DiagnosticView>, rule: RuleId) -> nat
    decreases ds.len(),
{
    if ds.len() == 0 {
        0
    } else {
        count_of(ds.drop_last(), rule) + if ds.last().rule == rule { 1nat } else { 0nat }
    }
}

/// The rules of `ds` in order of first appearance.
pub open spec fn rules_in(ds: Seq<DiagnosticView>) -> Seq<RuleId>
    decreases ds.len(),
{
    if ds.len() == 0 {
        Seq::empty()
    } else if rules_in(ds.drop_last()).contains(ds.last().rule) {
        rules_in(ds.drop_last())
    } else {
        rules_in(ds.drop_last()).push(ds.last().rule)
    }
}

proof fn lemma_count_bounded(ds: Seq<DiagnosticView>, rule: RuleId)
    ensures
        count_of(ds, rule) <= ds.len(),
    decreases ds.len(),
{
    if ds.len() > 0 {
        lemma_count_bounded(ds.drop_last(), rule);
    }
}

fn position_of(out: &Vec<(RuleId, usize, String)>, rule: RuleId) -> (r: Option<usize>)
    ensures
        r matches Some(k) ==> k < out@.len() && out@[k as int].0 == rule,
        r is None ==> forall|q: int| 0 <= q < out@.len() ==> out@[q].0 != rule,
{
    let mut k: usize = 0;
    while k < out.len()
        invariant
            k <= out@.len(),
            forall|q: int| 0 <= q < k ==> out@[q].0 != rule,
        decreases out@.len() - k,
    {
        if out[k].0 == rule {
            return Some(k);
        }
        k += 1;
    }
    None
}

proof fn lemma_count_absent(ds: Seq<DiagnosticView>, rule: RuleId)
    requires
        !rules_in(ds).contains(rule),
    ensures
        count_of(ds, rule) == 0,
    decreases ds.len(),
{
    if ds.len() > 0 {
        let prev = rules_in(ds.drop_last());
        assert(!prev.contains(rule)) by {
            if prev.contains(rule) {
                let q = choose|q: int| 0 <= q < prev.len() && prev[q] == rule;
                if !prev.contains(ds.last().rule) {
                    assert(rules_in(ds)[q] == rule);
                }
            }
        }
        assert(ds.last().rule != rule) by {
            if ds.last().rule == rule {
                assert(rules_in(ds)[prev.len() as int] == rule);
            }
        }
        lemma_count_absent(ds.drop_last(), rule);
    }
}

/// Groups diagnostics by rule: each rule that occurs, in order of first
/// appearance, with its diagnostic count and the name it was reported under.
pub fn rule_counts(diagnostics: &Vec<Diagnostic>) -> (r: Vec<(RuleId, usize, String)>)
    ensures
        r@.len() == rules_in(diagnostics@.map_values(|d: Diagnostic| d@)).len(),
        forall|k: int| 0 <= k < r@.len() ==> {
            &&& (#[trigger] r@[k]).0 == rules_in(diagnostics@.map_values(|d: Diagnostic| d@))[k]
            &&& r@[k].1 == count_of(diagnostics@.map_values(|d: Diagnostic| d@), r@[k].0)
        },
{
    let ghost all = diagnostics@.map_values(|d: Diagnostic| d@);
    let mut out: Vec<(RuleId, usize, String)> = Vec::new();
    let mut i: usize = 0;
    while i < diagnostics.len()
        invariant
            i <= diagnostics@.len(),
            all == diagnostics@.map_values(|d: Diagnostic| d@),
            out@.len() == rules_in(all.subrange(0, i as int)).len(),
            forall|k: int| 0 <= k < out@.len() ==> {
                &&& (#[trigger] out@[k]).0 == rules_in(all.subrange(0, i as int))[k]
                &&& out@[k].1 == count_of(all.subrange(0, i as int), out@[k].0)
            },
            forall|a: int, b: int| 0 <= a < b < out@.len() ==> out@[a].0 != out@[b].0,
        decreases diagnostics@.len() - i,
    {
        let ghost prefix = all.subrange(0, i as int);
        let ghost next = all.subrange(0, i + 1);
        assert(next.drop_last() =~= prefix);
        assert(next.last() == diagnostics@[i as int]@);
        let rule = diagnostics[i].rule;
        let position = position_of(&out, rule);
        let found = position.is_some();
        let k: usize = match position {
            Some(k) => k,
            None => 0,
        };
        assert(forall|q: int| 0 <= q < out@.len() ==> out@[q].0 == rules_in(prefix)[q]);
        if found {
            assert(rules_in(prefix).contains(rule)) by {
                assert(rules_in(prefix)[k as int] == rule);
            }
            proof {
                lemma_count_bounded(prefix, rule);
            }
            let ghost old_out = out@;
            let entry = (out[k].0, out[k].1 + 1, out[k].2.clone());
            out.set(k, entry);
            assert(rules_in(next) == rules_in(prefix));
            assert forall|q: int| 0 <= q < out@.len() implies (#[trigger] out@[q]).0 == rules_in(next)[q] && out@[q].1 == count_of(next, out@[q].0) by {
                assert(count_of(next, out@[q].0) == count_of(prefix, out@[q].0) + if out@[q].0 == rule { 1nat } else { 0nat });
                if q != k {
                    assert(old_out[q].0 != rule);
                }
            }
        } else {
            assert(!rules_in(prefix).contains(rule)) by {
                if rules_in(prefix).contains(rule) {
                    let q = choose|q: int| 0 <= q < rules_in(prefix).len() && rules_in(prefix)[q] == rule;
                    assert(out@[q].0 == rule);
                }
            }
            let ghost old_out = out@;
            out.push((rule, 1, diagnostics[i].name.clone()));
            assert(rules_in(next) == rules_in(prefix).push(rule));
            assert(count_of(prefix, rule) == 0) by {
                lemma_count_absent(prefix, rule);
            }
            assert forall|q: int| 0 <= q < out@.len() implies (#[trigger] out@[q]).0 == rules_in(next)[q] && out@[q].1 == count_of(next, out@[q].0) by {
                assert(count_of(next, out@[q].0) == count_of(prefix, out@[q].0) + if out@[q].0 == rule { 1nat } else { 0nat });
                if q < old_out.len() {
                    assert(old_out[q].0 != rule);
                }
            }
        }
        i += 1;
    }
    assert(all.subrange(0, diagnostics@.len() as int) =~= all);
    out
}

/// How many of `ds` are reported under the rule name `name`.
pub open spec fn name_count(ds: Seq<DiagnosticView>, name: Seq<char>) -> nat
    decreases ds.len(),
{
    if ds.len() == 0 {
        0
    } else {
        name_count(ds.drop_last(), name) + if ds.last().name == name { 1nat } else { 0nat }
    }
}

proof fn lemma_name_count_bounded(ds: Seq<DiagnosticView>, name: Seq<char>)
    ensures
        name_count(ds, name) <= ds.len(),
    decreases ds.len(),
{
    if ds.len() > 0 {
        lemma_name_count_bounded(ds.drop_last(), name);
    }
}

/// Whether some diagnostic of `ds` is reported under `name`.
pub open spec fn has_name(ds: Seq<DiagnosticView>, name: Seq<char>) -> bool {
    exists|i: int| 0 <= i < ds.len() && (#[trigger] ds[i]).name == name
}

/// Whether `out` is the per-name summary of `ds`: strictly ascending by name,
/// holding exactly the names of `ds`, each with its diagnostic count.
pub open spec fn is_summary(out: Seq<(String, usize)>, ds: Seq<DiagnosticView>) -> bool {
    &&& forall|a: int, b: int| 0 <= a < b < out.len() ==> lex_lt((#[trigger] out[a]).0@, (#[trigger] out[b]).0@)
    &&& forall|k: int| 0 <= k < out.len() ==> (#[trigger] out[k]).1 == name_count(ds, out[k].0@)
    &&& forall|k: int| 0 <= k < out.len() ==> has_name(ds, (#[trigger] out[k]).0@)
    &&& forall|i: int| 0 <= i < ds.len() ==> exists|k: int| 0 <= k < out.len() && (#[trigger] out[k]).0@ == (#[trigger] ds[i]).name
}

/// The first position of `out` whose name does not come before `name`.
fn insertion_point(out: &Vec<(String, usize)>, name: &str) -> (r: usize)
    ensures
        r <= out@.len(),
        forall|q: int| 0 <= q < r ==> lex_lt((#[trigger] out@[q]).0@, name@),
        r < out@.len() ==> !lex_lt(out@[r as int].0@, name@),
{
    let mut k: usize = 0;
    while k < out.len()
        invariant
            k <= out@.len(),
            forall|q: int| 0 <= q < k ==> lex_lt((#[trigger] out@[q]).0@, name@),
        decreases out@.len() - k,
    {
        if !str_lt(out[k].0.as_str(), name) {
            return k;
        }
        k += 1;
    }
    k
}

/// The diagnostics counted by rule name, in ascending order of the names,
/// as the run's summary lists them.
pub fn summary(diagnostics: &Vec<Diagnostic>) -> (r: Vec<(String, usize)>)
    ensures
        is_summary(r@, diagnostics@.map_values(|d: Diagnostic| d@)),
{
    let ghost all = diagnostics@.map_values(|d: Diagnostic| d@);
    let mut out: Vec<(String, usize)> = Vec::new();
    let mut i: usize = 0;
    while i < diagnostics.len()
        invariant
            i <= diagnostics@.len(),
            all == diagnostics@.map_values(|d: Diagnostic| d@),
            is_summary(out@, all.subrange(0, i as int)),
        decreases diagnostics@.len() - i,
    {
        let ghost prefix = all.subrange(0, i as int);
        let ghost next = all.subrange(0, i + 1);
        assert(next.drop_last() =~= prefix);
        assert(next.last() == diagnostics@[i as int]@);
        let name = diagnostics[i].name.as_str();
        let ghost nm = name@;
        assert(next.last().name == nm);
        let ghost old_out = out@;
        let k = insertion_point(&out, name);
        assert forall|x: Seq<char>| #[trigger] name_count(next, x) == name_count(prefix, x) + if x == nm { 1nat } else { 0nat } by {}
        assert forall|q: int| 0 <= q < prefix.len() implies (#[trigger] next[q]) == prefix[q] by {}
        if k < out.len() && str_eq(out[k].0.as_str(), name) {
            proof {
                lemma_name_count_bounded(prefix, nm);
            }
            let entry = (out[k].0.clone(), out[k].1 + 1);
            out.set(k, entry);
            proof {
                assert forall|q: int| 0 <= q < out@.len() && q != k implies (#[trigger] out@[q]).0@ != nm by {
                    if q < k {
                        lemma_lex_total(nm, nm);
                    } else {
                        assert(lex_lt(old_out[k as int].0@, old_out[q].0@));
                        lemma_lex_total(nm, nm);
                    }
                }
                assert forall|a: int, b: int| 0 <= a < b < out@.len() implies lex_lt((#[trigger] out@[a]).0@, (#[trigger] out@[b]).0@) by {
                    assert(lex_lt(old_out[a].0@, old_out[b].0@));
                }
                assert forall|q: int| 0 <= q < out@.len() implies has_name(next, (#[trigger] out@[q]).0@) by {
                    assert(has_name(prefix, old_out[q].0@));
                    let j = choose|j: int| 0 <= j < prefix.len() && (#[trigger] prefix[j]).name == old_out[q].0@;
                    assert(next[j] == prefix[j]);
                }
                assert forall|j: int| 0 <= j < next.len() implies exists|q: int| 0 <= q < out@.len() && (#[trigger] out@[q]).0@ == (#[trigger] next[j]).name by {
                    if j < prefix.len() {
                        let q = choose|q: int| 0 <= q < old_out.len() && (#[trigger] old_out[q]).0@ == (#[trigger] prefix[j]).name;
                        assert(out@[q].0@ == next[j].name);
                    } else {
                        assert(out@[k as int].0@ == next[j].name);
                    }
                }
            }
        } else {
            proof {
                if k < old_out.len() {
                    lemma_lex_total(old_out[k as int].0@, nm);
                }
                assert(!has_name(prefix, nm)) by {
                    if has_name(prefix, nm) {
                        let j = choose|j: int| 0 <= j < prefix.len() && (#[trigger] prefix[j]).name == nm;
                        let q = choose|q: int| 0 <= q < old_out.len() && (#[trigger] old_out[q]).0@ == (#[trigger] prefix[j]).name;
                        if q < k {
                            lemma_lex_total(nm, nm);
                        } else if q > k {
                            assert(lex_lt(old_out[k as int].0@, old_out[q].0@));
                            lemma_lex_total(old_out[k as int].0@, nm);
                        }
                    }
                }
                assert(name_count(prefix, nm) == 0) by {
                    lemma_name_count_absent(prefix, nm);
                }
            }
            out.insert(k, (diagnostics[i].name.clone(), 1));
            proof {
                assert(out@ == old_out.insert(k as int, out@[k as int]));
                assert(out@[k as int].0@ == nm);
                assert forall|a: int, b: int| 0 <= a < b < out@.len() implies lex_lt((#[trigger] out@[a]).0@, (#[trigger] out@[b]).0@) by {
                    if b < k {
                        assert(lex_lt(old_out[a].0@, old_out[b].0@));
                    } else if b == k {
                        assert(out@[a] == old_out[a]);
                    } else if a == k {
                        assert(out@[b] == old_out[b - 1]);
                        if b - 1 > k {
                            assert(lex_lt(old_out[k as int].0@, old_out[b - 1].0@));
                            lemma_lex_trans(nm, old_out[k as int].0@, old_out[b - 1].0@);
                        }
                    } else if a < k {
                        assert(out@[b] == old_out[b - 1]);
                        assert(out@[a] == old_out[a]);
                        assert(lex_lt(old_out[a].0@, old_out[b - 1].0@));
                    } else {
                        assert(lex_lt(old_out[a - 1].0@, old_out[b - 1].0@));
                    }
                }
                assert forall|q: int| 0 <= q < out@.len() implies (#[trigger] out@[q]).1 == name_count(next, out@[q].0@) by {
                    if q < k {
                        lemma_lex_total(nm, nm);
                        assert(out@[q] == old_out[q]);
                    } else if q > k {
                        assert(out@[q] == old_out[q - 1]);
                        if q - 1 > k {
                            assert(lex_lt(old_out[k as int].0@, old_out[q - 1].0@));
                            lemma_lex_trans(nm, old_out[k as int].0@, old_out[q - 1].0@);
                        }
                        lemma_lex_total(nm, old_out[q - 1].0@);
                    }
                }
                assert forall|q: int| 0 <= q < out@.len() implies has_name(next, (#[trigger] out@[q]).0@) by {
                    if q == k {
                        assert(next[i as int].name == nm);
                    } else {
                        let oq = if q < k { q } else { q - 1 };
                        assert(out@[q] == old_out[oq]);
                        assert(has_name(prefix, old_out[oq].0@));
                        let j = choose|j: int| 0 <= j < prefix.len() && (#[trigger] prefix[j]).name == old_out[oq].0@;
                        assert(next[j] == prefix[j]);
                    }
                }
                assert forall|j: int| 0 <= j < next.len() implies exists|q: int| 0 <= q < out@.len() && (#[trigger] out@[q]).0@ == (#[trigger] next[j]).name by {
                    if j < prefix.len() {
                        let q = choose|q: int| 0 <= q < old_out.len() && (#[trigger] old_out[q]).0@ == (#[trigger] prefix[j]).name;
                        if q < k {
                            assert(out@[q].0@ == next[j].name);
                        } else {
                            assert(out@[q + 1].0@ == next[j].name);
                        }
                    } else {
                        assert(out@[k as int].0@ == next[j].name);
                    }
                }
            }
        }
        i += 1;
    }
    assert(all.subrange(0, diagnostics@.len() as int) =~= all);
    out
}

proof fn lemma_name_count_absent(ds: Seq<DiagnosticView>, name: Seq<char>)
    requires
        !has_name(ds, name),
    ensures
        name_count(ds, name) == 0,
    decreases ds.len(),
{
    if ds.len() > 0 {
        assert(ds.last() == ds[ds.len() - 1]);
        assert forall|i: int| 0 <= i < ds.drop_last().len() implies (#[trigger] ds.drop_last()[i]).name != name by {
            assert(ds.drop_last()[i] == ds[i]);
        }
        lemma_name_count_absent(ds.drop_last(), name);
    }
}

/// What each diagnostic says.
pub open spec fn views_of(ds: Seq<Diagnostic>) -> Seq<DiagnosticView> {
    ds.map_values(|d: Diagnostic| d@)
}

/// `"s"` for more than one.
pub open spec fn plural(n: nat) -> Seq<char> {
    if n > 1 { "s"@ } else { Seq::empty() }
}

/// The lines `  {name}: {count}` of the first `n` summary entries.
pub open spec fn summary_lines(out: Seq<(String, usize)>, n: int) -> Seq<char>
    decreases n,
{
    if n <= 0 {
        Seq::empty()
    } else {
        summary_lines(out, n - 1) + "  "@ + out[n - 1].0@ + ": "@ + decimal(out[n - 1].1 as nat) + "\n"@
    }
}

/// What a run prints after its diagnostics: `All checks passed` when there are
/// none; otherwise the count line unless only the summary is asked for, then
/// the per-name summary and total when it is asked for.
pub open spec fn closing(ds: Seq<DiagnosticView>, out: Seq<(String, usize)>, mode: SummaryMode) -> Seq<char> {
    if ds.len() == 0 {
        "All checks passed\n"@
    } else {
        let n = ds.len();
        let count_line = "Found "@ + decimal(n) + " diagnostic"@ + plural(n) + "\n"@;
        (if mode is Only { Seq::empty() } else { count_line }) + if mode is True || mode is Only {
            "\nSummary:\n"@ + summary_lines(out, out.len() as int) + "\nTotal: "@ + decimal(n) + " diagnostic"@ + plural(n) + "\n"@
        } else {
            Seq::empty()
        }
    }
}

/// The text a run prints after its diagnostics, with the summary by rule name
/// in ascending order.
pub fn closing_text(diagnostics: &Vec<Diagnostic>, mode: SummaryMode) -> (r: String)
    ensures
        exists|out: Seq<(String, usize)>| #[trigger] is_summary(out, views_of(diagnostics@))
            && r@ == closing(views_of(diagnostics@), out, mode),
{
    let ghost all = views_of(diagnostics@);
    let out = summary(diagnostics);
    let n = diagnostics.len();
    if n == 0 {
        let r = owned("All checks passed\n");
        assert(is_summary(out@, all) && r@ == closing(all, out@, mode));
        return r;
    }
    let s = if n > 1 { "s" } else { "" };
    proof {
        reveal_strlit("s");
        reveal_strlit("");
    }
    assert(s@ == plural(n as nat));
    let mut r = String::new();
    if !matches!(mode, SummaryMode::Only) {
        r = owned("Found ").concat(decimal_text_usize(n).as_str()).concat(" diagnostic").concat(s).concat("\n");
    }
    let ghost head = r@;
    if matches!(mode, SummaryMode::True | SummaryMode::Only) {
        r = r.concat("\nSummary:\n");
        let ghost start = r@;
        let mut k: usize = 0;
        while k < out.len()
            invariant
                k <= out@.len(),
                r@ == start + summary_lines(out@, k as int),
            decreases out@.len() - k,
        {
            r = r.concat("  ").concat(out[k].0.as_str()).concat(": ").concat(decimal_text_usize(out[k].1).as_str()).concat("\n");
            assert(r@ =~= start + summary_lines(out@, k + 1));
            k += 1;
        }
        r = r.concat("\nTotal: ").concat(decimal_text_usize(n).as_str()).concat(" diagnostic").concat(s).concat("\n");
        assert(r@ =~= head + ("\nSummary:\n"@ + summary_lines(out@, out@.len() as int) + "\nTotal: "@ + decimal(n as nat) + " diagnostic"@ + plural(n as nat) + "\n"@));
    } else {
        assert(r@ =~= head + Seq::<char>::empty());
    }
    assert(all.len() == n);
    assert(r@ == closing(all, out@, mode));
    r
}

} // verus!
