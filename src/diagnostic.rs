//! Source ranges and the diagnostics that rules produce.
use vstd::prelude::*;

use vstd::string::*;

use crate::rule::{RuleId, Severity};
use crate::selection::RuleSource;
use crate::text::owned;

verus! {

/// A range of byte offsets in a source file, `start` inclusive, `end` exclusive.
#[derive(Clone, Copy, Debug, PartialEq, Eq, Structural, Hash)]
pub struct TextRange {
    pub start: u32,
    pub end: u32,
}

/// A tag that a renderer may show on an annotation.
#[derive(Clone, Copy, Debug, PartialEq, Eq, Structural)]
pub enum DiagnosticTag {
    Unnecessary,
    Deprecated,
}

/// A span of a file that a diagnostic points at, with an optional message.
#[derive(Clone, Debug)]
pub struct Annotation {
    pub file: usize,
    pub range: TextRange,
    pub message: Option<String>,
    pub tags: Vec<DiagnosticTag>,
}

/// One finding of one rule, ready to be shown.
#[derive(Clone, Debug)]
pub struct Diagnostic {
    pub rule: RuleId,
    /// The rule's name, which identifies the diagnostic.
    pub name: String,
    pub severity: Severity,
    pub message: String,
    /// Where the finding is.
    pub primary: Annotation,
    /// Further explanations, in the order they were added.
    pub infos: Vec<String>,
    /// Which configuration layer enabled the rule.
    pub provenance: String,
}

/// What a diagnostic says, as mathematical values.
pub struct DiagnosticView {
    pub rule: RuleId,
    pub name: Seq<char>,
    pub severity: Severity,
    pub message: Seq<char>,
    pub file: usize,
    pub range: TextRange,
    pub primary_message: Option<Seq<char>>,
    pub infos: Seq<Seq<char>>,
    pub provenance: Seq<char>,
}

impl View for Diagnostic {
    type V = DiagnosticView;

    open spec fn view(&self) -> DiagnosticView {
        DiagnosticView {
            rule: self.rule,
            name: self.name@,
            severity: self.severity,
            message: self.message@,
            file: self.primary.file,
            range: self.primary.range,
            primary_message: match self.primary.message {
                Some(m) => Some(m@),
                None => None,
            },
            infos: self.infos@.map_values(|s: String| s@),
            provenance: self.provenance@,
        }
    }
}

/// The provenance line for a rule enabled by `source`.
pub open spec fn provenance_text(name: Seq<char>, source: RuleSource) -> Seq<char> {
    match source {
        RuleSource::Default => "rule `"@ + name + "` is enabled by default"@,
        RuleSource::Cli => "rule `"@ + name + "` was selected on the command line"@,
        RuleSource::File => "rule `"@ + name + "` was selected in the configuration file"@,
    }
}

/// What a rule algorithm found, before the selection decides whether and how
/// it is reported.
pub struct Finding {
    pub rule: RuleId,
    pub range: TextRange,
    pub message: Seq<char>,
    pub infos: Seq<Seq<char>>,
}

/// The decimal digit `d`.
pub open spec fn digit(d: nat) -> char {
    if d == 0 {
        '0'
    } else if d == 1 {
        '1'
    } else if d == 2 {
        '2'
    } else if d == 3 {
        '3'
    } else if d == 4 {
        '4'
    } else if d == 5 {
        '5'
    } else if d == 6 {
        '6'
    } else if d == 7 {
        '7'
    } else if d == 8 {
        '8'
    } else {
        '9'
    }
}

/// `n` written in decimal.
pub open spec fn decimal(n: nat) -> Seq<char>
    decreases n,
{
    if n < 10 {
        seq![digit(n)]
    } else {
        decimal(n / 10) + seq![digit(n % 10)]
    }
}

fn digit_text(d: u32) -> (r: &'static str)
    requires
        d < 10,
    ensures
        r@ == seq![digit(d as nat)],
{
    proof {
        reveal_strlit("0");
        reveal_strlit("1");
        reveal_strlit("2");
        reveal_strlit("3");
        reveal_strlit("4");
        reveal_strlit("5");
        reveal_strlit("6");
        reveal_strlit("7");
        reveal_strlit("8");
        reveal_strlit("9");
    }
    let r = if d == 0 {
        "0"
    } else if d == 1 {
        "1"
    } else if d == 2 {
        "2"
    } else if d == 3 {
        "3"
    } else if d == 4 {
        "4"
    } else if d == 5 {
        "5"
    } else if d == 6 {
        "6"
    } else if d == 7 {
        "7"
    } else if d == 8 {
        "8"
    } else {
        "9"
    };
    assert(r@ =~= seq![digit(d as nat)]);
    r
}

/// `n` written in decimal.
pub fn decimal_text(n: u32) -> (r: String)
    ensures
        r@ == decimal(n as nat),
    decreases n,
{
    if n < 10 {
        owned(digit_text(n))
    } else {
        decimal_text(n / 10).concat(digit_text(n % 10))
    }
}

/// `n` written in decimal.
pub fn decimal_text_usize(n: usize) -> (r: String)
    ensures
        r@ == decimal(n as nat),
    decreases n,
{
    if n < 10 {
        owned(digit_text(n as u32))
    } else {
        decimal_text_usize(n / 10).concat(digit_text((n % 10) as u32))
    }
}

pub open spec fn severity_text(s: Severity) -> Seq<char> {
    match s {
        Severity::Warning => "warning"@,
        Severity::Error => "error"@,
    }
}

/// The info lines of the first `n` of `infos`.
pub open spec fn infos_text(infos: Seq<Seq<char>>, n: int) -> Seq<char>
    decreases n,
{
    if n <= 0 {
        Seq::empty()
    } else {
        infos_text(infos, n - 1) + "info: "@ + infos[n - 1] + "\n"@
    }
}

/// How a diagnostic of the file at `path` is shown: a headline with severity,
/// rule name and message; the location; the primary annotation's message if
/// any; then the info lines, the provenance last.
pub open spec fn rendered(d: DiagnosticView, path: Seq<char>) -> Seq<char> {
    severity_text(d.severity) + "["@ + d.name + "]: "@ + d.message + "\n --> "@ + path + ":"@ + decimal(
        d.range.start as nat,
    ) + ".."@ + decimal(d.range.end as nat) + "\n"@ + match d.primary_message {
        Some(m) => "  | "@ + m + "\n"@,
        None => Seq::empty(),
    } + infos_text(d.infos, d.infos.len() as int) + "info: "@ + d.provenance + "\n"@
}

/// The first `n` diagnostics of a file, each followed by a blank line.
pub open spec fn rendered_all(ds: Seq<DiagnosticView>, path: Seq<char>, n: int) -> Seq<char>
    decreases n,
{
    if n <= 0 {
        Seq::empty()
    } else {
        rendered_all(ds, path, n - 1) + rendered(ds[n - 1], path) + "\n"@
    }
}

impl Diagnostic {
    /// The diagnostic as text, for the file at `path`.
    pub fn render(&self, path: &str) -> (r: String)
        ensures
            r@ == rendered(self@, path@),
    {
        let severity = match self.severity {
            Severity::Warning => "warning",
            Severity::Error => "error",
        };
        let mut out = owned(severity).concat("[").concat(self.name.as_str()).concat("]: ").concat(
            self.message.as_str(),
        ).concat("\n --> ").concat(path).concat(":");
        let start = decimal_text(self.primary.range.start);
        let end = decimal_text(self.primary.range.end);
        out = out.concat(start.as_str()).concat("..").concat(end.as_str()).concat("\n");
        match &self.primary.message {
            Some(m) => {
                out = out.concat("  | ").concat(m.as_str()).concat("\n");
            },
            None => {},
        }
        let ghost head = out@;
        let ghost infos = self.infos@.map_values(|s: String| s@);
        let mut k: usize = 0;
        while k < self.infos.len()
            invariant
                k <= self.infos@.len(),
                infos == self.infos@.map_values(|s: String| s@),
                out@ == head + infos_text(infos, k as int),
            decreases self.infos@.len() - k,
        {
            out = out.concat("info: ").concat(self.infos[k].as_str()).concat("\n");
            assert(out@ =~= head + infos_text(infos, k + 1));
            k += 1;
        }
        out = out.concat("info: ").concat(self.provenance.as_str()).concat("\n");
        assert(out@ =~= rendered(self@, path@));
        out
    }
}

/// The diagnostics of the file at `path` as text, each followed by a blank line.
pub fn render_all(diagnostics: &Vec<Diagnostic>, path: &str) -> (r: String)
    ensures
        r@ == rendered_all(diagnostics@.map_values(|d: Diagnostic| d@), path@, diagnostics@.len() as int),
{
    let ghost views = diagnostics@.map_values(|d: Diagnostic| d@);
    let mut out = String::new();
    let mut k: usize = 0;
    while k < diagnostics.len()
        invariant
            k <= diagnostics@.len(),
            views == diagnostics@.map_values(|d: Diagnostic| d@),
            out@ == rendered_all(views, path@, k as int),
        decreases diagnostics@.len() - k,
    {
        let text = diagnostics[k].render(path);
        out = out.concat(text.as_str()).concat("\n");
        assert(out@ =~= rendered_all(views, path@, k + 1));
        k += 1;
    }
    out
}

} // verus!
