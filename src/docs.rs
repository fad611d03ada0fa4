//! The categories page of the rule documentation, generated from the catalog.
use vstd::prelude::*;
use vstd::string::*;

use crate::categories::{all_categories, Category};
use crate::directives::{is_whitespace, skip_whitespace};
use crate::rule::{line_end, RuleId, RuleRegistry};
use crate::text::owned;

verus! {

/// The rules among the first `n` of `ids` that belong to `cat`, in order.
pub open spec fn in_category(reg: &RuleRegistry, ids: Seq<RuleId>, cat: Category, n: int) -> Seq<RuleId>
    decreases n,
{
    if n <= 0 {
        Seq::empty()
    } else {
        in_category(reg, ids, cat, n - 1) + if reg.arena()[ids[n - 1].index as int].categories@.contains(cat) {
            seq![ids[n - 1]]
        } else {
            Seq::empty()
        }
    }
}

/// The active rules that belong to `cat`, in registration order.
pub open spec fn category_rules(reg: &RuleRegistry, cat: Category) -> Seq<RuleId> {
    in_category(reg, reg.active(), cat, reg.active().len() as int)
}

fn has_category(cats: &Vec<Category>, cat: Category) -> (r: bool)
    ensures
        r == cats@.contains(cat),
{
    let mut c: usize = 0;
    while c < cats.len()
        invariant
            c <= cats@.len(),
            forall|q: int| 0 <= q < c ==> cats@[q] != cat,
        decreases cats@.len() - c,
    {
        if cats[c] == cat {
            assert(cats@[c as int] == cat);
            return true;
        }
        c += 1;
    }
    false
}

/// The active rules that belong to `cat`, in registration order.
pub fn rules_in_category(registry: &RuleRegistry, cat: Category) -> (r: Vec<RuleId>)
    requires
        registry.wf(),
    ensures
        r@ == category_rules(registry, cat),
        forall|k: int| 0 <= k < r@.len() ==> registry.contains_id(#[trigger] r@[k]),
{
    let rules = registry.rules();
    let mut out: Vec<RuleId> = Vec::new();
    let mut k: usize = 0;
    while k < rules.len()
        invariant
            registry.wf(),
            rules@ == registry.active(),
            k <= rules@.len(),
            out@ == in_category(registry, rules@, cat, k as int),
            forall|q: int| 0 <= q < out@.len() ==> registry.contains_id(#[trigger] out@[q]),
        decreases rules@.len() - k,
    {
        let id = rules[k];
        proof {
            crate::selection::lemma_active_in_range(registry, k as int);
        }
        let member = has_category(&registry.metadata(id).categories, cat);
        if member {
            out.push(id);
        }
        proof {
            let step = if member { seq![id] } else { Seq::<RuleId>::empty() };
            assert(out@ =~= in_category(registry, rules@, cat, k as int) + step);
        }
        k += 1;
    }
    out
}

/// The text of `s` from `a` on, line by line, each line without leading
/// white space and followed by a line break.
pub open spec fn doc_block_from(s: Seq<char>, a: int) -> Seq<char>
    decreases s.len() - a,
{
    if a < 0 || a >= s.len() {
        Seq::empty()
    } else {
        let e = line_end(s, a);
        if e < a || e > s.len() {
            Seq::empty()
        } else {
            let l = s.subrange(a, e);
            let t = l.subrange(skip_whitespace(l, 0), l.len() as int) + "\n"@;
            if e == s.len() {
                t
            } else {
                t + doc_block_from(s, e + 1)
            }
        }
    }
}

/// One list item of the rules of a category.
pub open spec fn rule_item(reg: &RuleRegistry, id: RuleId) -> Seq<char> {
    let name = reg.arena()[id.index as int].name@;
    "- [`"@ + name + "`](rule-list.md#"@ + name + ") - "@ + reg.arena()[id.index as int].summary@ + "\n"@
}

/// The list items of the first `n` of `ids`.
pub open spec fn rule_items(reg: &RuleRegistry, ids: Seq<RuleId>, n: int) -> Seq<char>
    decreases n,
{
    if n <= 0 {
        Seq::empty()
    } else {
        rule_items(reg, ids, n - 1) + rule_item(reg, ids[n - 1])
    }
}

/// The section of the page for one category.
pub open spec fn category_section(reg: &RuleRegistry, cat: Category) -> Seq<char> {
    let ids = category_rules(reg, cat);
    "## "@ + cat.spec_name() + "\n\n"@ + doc_block_from(cat.spec_documentation(), 0) + "\n"@ + if ids.len() == 0 {
        "*No rules in this category.*\n\n"@
    } else {
        "### Rules in this category\n\n"@ + rule_items(reg, ids, ids.len() as int)
    }
}

/// The sections of the first `n` of `cats`.
pub open spec fn category_sections(reg: &RuleRegistry, cats: Seq<Category>, n: int) -> Seq<char>
    decreases n,
{
    if n <= 0 {
        Seq::empty()
    } else {
        category_sections(reg, cats, n - 1) + category_section(reg, cats[n - 1])
    }
}

pub open spec fn categories_intro() -> Seq<char> {
    "# Categories\n\nThis page describes the different categories of type system unsoundness that the checker can detect.\n\n"@
}

fn doc_block(s: &str) -> (r: String)
    ensures
        r@ == doc_block_from(s@, 0),
{
    let n = s.unicode_len();
    let mut out = String::new();
    let mut a: usize = 0;
    while a < n
        invariant
            n == s@.len(),
            a <= n,
            out@ + doc_block_from(s@, a as int) == doc_block_from(s@, 0),
        decreases n - a,
    {
        let mut e: usize = a;
        while e < n && s.get_char(e) != '\n'
            invariant
                n == s@.len(),
                a <= e <= n,
                line_end(s@, a as int) == line_end(s@, e as int),
            decreases n - e,
        {
            e += 1;
        }
        let ghost line = s@.subrange(a as int, e as int);
        let mut b: usize = a;
        while b < e && is_whitespace(s.get_char(b))
            invariant
                n == s@.len(),
                a <= b <= e <= n,
                line == s@.subrange(a as int, e as int),
                skip_whitespace(line, 0) == skip_whitespace(line, b - a),
            decreases e - b,
        {
            assert(line[b - a] == s@[b as int]);
            b += 1;
        }
        let ghost t = line.subrange(skip_whitespace(line, 0), line.len() as int) + "\n"@;
        assert(line.subrange(skip_whitespace(line, 0), line.len() as int) =~= s@.subrange(b as int, e as int));
        let ghost before = out@;
        out = out.concat(s.substring_char(b, e)).concat("\n");
        assert(out@ == before + t);
        if e < n {
            assert(before + t + doc_block_from(s@, e + 1) =~= before + (t + doc_block_from(s@, e + 1)));
            a = e + 1;
        } else {
            assert(before + t + doc_block_from(s@, n as int) =~= before + t);
            a = n;
        }
    }
    assert(out@ + doc_block_from(s@, a as int) =~= out@);
    out
}

fn category_section_text(registry: &RuleRegistry, cat: Category) -> (r: String)
    requires
        registry.wf(),
    ensures
        r@ == category_section(registry, cat),
{
    let ids = rules_in_category(registry, cat);
    let mut out = owned("## ").concat(cat.name()).concat("\n\n");
    let docs = doc_block(cat.documentation());
    out = out.concat(docs.as_str()).concat("\n");
    if ids.len() == 0 {
        return out.concat("*No rules in this category.*\n\n");
    }
    let ghost head = out@ + "### Rules in this category\n\n"@;
    out = out.concat("### Rules in this category\n\n");
    let mut k: usize = 0;
    while k < ids.len()
        invariant
            k <= ids@.len(),
            forall|q: int| 0 <= q < ids@.len() ==> registry.contains_id(#[trigger] ids@[q]),
            out@ == head + rule_items(registry, ids@, k as int),
        decreases ids@.len() - k,
    {
        let meta = registry.metadata(ids[k]);
        let ghost before = out@;
        out = out.concat("- [`").concat(meta.name()).concat("`](rule-list.md#").concat(meta.name()).concat(") - ").concat(
            meta.summary.as_str(),
        ).concat("\n");
        assert(out@ =~= before + rule_item(registry, ids@[k as int]));
        assert(head + rule_items(registry, ids@, k + 1) =~= before + rule_item(registry, ids@[k as int]));
        k += 1;
    }
    out
}

/// The categories page: a title, then for each category its name, its
/// documentation with leading white space dropped from every line, and the
/// list of active rules that belong to it.
pub fn generate_markdown(registry: &RuleRegistry) -> (r: String)
    requires
        registry.wf(),
    ensures
        r@ == categories_intro() + category_sections(registry, seq![Category::RuntimeModification, Category::TypeCheckingSuppression], 2),
{
    let cats = all_categories();
    let mut out = owned("# Categories\n\nThis page describes the different categories of type system unsoundness that the checker can detect.\n\n");
    let mut k: usize = 0;
    while k < cats.len()
        invariant
            registry.wf(),
            cats@ == seq![Category::RuntimeModification, Category::TypeCheckingSuppression],
            k <= cats@.len(),
            out@ == categories_intro() + category_sections(registry, cats@, k as int),
        decreases cats@.len() - k,
    {
        let section = category_section_text(registry, cats[k]);
        let ghost before = out@;
        out = out.concat(section.as_str());
        assert(out@ =~= categories_intro() + category_sections(registry, cats@, k + 1));
        k += 1;
    }
    out
}

} // verus!
