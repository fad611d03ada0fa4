//! A rule engine that finds Python code patterns which a type checker accepts
//! but which can break their declared types at run time.
//!
//! - `rule`, `rules`, `categories`: the rule catalog, its registry of names and
//!   aliases, and the rules this checker knows.
//! - `selection`: which rules run for a run, at which severity, and which
//!   configuration layer decided it.
//! - `diagnostic`, `context`: findings, diagnostics, and the per-file sink whose
//!   guarded emission attaches provenance to each diagnostic exactly once.
//! - `syntax`: a file's syntax tree in source order, with the semantic model's
//!   answers about types attached as plain data.
//! - `annotations`, `expressions`, `functions`, `assignments`, `directives`:
//!   the rule algorithms.
//! - `checker`: one pass over a file's nodes and one over its comments, and the
//!   concatenation of per-file results for a project.
//! - `cli`, `docs`: exit status and per-rule counts of a run; the categories
//!   page of the documentation.
pub mod annotations;
pub mod assignments;
pub mod categories;
pub mod checker;
pub mod cli;
pub mod context;
pub mod diagnostic;
pub mod directives;
pub mod docs;
pub mod expressions;
pub mod functions;
pub mod rule;
pub mod rules;
pub mod selection;
pub mod syntax;
pub mod text;
