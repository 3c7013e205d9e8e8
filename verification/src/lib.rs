//! A static-analysis library that scans Python-like source trees for signs of
//! malicious behaviour.  Imports, call sites and constant string bindings are
//! extracted from a syntax tree, matched against a rule catalog, and reported
//! as bulletins grouped by hotspots of suspicious activity.
//!
//! Scores (rule thresholds, density values, TF-IDF weights) are carried as
//! fixed-point integers in millionths, so that the discrete decision logic --
//! which bulletin is emitted, which hotspot covers it, which bulletin is
//! visible -- is fully verified.  The floating-point kernel-density arithmetic
//! that produces the density curves lives outside the library and hands its
//! samples in through the same fixed-point representation.

pub mod alist;
pub mod analysis;
pub mod ast;
pub mod astutil;
pub mod bulletin;
pub mod call_visitor;
pub mod canary;
pub mod checker;
pub mod config;
pub mod counts;
pub mod density;
pub mod evaluator;
pub mod fixer;
pub mod import_visitor;
pub mod laws;
pub mod location;
pub mod metadata;
pub mod report;
pub mod rules;
pub mod source;
pub mod strutil;
pub mod utils;
pub mod value;
pub mod variable_visitor;
pub mod walker;

pub use analysis::SourceAnalysis;
pub use bulletin::{Bulletin, BulletinReason, Bulletins};
pub use call_visitor::{CallEntry, CallVisitor};
pub use canary::{Canaries, CanaryInfo};
pub use checker::{Checker, CheckResult};
pub use config::Config;
pub use density::{DensityEvent, FieldType, Hotspot};
pub use evaluator::Evaluator;
pub use fixer::ParseErrorFixer;
pub use import_visitor::{ImportEntry, ImportVisitor, Lexical};
pub use location::Location;
pub use metadata::Metadata;
pub use rules::{Functionality, Rule, RuleManager, Rules, RuleSet};
pub use source::SourceFile;
pub use utils::{format_empty_arg, get_last_attr, PackageType};
pub use value::VariableType;
pub use variable_visitor::VariableVisitor;
pub use walker::AstWalker;
