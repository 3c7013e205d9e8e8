use vstd::prelude::*;

use crate::alist::{alist_get, alist_has};
use crate::ast::{Stmt, StmtV, stmts_view};
use crate::call_visitor::{CallEntry, CallStateV, CallVisitor, call_entries_view, calls_in_stmts,
    resolve_imports_spec, resolve_variables_spec};
use crate::counts::{counts_view, sum_counts};
use crate::import_visitor::{ImportEntry, ImportStateV, ImportVisitor, import_entries_view,
    import_state_wf, imports_in_stmts, resolve_dynamic_spec, Lexical};
use crate::strutil;
use crate::value::VariableType;
use crate::variable_visitor::{VariableStateV, VariableVisitor, bindings_in_stmts,
    variable_state_wf};

verus! {

/// The empty import state.
pub open spec fn empty_import_state() -> ImportStateV {
    ImportStateV { imports: Seq::empty(), aliases: Seq::empty(), counts: Seq::empty() }
}

/// The empty call state.
pub open spec fn empty_call_state() -> CallStateV {
    CallStateV { entries: Seq::empty(), counts: Seq::empty() }
}

/// The empty binding state.
pub open spec fn empty_variable_state() -> VariableStateV {
    VariableStateV { variables: Seq::empty(), locations: Seq::empty() }
}

/// The bindings a source's statements produce.
pub open spec fn extracted_variables(sv: Seq<StmtV>) -> VariableStateV {
    bindings_in_stmts(empty_variable_state(), sv)
}

/// The import state before dynamic-import discovery.
pub open spec fn extracted_imports(sv: Seq<StmtV>) -> ImportStateV {
    imports_in_stmts(empty_import_state(), sv, Lexical::Global)
}

/// The call records after extraction, alias rewrite, and variable
/// substitution, in traversal order.
pub open spec fn resolved_calls(sv: Seq<StmtV>) -> Seq<crate::call_visitor::CallEntryV> {
    resolve_variables_spec(
        resolve_imports_spec(
            calls_in_stmts(empty_call_state(), sv).entries,
            extracted_imports(sv).aliases,
        ),
        extracted_variables(sv).variables,
    )
}

/// The import state after dynamic-import discovery over the resolved calls.
pub open spec fn resolved_imports(sv: Seq<StmtV>) -> ImportStateV {
    resolve_dynamic_spec(extracted_imports(sv), resolved_calls(sv))
}

/// A fully extracted source file: its text, its line count, and the three
/// record sets the visitors produced, cross-resolved.
#[derive(Debug)]
pub struct SourceFile {
    pub source_path: String,
    pub loc: usize,
    pub source: String,
    pub constants: Vec<String>,
    pub import_visitor: ImportVisitor,
    pub call_visitor: CallVisitor,
    pub variable_visitor: VariableVisitor,
}

/// A source file is consistent: the import and binding states are
/// well-formed, the call counts total the number of records, and the line
/// count is the number of lines of the text.
pub open spec fn source_wf(s: SourceFile) -> bool {
    &&& import_state_wf(s.import_visitor@)
    &&& variable_state_wf(s.variable_visitor@)
    &&& sum_counts(s.call_visitor@.counts) == s.call_visitor@.entries.len()
    &&& s.loc == crate::strutil::split_lines_spec(s.source@).len()
}

impl SourceFile {
    /// Extracts a source record from parsed statements: the three visitors
    /// run in order, calls are rewritten through the aliases, call
    /// arguments through the variable bindings, and dynamic imports are
    /// discovered from the resolved calls.
    pub fn load(source_path: String, source: String, statements: &Vec<Stmt>) -> (r: SourceFile)
        ensures
            source_wf(r),
            r.source_path@ == source_path@,
            r.source@ == source@,
            r.import_visitor@ == resolved_imports(stmts_view(statements@)),
            r.call_visitor@.entries == resolved_calls(stmts_view(statements@)),
            r.call_visitor@.counts == calls_in_stmts(
                empty_call_state(),
                stmts_view(statements@),
            ).counts,
            r.variable_visitor@ == extracted_variables(stmts_view(statements@)),
            r.import_visitor.tfidf_view().len() == 0,
            r.call_visitor.tfidf_view().len() == 0,
    {
        let ghost sv = stmts_view(statements@);
        let lines = strutil::split_lines(source.as_str());
        let loc: usize = lines.len();
        proof {
            assert(crate::strutil::lines_view(lines@).len() == lines@.len());
        }
        let mut variable_visitor = VariableVisitor::new();
        proof {
            assert(variable_visitor@ =~= empty_variable_state());
        }
        variable_visitor.visit_stmts(statements);
        let mut import_visitor = ImportVisitor::new();
        proof {
            assert(import_visitor@ =~= empty_import_state());
        }
        import_visitor.visit_stmts(statements);
        let mut call_visitor = CallVisitor::new();
        proof {
            assert(call_visitor@ =~= empty_call_state());
        }
        call_visitor.visit_stmts(statements);
        call_visitor.resolve_imports(import_visitor.get_aliases());
        call_visitor.resolve_variables(variable_visitor.get_variables());
        import_visitor.resolve_dynamic_imports(call_visitor.get_entries());
        SourceFile {
            source_path,
            loc,
            source,
            constants: Vec::new(),
            import_visitor,
            call_visitor,
            variable_visitor,
        }
    }

    /// The source text.
    pub fn get_source(&self) -> (r: &String)
        ensures
            r == &self.source,
    {
        &self.source
    }

    /// The number of lines of the source text.
    pub fn get_loc(&self) -> (r: usize)
        ensures
            r == self.loc,
    {
        self.loc
    }

    /// The path the source was read from.
    pub fn get_path(&self) -> (r: &str)
        ensures
            r@ == self.source_path@,
    {
        self.source_path.as_str()
    }

    /// The import records.
    pub fn get_imports(&self) -> (r: &Vec<ImportEntry>)
        ensures
            import_entries_view(r@) == self.import_visitor@.imports,
    {
        self.import_visitor.get_imports()
    }

    /// The per-module import counts.
    pub fn get_import_counts(&self) -> (r: &Vec<(String, u64)>)
        ensures
            counts_view(r@) == self.import_visitor@.counts,
    {
        self.import_visitor.get_counts()
    }

    /// Was this module imported?
    pub fn has_import(&self, import: &str) -> (r: bool)
        ensures
            r == alist_has(self.import_visitor@.counts, import@),
    {
        self.import_visitor.has_import(import)
    }

    /// The number of records for one module.
    pub fn get_import_count(&self, import: &str) -> (r: Option<u64>)
        ensures
            (match r {
                Option::Some(c) => Option::Some(c as int),
                Option::None => Option::<int>::None,
            }) == alist_get(self.import_visitor@.counts, import@),
    {
        self.import_visitor.get_count(import)
    }

    /// The import TF-IDF weight, in millionths.
    pub fn get_import_tfidf(&self, import: &str) -> (r: Option<u64>)
        ensures
            (match r {
                Option::Some(c) => Option::Some(c as int),
                Option::None => Option::<int>::None,
            }) == alist_get(self.import_visitor.tfidf_view(), import@),
    {
        self.import_visitor.get_tfidf(import)
    }

    /// Writes the import TF-IDF weight once.
    pub fn set_import_tfidf(&mut self, im: &str, tfidf: u64)
        ensures
            final(self).import_visitor.imports@ == old(self).import_visitor.imports@,
            final(self).import_visitor.aliases@ == old(self).import_visitor.aliases@,
            final(self).import_visitor.count@ == old(self).import_visitor.count@,
            final(self).call_visitor == old(self).call_visitor,
            final(self).variable_visitor == old(self).variable_visitor,
            final(self).source@ == old(self).source@,
            final(self).loc == old(self).loc,
            final(self).import_visitor.tfidf_view() == if alist_has(
                old(self).import_visitor.tfidf_view(),
                im@,
            ) || !alist_has(old(self).import_visitor@.counts, im@) {
                old(self).import_visitor.tfidf_view()
            } else {
                old(self).import_visitor.tfidf_view().push((im@, tfidf as int))
            },
    {
        self.import_visitor.set_tfidf(im, tfidf);
    }

    /// The resolved call records.
    pub fn get_entries(&self) -> (r: &Vec<CallEntry>)
        ensures
            call_entries_view(r@) == self.call_visitor@.entries,
    {
        self.call_visitor.get_entries()
    }

    /// The per-identifier call counts, keyed as extracted.
    pub fn get_call_counts(&self) -> (r: &Vec<(String, u64)>)
        ensures
            counts_view(r@) == self.call_visitor@.counts,
    {
        self.call_visitor.get_counts()
    }

    /// The call TF-IDF weight, in millionths.
    pub fn get_call_tfidf(&self, call: &str) -> (r: Option<u64>)
        ensures
            (match r {
                Option::Some(c) => Option::Some(c as int),
                Option::None => Option::<int>::None,
            }) == alist_get(self.call_visitor.tfidf_view(), call@),
    {
        self.call_visitor.get_tfidf(call)
    }

    /// Writes the call TF-IDF weight once.
    pub fn set_call_tfidf(&mut self, call: &str, tfidf: u64)
        ensures
            final(self).call_visitor.entries@ == old(self).call_visitor.entries@,
            final(self).call_visitor.count@ == old(self).call_visitor.count@,
            final(self).import_visitor == old(self).import_visitor,
            final(self).variable_visitor == old(self).variable_visitor,
            final(self).source@ == old(self).source@,
            final(self).loc == old(self).loc,
            final(self).call_visitor.tfidf_view() == if alist_has(
                old(self).call_visitor.tfidf_view(),
                call@,
            ) || !alist_has(old(self).call_visitor@.counts, call@) {
                old(self).call_visitor.tfidf_view()
            } else {
                old(self).call_visitor.tfidf_view().push((call@, tfidf as int))
            },
    {
        self.call_visitor.set_tfidf(call, tfidf);
    }

    /// Does any call end with the given function name?
    pub fn has_function(&self, function: &str) -> (r: bool)
        ensures
            r == exists|i: int|
                0 <= i < self.call_visitor@.entries.len() && strutil::is_suffix_of(
                    function@,
                    #[trigger] self.call_visitor@.entries[i].full_identifier,
                ),
    {
        self.call_visitor.has_function(function)
    }

    /// The call identifiers joined with `", "`.
    pub fn display_functions(&self) -> (r: String)
        ensures
            r@ == strutil::join_with_spec(
                ", "@,
                Seq::new(
                    self.call_visitor@.entries.len(),
                    |i: int| self.call_visitor@.entries[i].full_identifier,
                ),
            ),
    {
        let entries = self.call_visitor.get_entries();
        let mut names: Vec<String> = Vec::new();
        let n: usize = entries.len();
        let mut i: usize = 0;
        while i < n
            invariant
                n == entries@.len(),
                call_entries_view(entries@) == self.call_visitor@.entries,
                0 <= i <= n,
                names@.len() == i,
                forall|k: int| 0 <= k < i ==> #[trigger] names@[k]@
                    == self.call_visitor@.entries[k].full_identifier,
            decreases n - i,
        {
            names.push(entries[i].full_identifier.clone());
            i = i + 1;
        }
        let r = strutil::join_with(&names, ", ");
        proof {
            assert(strutil::lines_view(names@) =~= Seq::new(
                self.call_visitor@.entries.len(),
                |i: int| self.call_visitor@.entries[i].full_identifier,
            ));
        }
        r
    }

    /// The imported module names joined with `", "`.
    pub fn display_imports(&self) -> (r: String)
        ensures
            r@ == strutil::join_with_spec(
                ", "@,
                Seq::new(
                    self.import_visitor@.counts.len(),
                    |i: int| self.import_visitor@.counts[i].0,
                ),
            ),
    {
        let counts = self.import_visitor.get_counts();
        let mut names: Vec<String> = Vec::new();
        let n: usize = counts.len();
        let mut i: usize = 0;
        while i < n
            invariant
                n == counts@.len(),
                counts_view(counts@) == self.import_visitor@.counts,
                0 <= i <= n,
                names@.len() == i,
                forall|k: int| 0 <= k < i ==> #[trigger] names@[k]@
                    == self.import_visitor@.counts[k].0,
            decreases n - i,
        {
            names.push(counts[i].0.clone());
            i = i + 1;
        }
        let r = strutil::join_with(&names, ", ");
        proof {
            assert(strutil::lines_view(names@) =~= Seq::new(
                self.import_visitor@.counts.len(),
                |i: int| self.import_visitor@.counts[i].0,
            ));
        }
        r
    }
}

/// Every source keeps its import counts in step with its records: the
/// counts in `counts_by_import` total exactly the number of import records.
pub proof fn law_import_counts_total(s: SourceFile)
    requires
        source_wf(s),
    ensures
        sum_counts(s.import_visitor@.counts) == s.import_visitor@.imports.len(),
{
    assert(crate::import_visitor::import_modules(s.import_visitor@.imports).len()
        == s.import_visitor@.imports.len());
}

} // verus!
