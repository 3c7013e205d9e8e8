use vstd::prelude::*;

use crate::ast::{Stmt, stmts_view};
use crate::call_visitor::{CallVisitor, call_state_wf, calls_in_stmts};
use crate::import_visitor::{ImportVisitor, Lexical, import_state_wf, imports_in_stmts};
use crate::variable_visitor::{VariableVisitor, bindings_in_stmts, variable_state_wf};

verus! {

/// Drives a visitor over a module's statements, depth first and left to
/// right.  Each visitor carries its own recursion, so the walker is one
/// entry point per visitor rather than a dispatch table.
pub struct AstWalker;

impl AstWalker {
    /// Runs the import visitor over the statements, starting in global
    /// context.
    pub fn visit_imports(visitor: &mut ImportVisitor, statements: &Vec<Stmt>)
        requires
            import_state_wf(old(visitor)@),
        ensures
            import_state_wf(final(visitor)@),
            final(visitor)@ == imports_in_stmts(
                old(visitor)@,
                stmts_view(statements@),
                Lexical::Global,
            ),
            final(visitor).tf_idf@ == old(visitor).tf_idf@,
    {
        visitor.visit_stmts(statements);
    }

    /// Runs the call visitor over the statements.
    pub fn visit_calls(visitor: &mut CallVisitor, statements: &Vec<Stmt>)
        requires
            call_state_wf(old(visitor)@),
        ensures
            call_state_wf(final(visitor)@),
            final(visitor)@ == calls_in_stmts(old(visitor)@, stmts_view(statements@)),
            final(visitor).tf_idf@ == old(visitor).tf_idf@,
    {
        visitor.visit_stmts(statements);
    }

    /// Runs the variable visitor over the statements.
    pub fn visit_variables(visitor: &mut VariableVisitor, statements: &Vec<Stmt>)
        requires
            variable_state_wf(old(visitor)@),
        ensures
            variable_state_wf(final(visitor)@),
            final(visitor)@ == bindings_in_stmts(old(visitor)@, stmts_view(statements@)),
    {
        visitor.visit_stmts(statements);
    }
}

} // verus!
