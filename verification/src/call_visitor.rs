use vstd::prelude::*;

use crate::alist::{alist_get, alist_has};
use crate::ast::{Expr, ExprKind, ExprKindV, ExprV, FragmentV, KeywordV, Stmt, StmtKind, StmtKindV, StmtV};
use crate::ast::{exprs_view, expr_view, fragments_view, keywords_view, stmt_view, stmts_view};
use crate::astutil::{args_values_of, kwargs_values_of, resolve_args, resolve_kwargs};
use crate::counts::{bump_spec, counts_view, sum_counts};
use crate::location::Location;
use crate::strutil;
use crate::utils::base_identifier_of;
use crate::value::{kw_slots_view, opt_slots_view, ValueV, VariableType};

verus! {

/// One recorded call site: the resolved dotted identifier of the callee, the
/// callee's position, and the shallow values of the arguments.
#[derive(Debug)]
pub struct CallEntry {
    pub full_identifier: String,
    pub location: Location,
    pub args: Vec<Option<VariableType>>,
    pub keywords: Vec<(Option<String>, Option<VariableType>)>,
}

/// The abstract value of a [`CallEntry`].
#[verifier::ext_equal]
pub struct CallEntryV {
    pub full_identifier: Seq<char>,
    pub location: Location,
    pub args: Seq<Option<ValueV>>,
    pub keywords: Seq<(Option<Seq<char>>, Option<ValueV>)>,
}

/// The abstract value of one call record.
pub open spec fn call_entry_view(e: CallEntry) -> CallEntryV {
    CallEntryV {
        full_identifier: e.full_identifier@,
        location: e.location,
        args: opt_slots_view(e.args@),
        keywords: kw_slots_view(e.keywords@),
    }
}

/// The abstract values of a list of call records.
pub open spec fn call_entries_view(s: Seq<CallEntry>) -> Seq<CallEntryV> {
    Seq::new(s.len(), |i: int| call_entry_view(s[i]))
}

impl CallEntry {
    /// The portion of the dotted identifier before the first `.`; the whole
    /// identifier when it holds none.
    pub fn get_base_identifier(&self) -> (r: &str)
        ensures
            r@ == base_identifier_of(self.full_identifier@),
    {
        match strutil::find_first(self.full_identifier.as_str(), '.') {
            Option::Some(i) => self.full_identifier.as_str().substring_char(0, i),
            Option::None => self.full_identifier.as_str(),
        }
    }

    /// The full dotted identifier of the callee.
    pub fn get_identifier(&self) -> (r: &String)
        ensures
            r == &self.full_identifier,
    {
        &self.full_identifier
    }
}

/// The resolved identifier of a callee expression: a name, a dotted chain
/// over a resolvable base, or the `"*"` placeholder for a callee that is
/// itself a call.  Any other shape has no identifier.
pub open spec fn call_ident_of(e: ExprV) -> Option<Seq<char>>
    decreases e,
{
    match e.kind {
        ExprKindV::Identifier { name } => Option::Some(name),
        ExprKindV::Attribute { base, name } => match call_ident_of(*base) {
            Option::Some(b) => Option::Some(b + seq!['.'] + name),
            Option::None => Option::None,
        },
        ExprKindV::Call { .. } => Option::Some(seq!['*']),
        _ => Option::None,
    }
}

/// Resolves the identifier a callee expression stands for.
pub fn get_absolute_identifier(expr: &Expr) -> (r: Option<String>)
    ensures
        (match r {
            Option::Some(s) => Option::Some(s@),
            Option::None => Option::None,
        }) == call_ident_of(expr_view(*expr)),
    decreases *expr,
{
    match &expr.kind {
        ExprKind::Identifier { name } => Some(name.clone()),
        ExprKind::Attribute { base, name } => match get_absolute_identifier(base) {
            Some(b) => {
                let mut s = b;
                s.append(".");
                s.append(name.as_str());
                proof {
                    reveal_strlit(".");
                    assert("."@ =~= seq!['.']);
                }
                Some(s)
            },
            None => None,
        },
        ExprKind::Call { .. } => {
            proof {
                reveal_strlit("*");
                assert("*"@ =~= seq!['*']);
            }
            Some(String::from_str("*"))
        },
        _ => None,
    }
}

/// The evolving state of call extraction: the records in traversal order and
/// the occurrence count of each identifier.
#[verifier::ext_equal]
pub struct CallStateV {
    pub entries: Seq<CallEntryV>,
    pub counts: Seq<(Seq<char>, int)>,
}

/// The identifiers of the recorded calls, in order.
pub open spec fn call_idents(entries: Seq<CallEntryV>) -> Seq<Seq<char>> {
    Seq::new(entries.len(), |i: int| entries[i].full_identifier)
}

/// The extraction state is consistent: the count table matches the recorded
/// identifiers (see [`crate::counts::table_wf`]).
pub open spec fn call_state_wf(st: CallStateV) -> bool {
    crate::counts::table_wf(call_idents(st.entries), st.counts)
}

/// The state after recording one call.
pub open spec fn add_call_spec(st: CallStateV, e: CallEntryV) -> CallStateV {
    CallStateV { entries: st.entries.push(e), counts: bump_spec(st.counts, e.full_identifier) }
}

/// The record produced for a call expression whose callee resolved to `f`.
pub open spec fn call_record_of(f: Seq<char>, func: ExprV, args: Seq<ExprV>, kws: Seq<KeywordV>)
    -> CallEntryV {
    CallEntryV {
        full_identifier: f,
        location: func.location,
        args: args_values_of(args),
        keywords: kwargs_values_of(kws),
    }
}

/// Call extraction over one expression, depth first.
pub open spec fn calls_in_expr(st: CallStateV, e: ExprV) -> CallStateV
    decreases e,
{
    match e.kind {
        ExprKindV::Call { func, args, keywords } => {
            let st1 = match call_ident_of(*func) {
                Option::Some(f) => add_call_spec(st, call_record_of(f, *func, args, keywords)),
                Option::None => st,
            };
            let st2 = calls_in_expr(st1, *func);
            let st3 = calls_in_exprs(st2, args);
            calls_in_keywords(st3, keywords)
        },
        ExprKindV::Attribute { base, name } => calls_in_expr(st, *base),
        ExprKindV::BinOp { left, op, right } => calls_in_expr(calls_in_expr(st, *left), *right),
        ExprKindV::List { items } => calls_in_exprs(st, items),
        ExprKindV::Other { children } => calls_in_fragments(st, children),
        _ => st,
    }
}

/// Call extraction over a list of expressions, left to right.
pub open spec fn calls_in_exprs(st: CallStateV, es: Seq<ExprV>) -> CallStateV
    decreases es,
{
    if es.len() == 0 {
        st
    } else {
        calls_in_expr(calls_in_exprs(st, es.subrange(0, es.len() - 1)), es[es.len() - 1])
    }
}

/// Call extraction over keyword values, left to right.
pub open spec fn calls_in_keywords(st: CallStateV, ks: Seq<KeywordV>) -> CallStateV
    decreases ks,
{
    if ks.len() == 0 {
        st
    } else {
        calls_in_expr(calls_in_keywords(st, ks.subrange(0, ks.len() - 1)), ks[ks.len() - 1].value)
    }
}

/// Call extraction over one statement.
pub open spec fn calls_in_stmt(st: CallStateV, s: StmtV) -> CallStateV
    decreases s,
{
    match s.kind {
        StmtKindV::Assign { targets, value } => calls_in_expr(calls_in_exprs(st, targets), value),
        StmtKindV::AugAssign { target, op, value } => calls_in_expr(calls_in_expr(st, target), value),
        StmtKindV::Expr { value } => calls_in_expr(st, value),
        StmtKindV::FunctionDef { name, body, rest } => calls_in_exprs(calls_in_stmts(st, body), rest),
        StmtKindV::ClassDef { name, body, rest } => calls_in_exprs(calls_in_stmts(st, body), rest),
        StmtKindV::Other { children } => calls_in_fragments(st, children),
        _ => st,
    }
}

/// Call extraction over a list of statements.
pub open spec fn calls_in_stmts(st: CallStateV, ss: Seq<StmtV>) -> CallStateV
    decreases ss,
{
    if ss.len() == 0 {
        st
    } else {
        calls_in_stmt(calls_in_stmts(st, ss.subrange(0, ss.len() - 1)), ss[ss.len() - 1])
    }
}

/// Call extraction over mixed fragments.
pub open spec fn calls_in_fragments(st: CallStateV, fs: Seq<FragmentV>) -> CallStateV
    decreases fs,
{
    if fs.len() == 0 {
        st
    } else {
        let prev = calls_in_fragments(st, fs.subrange(0, fs.len() - 1));
        match fs[fs.len() - 1] {
            FragmentV::Expr(e) => calls_in_expr(prev, e),
            FragmentV::Stmt(t) => calls_in_stmt(prev, t),
        }
    }
}

/// Collects the call records of a syntax tree.
#[derive(Debug)]
pub struct CallVisitor {
    pub entries: Vec<CallEntry>,
    pub count: Vec<(String, u64)>,
    pub tf_idf: Vec<(String, u64)>,
}

impl View for CallVisitor {
    type V = CallStateV;

    open spec fn view(&self) -> CallStateV {
        CallStateV { entries: call_entries_view(self.entries@), counts: counts_view(self.count@) }
    }
}

impl CallVisitor {
    /// The TF-IDF slots, as key/value pairs in millionths.
    pub open spec fn tfidf_view(&self) -> Seq<(Seq<char>, int)> {
        counts_view(self.tf_idf@)
    }

    pub fn new() -> (r: Self)
        ensures
            r@.entries.len() == 0,
            r@.counts.len() == 0,
            r.tfidf_view().len() == 0,
            call_state_wf(r@),
    {
        let r = CallVisitor { entries: Vec::new(), count: Vec::new(), tf_idf: Vec::new() };
        proof {
            assert(r@.entries =~= Seq::<CallEntryV>::empty());
            assert(r@.counts =~= Seq::<(Seq<char>, int)>::empty());
            assert(r.tfidf_view() =~= Seq::<(Seq<char>, int)>::empty());
        }
        r
    }

    /// Does any recorded call end with the given function name?
    pub fn has_function(&self, function: &str) -> (r: bool)
        ensures
            r == exists|i: int|
                0 <= i < self@.entries.len() && strutil::is_suffix_of(
                    function@,
                    #[trigger] self@.entries[i].full_identifier,
                ),
    {
        let n: usize = self.entries.len();
        let mut i: usize = 0;
        while i < n
            invariant
                n == self.entries@.len(),
                0 <= i <= n,
                forall|j: int| 0 <= j < i ==> !strutil::is_suffix_of(
                    function@,
                    #[trigger] call_entries_view(self.entries@)[j].full_identifier,
                ),
            decreases n - i,
        {
            if strutil::ends_with(self.entries[i].full_identifier.as_str(), function) {
                proof {
                    assert(call_entries_view(self.entries@)[i as int].full_identifier
                        == self.entries@[i as int].full_identifier@);
                    assert((i as int) < self@.entries.len());
                    assert(strutil::is_suffix_of(
                        function@,
                        self@.entries[i as int].full_identifier,
                    ));
                }
                return true;
            }
            i = i + 1;
        }
        false
    }

    /// The count table of recorded identifiers.
    pub fn get_counts(&self) -> (r: &Vec<(String, u64)>)
        ensures
            counts_view(r@) == self@.counts,
    {
        &self.count
    }

    /// The recorded TF-IDF weight of a call identifier, in millionths.
    pub fn get_tfidf(&self, call: &str) -> (r: Option<u64>)
        ensures
            (match r {
                Option::Some(c) => Option::Some(c as int),
                Option::None => Option::<int>::None,
            }) == alist_get(self.tfidf_view(), call@),
    {
        crate::counts::lookup_count(&self.tf_idf, call)
    }

    /// Writes the TF-IDF weight for a call identifier once.  A later write
    /// for the same identifier is ignored, and so is an identifier that was
    /// never counted: the slots exist exactly for the counted identifiers.
    pub fn set_tfidf(&mut self, call: &str, tfidf: u64)
        ensures
            final(self).entries@ == old(self).entries@,
            final(self).count@ == old(self).count@,
            final(self).tfidf_view() == if alist_has(old(self).tfidf_view(), call@) || !alist_has(
                old(self)@.counts,
                call@,
            ) {
                old(self).tfidf_view()
            } else {
                old(self).tfidf_view().push((call@, tfidf as int))
            },
    {
        if !crate::counts::contains_count(&self.tf_idf, call) && crate::counts::contains_count(
            &self.count,
            call,
        ) {
            self.tf_idf.push((String::from_str(call), tfidf));
            proof {
                assert(self.tfidf_view() =~= old(self).tfidf_view().push((call@, tfidf as int)));
            }
        }
    }

    /// The recorded call entries, in traversal order.
    pub fn get_entries(&self) -> (r: &Vec<CallEntry>)
        ensures
            call_entries_view(r@) == self@.entries,
    {
        &self.entries
    }

    /// Records one call and counts its identifier.
    fn add_call_entry(&mut self, entry: CallEntry)
        requires
            call_state_wf(old(self)@),
        ensures
            call_state_wf(final(self)@),
            final(self)@ == add_call_spec(old(self)@, call_entry_view(entry)),
            final(self).tf_idf@ == old(self).tf_idf@,
    {
        let ghost st0 = self@;
        let ghost ev = call_entry_view(entry);
        proof {
            crate::counts::lemma_table_wf_bound(call_idents(st0.entries), st0.counts, ev.full_identifier);
        }
        let ident = entry.full_identifier.clone();
        self.entries.push(entry);
        let bound: usize = self.entries.len();
        proof {
            assert(call_idents(call_entries_view(self.entries@)) =~= call_idents(st0.entries).push(
                ev.full_identifier,
            ));
            crate::counts::lemma_count_key_bounds(call_idents(st0.entries), ev.full_identifier);
        }
        crate::counts::bump_count(&mut self.count, ident.as_str(), bound);
        proof {
            crate::counts::lemma_table_wf_add(call_idents(st0.entries), st0.counts, ev.full_identifier);
            assert(self@.entries =~= st0.entries.push(ev));
            assert(self@ =~= add_call_spec(st0, ev));
        }
    }

    /// Records every call under one expression, depth first.
    #[verifier::loop_isolation(false)]
    pub fn visit_expr(&mut self, e: &Expr)
        requires
            call_state_wf(old(self)@),
        ensures
            call_state_wf(final(self)@),
            final(self)@ == calls_in_expr(old(self)@, expr_view(*e)),
            final(self).tf_idf@ == old(self).tf_idf@,
        decreases *e,
    {
        match &e.kind {
            ExprKind::Call { func, args, keywords } => {
                let ghost ev = expr_view(*e);
                match get_absolute_identifier(func) {
                    Some(f) => {
                        let args_v = resolve_args(args);
                        let kw_v = resolve_kwargs(keywords);
                        let entry = CallEntry {
                            full_identifier: f,
                            location: func.location,
                            args: args_v,
                            keywords: kw_v,
                        };
                        proof {
                            assert(call_entry_view(entry) =~= call_record_of(
                                entry.full_identifier@,
                                expr_view(**func),
                                exprs_view(args@),
                                keywords_view(keywords@),
                            ));
                        }
                        self.add_call_entry(entry);
                    },
                    None => {},
                }
                proof {
                    assert(decreases_to!(*e => *func));
                }
                self.visit_expr(func);
                let ghost st_f = self@;
                let n: usize = args.len();
                let mut i: usize = 0;
                while i < n
                    invariant
                        call_state_wf(self@),
                        0 <= i <= n,
                        self@ == calls_in_exprs(st_f, exprs_view(args@).subrange(0, i as int)),
                        self.tf_idf@ == old(self).tf_idf@,
                    decreases n - i,
                {
                    proof {
                        crate::ast::lemma_exprs_view_index(args@, i as int);
                        assert(decreases_to!(*e => args@[i as int]));
                    }
                    self.visit_expr(&args[i]);
                    proof {
                        let sv = exprs_view(args@);
                        assert(sv.subrange(0, i + 1).subrange(0, i as int) =~= sv.subrange(
                            0,
                            i as int,
                        ));
                        assert(sv.subrange(0, i + 1)[i as int] == sv[i as int]);
                    }
                    i = i + 1;
                }
                proof {
                    crate::ast::lemma_exprs_view_len(args@);
                    assert(exprs_view(args@).subrange(0, n as int) =~= exprs_view(args@));
                }
                let ghost st_a = self@;
                let m: usize = keywords.len();
                let mut j: usize = 0;
                while j < m
                    invariant
                        call_state_wf(self@),
                        0 <= j <= m,
                        self@ == calls_in_keywords(st_a, keywords_view(keywords@).subrange(0, j as int)),
                        self.tf_idf@ == old(self).tf_idf@,
                    decreases m - j,
                {
                    proof {
                        crate::ast::lemma_keywords_view_index(keywords@, j as int);
                        assert(decreases_to!(*e => keywords@[j as int].value));
                    }
                    self.visit_expr(&keywords[j].value);
                    proof {
                        let kv = keywords_view(keywords@);
                        assert(kv.subrange(0, j + 1).subrange(0, j as int) =~= kv.subrange(
                            0,
                            j as int,
                        ));
                        assert(kv.subrange(0, j + 1)[j as int] == kv[j as int]);
                    }
                    j = j + 1;
                }
                proof {
                    crate::ast::lemma_keywords_view_len(keywords@);
                    assert(keywords_view(keywords@).subrange(0, m as int) =~= keywords_view(
                        keywords@,
                    ));
                }
            },
            ExprKind::Attribute { base, name } => {
                proof {
                    assert(decreases_to!(*e => *base));
                }
                self.visit_expr(base);
            },
            ExprKind::BinOp { left, op, right } => {
                proof {
                    assert(decreases_to!(*e => *left));
                }
                self.visit_expr(left);
                proof {
                    assert(decreases_to!(*e => *right));
                }
                self.visit_expr(right);
            },
            ExprKind::List { items } => {
                let ghost st0 = self@;
                let n: usize = items.len();
                let mut i: usize = 0;
                while i < n
                    invariant
                        call_state_wf(self@),
                        0 <= i <= n,
                        self@ == calls_in_exprs(st0, exprs_view(items@).subrange(0, i as int)),
                        self.tf_idf@ == old(self).tf_idf@,
                    decreases n - i,
                {
                    proof {
                        crate::ast::lemma_exprs_view_index(items@, i as int);
                        assert(decreases_to!(*e => items@[i as int]));
                    }
                    self.visit_expr(&items[i]);
                    proof {
                        let sv = exprs_view(items@);
                        assert(sv.subrange(0, i + 1).subrange(0, i as int) =~= sv.subrange(
                            0,
                            i as int,
                        ));
                        assert(sv.subrange(0, i + 1)[i as int] == sv[i as int]);
                    }
                    i = i + 1;
                }
                proof {
                    crate::ast::lemma_exprs_view_len(items@);
                    assert(exprs_view(items@).subrange(0, n as int) =~= exprs_view(items@));
                }
            },
            ExprKind::Other { children } => {
                let ghost st0 = self@;
                let n: usize = children.len();
                let mut i: usize = 0;
                while i < n
                    invariant
                        call_state_wf(self@),
                        0 <= i <= n,
                        self@ == calls_in_fragments(st0, fragments_view(children@).subrange(0, i as int)),
                        self.tf_idf@ == old(self).tf_idf@,
                    decreases n - i,
                {
                    proof {
                        crate::ast::lemma_fragments_view_index(children@, i as int);
                    }
                    match &children[i] {
                        crate::ast::Fragment::Expr(e2) => {
                            proof {
                                assert(decreases_to!(*e => children@[i as int]));
                                assert(decreases_to!(children@[i as int] => children@[i as int]->Expr_0));
                            }
                            self.visit_expr(e2);
                        },
                        crate::ast::Fragment::Stmt(t2) => {
                            proof {
                                assert(decreases_to!(*e => children@[i as int]));
                                assert(decreases_to!(children@[i as int] => children@[i as int]->Stmt_0));
                            }
                            self.visit_stmt(t2);
                        },
                    }
                    proof {
                        let fv = fragments_view(children@);
                        assert(fv.subrange(0, i + 1).subrange(0, i as int) =~= fv.subrange(
                            0,
                            i as int,
                        ));
                        assert(fv.subrange(0, i + 1)[i as int] == fv[i as int]);
                    }
                    i = i + 1;
                }
                proof {
                    crate::ast::lemma_fragments_view_len(children@);
                    assert(fragments_view(children@).subrange(0, n as int) =~= fragments_view(
                        children@,
                    ));
                }
            },
            ExprKind::Identifier { .. } => {},
            ExprKind::Str { .. } => {},
        }
    }

    /// Records every call under one statement.
    #[verifier::loop_isolation(false)]
    pub fn visit_stmt(&mut self, s: &Stmt)
        requires
            call_state_wf(old(self)@),
        ensures
            call_state_wf(final(self)@),
            final(self)@ == calls_in_stmt(old(self)@, stmt_view(*s)),
            final(self).tf_idf@ == old(self).tf_idf@,
        decreases *s,
    {
        match &s.kind {
            StmtKind::Assign { targets, value } => {
                let ghost st0 = self@;
                let n: usize = targets.len();
                let mut i: usize = 0;
                while i < n
                    invariant
                        call_state_wf(self@),
                        0 <= i <= n,
                        self@ == calls_in_exprs(st0, exprs_view(targets@).subrange(0, i as int)),
                        self.tf_idf@ == old(self).tf_idf@,
                    decreases n - i,
                {
                    proof {
                        crate::ast::lemma_exprs_view_index(targets@, i as int);
                        assert(decreases_to!(*s => targets@[i as int]));
                    }
                    self.visit_expr(&targets[i]);
                    proof {
                        let sv = exprs_view(targets@);
                        assert(sv.subrange(0, i + 1).subrange(0, i as int) =~= sv.subrange(
                            0,
                            i as int,
                        ));
                        assert(sv.subrange(0, i + 1)[i as int] == sv[i as int]);
                    }
                    i = i + 1;
                }
                proof {
                    crate::ast::lemma_exprs_view_len(targets@);
                    assert(exprs_view(targets@).subrange(0, n as int) =~= exprs_view(targets@));
                }
                proof {
                    assert(decreases_to!(*s => s.kind));
                    assert(decreases_to!(s.kind => s.kind->Assign_value));
                }
                self.visit_expr(value);
            },
            StmtKind::AugAssign { target, op, value } => {
                proof {
                    assert(decreases_to!(*s => s.kind));
                    assert(decreases_to!(s.kind => s.kind->AugAssign_target));
                }
                self.visit_expr(target);
                proof {
                    assert(decreases_to!(*s => s.kind));
                    assert(decreases_to!(s.kind => s.kind->AugAssign_value));
                }
                self.visit_expr(value);
            },
            StmtKind::Expr { value } => {
                proof {
                    assert(decreases_to!(*s => s.kind));
                    assert(decreases_to!(s.kind => s.kind->Expr_value));
                }
                self.visit_expr(value);
            },
            StmtKind::FunctionDef { name, body, rest } => {
                self.walk_body_then_rest(s, body, rest);
            },
            StmtKind::ClassDef { name, body, rest } => {
                self.walk_body_then_rest(s, body, rest);
            },
            StmtKind::Other { children } => {
                let ghost st0 = self@;
                let n: usize = children.len();
                let mut i: usize = 0;
                while i < n
                    invariant
                        call_state_wf(self@),
                        0 <= i <= n,
                        self@ == calls_in_fragments(st0, fragments_view(children@).subrange(0, i as int)),
                        self.tf_idf@ == old(self).tf_idf@,
                    decreases n - i,
                {
                    proof {
                        crate::ast::lemma_fragments_view_index(children@, i as int);
                    }
                    match &children[i] {
                        crate::ast::Fragment::Expr(e2) => {
                            proof {
                                assert(decreases_to!(*s => children@[i as int]));
                                assert(decreases_to!(children@[i as int] => children@[i as int]->Expr_0));
                            }
                            self.visit_expr(e2);
                        },
                        crate::ast::Fragment::Stmt(t2) => {
                            proof {
                                assert(decreases_to!(*s => children@[i as int]));
                                assert(decreases_to!(children@[i as int] => children@[i as int]->Stmt_0));
                            }
                            self.visit_stmt(t2);
                        },
                    }
                    proof {
                        let fv = fragments_view(children@);
                        assert(fv.subrange(0, i + 1).subrange(0, i as int) =~= fv.subrange(
                            0,
                            i as int,
                        ));
                        assert(fv.subrange(0, i + 1)[i as int] == fv[i as int]);
                    }
                    i = i + 1;
                }
                proof {
                    crate::ast::lemma_fragments_view_len(children@);
                    assert(fragments_view(children@).subrange(0, n as int) =~= fragments_view(
                        children@,
                    ));
                }
            },
            StmtKind::Import { .. } => {},
            StmtKind::ImportFrom { .. } => {},
        }
    }

    /// Walks a definition's body, then its remaining expressions.
    #[verifier::loop_isolation(false)]
    fn walk_body_then_rest(&mut self, parent: &Stmt, body: &Vec<Stmt>, rest: &Vec<Expr>)
        requires
            call_state_wf(old(self)@),
            decreases_to!(*parent => body@),
            decreases_to!(*parent => rest@),
        ensures
            call_state_wf(final(self)@),
            final(self)@ == calls_in_exprs(
                calls_in_stmts(old(self)@, stmts_view(body@)),
                exprs_view(rest@),
            ),
            final(self).tf_idf@ == old(self).tf_idf@,
        decreases *parent, 0int,
    {
        let ghost st0 = self@;
        let n: usize = body.len();
        let mut i: usize = 0;
        while i < n
            invariant
                call_state_wf(self@),
                0 <= i <= n,
                self@ == calls_in_stmts(st0, stmts_view(body@).subrange(0, i as int)),
                self.tf_idf@ == old(self).tf_idf@,
            decreases n - i,
        {
            proof {
                crate::ast::lemma_stmts_view_index(body@, i as int);
                assert(decreases_to!(body@ => body@[i as int]));
            }
            self.visit_stmt(&body[i]);
            proof {
                let sv = stmts_view(body@);
                assert(sv.subrange(0, i + 1).subrange(0, i as int) =~= sv.subrange(0, i as int));
                assert(sv.subrange(0, i + 1)[i as int] == sv[i as int]);
            }
            i = i + 1;
        }
        proof {
            crate::ast::lemma_stmts_view_len(body@);
            assert(stmts_view(body@).subrange(0, n as int) =~= stmts_view(body@));
        }
        let ghost st_b = self@;
        let m: usize = rest.len();
        let mut j: usize = 0;
        while j < m
            invariant
                call_state_wf(self@),
                0 <= j <= m,
                self@ == calls_in_exprs(st_b, exprs_view(rest@).subrange(0, j as int)),
                self.tf_idf@ == old(self).tf_idf@,
            decreases m - j,
        {
            proof {
                crate::ast::lemma_exprs_view_index(rest@, j as int);
                assert(decreases_to!(rest@ => rest@[j as int]));
            }
            self.visit_expr(&rest[j]);
            proof {
                let sv = exprs_view(rest@);
                assert(sv.subrange(0, j + 1).subrange(0, j as int) =~= sv.subrange(0, j as int));
                assert(sv.subrange(0, j + 1)[j as int] == sv[j as int]);
            }
            j = j + 1;
        }
        proof {
            crate::ast::lemma_exprs_view_len(rest@);
            assert(exprs_view(rest@).subrange(0, m as int) =~= exprs_view(rest@));
        }
    }

    /// Records every call in a module's statements, in source order.
    #[verifier::loop_isolation(false)]
    pub fn visit_stmts(&mut self, stmts: &Vec<Stmt>)
        requires
            call_state_wf(old(self)@),
        ensures
            call_state_wf(final(self)@),
            final(self)@ == calls_in_stmts(old(self)@, stmts_view(stmts@)),
            final(self).tf_idf@ == old(self).tf_idf@,
    {
        let ghost st0 = self@;
        let n: usize = stmts.len();
        let mut i: usize = 0;
        while i < n
            invariant
                call_state_wf(self@),
                0 <= i <= n,
                self@ == calls_in_stmts(st0, stmts_view(stmts@).subrange(0, i as int)),
                self.tf_idf@ == old(self).tf_idf@,
            decreases n - i,
        {
            proof {
                crate::ast::lemma_stmts_view_index(stmts@, i as int);
            }
            self.visit_stmt(&stmts[i]);
            proof {
                let sv = stmts_view(stmts@);
                assert(sv.subrange(0, i + 1).subrange(0, i as int) =~= sv.subrange(0, i as int));
                assert(sv.subrange(0, i + 1)[i as int] == sv[i as int]);
            }
            i = i + 1;
        }
        proof {
            crate::ast::lemma_stmts_view_len(stmts@);
            assert(stmts_view(stmts@).subrange(0, n as int) =~= stmts_view(stmts@));
        }
    }
}

/// The identifier after the alias rewrite: when the base identifier (before
/// the first `.`) is an alias, the alias target replaces it and the dotted
/// suffix is kept.
pub open spec fn rewrite_identifier(
    aliases: Seq<(Seq<char>, Seq<char>)>,
    full: Seq<char>,
) -> Seq<char> {
    match alist_get(aliases, base_identifier_of(full)) {
        Option::Some(target) => match crate::strutil::first_index_of(full, '.') {
            Option::Some(i) => target + full.subrange(i, full.len() as int),
            Option::None => target,
        },
        Option::None => full,
    }
}

/// One call record after the alias rewrite.
pub open spec fn rewrite_entry(aliases: Seq<(Seq<char>, Seq<char>)>, e: CallEntryV) -> CallEntryV {
    CallEntryV { full_identifier: rewrite_identifier(aliases, e.full_identifier), ..e }
}

/// All call records after the alias rewrite.
pub open spec fn resolve_imports_spec(
    entries: Seq<CallEntryV>,
    aliases: Seq<(Seq<char>, Seq<char>)>,
) -> Seq<CallEntryV> {
    Seq::new(entries.len(), |i: int| rewrite_entry(aliases, entries[i]))
}

/// One argument slot after variable substitution: an identifier bound in
/// the variable table is replaced by its value.
pub open spec fn subst_slot(
    vars: Seq<(Seq<char>, ValueV)>,
    slot: Option<ValueV>,
) -> Option<ValueV> {
    match slot {
        Option::Some(ValueV::Identifier(n)) => match alist_get(vars, n) {
            Option::Some(v) => Option::Some(v),
            Option::None => slot,
        },
        _ => slot,
    }
}

/// One call record after variable substitution in its argument slots.
pub open spec fn subst_entry(vars: Seq<(Seq<char>, ValueV)>, e: CallEntryV) -> CallEntryV {
    CallEntryV {
        args: Seq::new(e.args.len(), |i: int| subst_slot(vars, e.args[i])),
        keywords: Seq::new(
            e.keywords.len(),
            |i: int| (e.keywords[i].0, subst_slot(vars, e.keywords[i].1)),
        ),
        ..e
    }
}

/// All call records after variable substitution.
pub open spec fn resolve_variables_spec(
    entries: Seq<CallEntryV>,
    vars: Seq<(Seq<char>, ValueV)>,
) -> Seq<CallEntryV> {
    Seq::new(entries.len(), |i: int| subst_entry(vars, entries[i]))
}

fn placeholder_entry() -> (r: CallEntry)
{
    CallEntry {
        full_identifier: String::new(),
        location: Location { row: 0, column: 0 },
        args: Vec::new(),
        keywords: Vec::new(),
    }
}

impl CallVisitor {
    /// Rewrites each record whose base identifier is an alias, replacing
    /// the base with the alias target.
    #[verifier::loop_isolation(false)]
    pub fn resolve_imports(&mut self, aliases: &Vec<(String, String)>)
        ensures
            final(self)@.entries == resolve_imports_spec(
                old(self)@.entries,
                crate::import_visitor::string_pairs_view(aliases@),
            ),
            final(self)@.counts == old(self)@.counts,
            final(self).tf_idf@ == old(self).tf_idf@,
    {
        let ghost av = crate::import_visitor::string_pairs_view(aliases@);
        let ghost e0 = self@.entries;
        let n: usize = self.entries.len();
        let mut i: usize = 0;
        while i < n
            invariant
                n == self.entries@.len(),
                0 <= i <= n,
                self.count@ == old(self).count@,
                self.tf_idf@ == old(self).tf_idf@,
                forall|k: int| i <= k < n ==> #[trigger] call_entries_view(self.entries@)[k]
                    == e0[k],
                forall|k: int| 0 <= k < i ==> #[trigger] call_entries_view(self.entries@)[k]
                    == rewrite_entry(av, e0[k]),
            decreases n - i,
        {
            let ghost pre = self.entries@;
            proof {
                assert(call_entries_view(self.entries@)[i as int] == e0[i as int]);
            }
            let new_full: Option<String> = {
                let e = &self.entries[i];
                proof {
                    assert(call_entry_view(*e) == e0[i as int]);
                }
                let base = e.get_base_identifier();
                match crate::import_visitor::alias_get(aliases, base) {
                    Some(target) => {
                        let mut nf = target.clone();
                        let full = e.full_identifier.as_str();
                        match strutil::find_first(full, '.') {
                            Some(d) => {
                                let len: usize = full.unicode_len();
                                nf.append(full.substring_char(d, len));
                            },
                            None => {},
                        }
                        proof {
                            assert(nf@ == rewrite_identifier(av, e0[i as int].full_identifier));
                        }
                        Some(nf)
                    },
                    None => {
                        proof {
                            assert(e0[i as int].full_identifier == rewrite_identifier(
                                av,
                                e0[i as int].full_identifier,
                            ));
                        }
                        None
                    },
                }
            };
            match new_full {
                Some(nf) => {
                    let mut tmp = placeholder_entry();
                    self.entries.set_and_swap(i, &mut tmp);
                    tmp.full_identifier = nf;
                    self.entries.set_and_swap(i, &mut tmp);
                    proof {
                        assert(forall|k: int| 0 <= k < n && k != i ==> self.entries@[k]
                            == pre[k]);
                        assert(call_entries_view(self.entries@)[i as int] =~= rewrite_entry(
                            av,
                            e0[i as int],
                        ));
                        assert forall|k: int| 0 <= k < n && k != i implies #[trigger]
                            call_entries_view(self.entries@)[k] == call_entries_view(pre)[k] by {
                            assert(self.entries@[k] == pre[k]);
                        }
                    }
                },
                None => {
                    proof {
                        assert(call_entries_view(self.entries@)[i as int] =~= rewrite_entry(
                            av,
                            e0[i as int],
                        ));
                    }
                },
            }
            i = i + 1;
        }
        proof {
            assert(call_entries_view(self.entries@) =~= resolve_imports_spec(e0, av));
        }
    }

    /// Replaces identifier-valued argument slots by the values bound to
    /// those identifiers.
    #[verifier::loop_isolation(false)]
    pub fn resolve_variables(&mut self, variables: &Vec<(String, VariableType)>)
        ensures
            final(self)@.entries == resolve_variables_spec(
                old(self)@.entries,
                crate::variable_visitor::var_pairs_view(variables@),
            ),
            final(self)@.counts == old(self)@.counts,
            final(self).tf_idf@ == old(self).tf_idf@,
    {
        let ghost vv = crate::variable_visitor::var_pairs_view(variables@);
        let ghost e0 = self@.entries;
        let n: usize = self.entries.len();
        let mut i: usize = 0;
        while i < n
            invariant
                n == self.entries@.len(),
                0 <= i <= n,
                self.count@ == old(self).count@,
                self.tf_idf@ == old(self).tf_idf@,
                forall|k: int| i <= k < n ==> #[trigger] call_entries_view(self.entries@)[k]
                    == e0[k],
                forall|k: int| 0 <= k < i ==> #[trigger] call_entries_view(self.entries@)[k]
                    == subst_entry(vv, e0[k]),
            decreases n - i,
        {
            let ghost pre = self.entries@;
            let mut tmp = placeholder_entry();
            self.entries.set_and_swap(i, &mut tmp);
            let ghost orig = call_entry_view(tmp);
            proof {
                assert(call_entries_view(pre)[i as int] == e0[i as int]);
                assert(orig == e0[i as int]);
                crate::value::lemma_opt_slots_view_len(tmp.args@);
            }
            proof {
                assert forall|k: int| 0 <= k < tmp.args@.len() implies #[trigger]
                    crate::value::opt_slot_view(tmp.args@[k]) == orig.args[k] by {
                    crate::value::lemma_opt_slots_view_index(tmp.args@, k);
                }
            }
            let na: usize = tmp.args.len();
            let mut j: usize = 0;
            while j < na
                invariant
                    na == tmp.args@.len(),
                    0 <= j <= na,
                    tmp.full_identifier@ == orig.full_identifier,
                    tmp.location == orig.location,
                    crate::value::kw_slots_view(tmp.keywords@) == orig.keywords,
                    na == orig.args.len(),
                    forall|k: int| j <= k < na ==> #[trigger] crate::value::opt_slot_view(
                        tmp.args@[k],
                    ) == orig.args[k],
                    forall|k: int| 0 <= k < j ==> #[trigger] crate::value::opt_slot_view(
                        tmp.args@[k],
                    ) == subst_slot(vv, orig.args[k]),
                decreases na - j,
            {
                let new_slot = subst_one(variables, &tmp.args[j]);
                tmp.args.set(j, new_slot);
                j = j + 1;
            }
            proof {
                crate::value::lemma_opt_slots_view_len(tmp.args@);
                assert forall|k: int| 0 <= k < na implies #[trigger] crate::value::opt_slots_view(
                    tmp.args@,
                )[k] == subst_entry(vv, orig).args[k] by {
                    crate::value::lemma_opt_slots_view_index(tmp.args@, k);
                }
                assert(crate::value::opt_slots_view(tmp.args@) =~= subst_entry(vv, orig).args);
            }
            let nk: usize = tmp.keywords.len();
            let mut j2: usize = 0;
            while j2 < nk
                invariant
                    nk == tmp.keywords@.len(),
                    0 <= j2 <= nk,
                    tmp.full_identifier@ == orig.full_identifier,
                    tmp.location == orig.location,
                    nk == orig.keywords.len(),
                    crate::value::opt_slots_view(tmp.args@) == subst_entry(vv, orig).args,
                    forall|k: int| j2 <= k < nk ==> #[trigger] crate::value::kw_slot_view(
                        tmp.keywords@[k],
                    ) == orig.keywords[k],
                    forall|k: int| 0 <= k < j2 ==> #[trigger] crate::value::kw_slot_view(
                        tmp.keywords@[k],
                    ) == (orig.keywords[k].0, subst_slot(vv, orig.keywords[k].1)),
                decreases nk - j2,
            {
                let ghost pre_pair = tmp.keywords@[j2 as int];
                proof {
                    assert(crate::value::kw_slot_view(pre_pair) == orig.keywords[j2 as int]);
                }
                let new_slot = subst_one(variables, &tmp.keywords[j2].1);
                let ghost ns_view = crate::value::opt_slot_view(new_slot);
                proof {
                    assert(ns_view == subst_slot(vv, orig.keywords[j2 as int].1));
                }
                let name_copy: Option<String> = match &tmp.keywords[j2].0 {
                    Some(nm) => Some(nm.clone()),
                    None => None,
                };
                proof {
                    assert(name_copy == pre_pair.0);
                }
                tmp.keywords.set(j2, (name_copy, new_slot));
                proof {
                    assert(tmp.keywords@[j2 as int].1 == new_slot);
                    assert(crate::value::kw_slot_view(tmp.keywords@[j2 as int]) == (
                    orig.keywords[j2 as int].0,
                    subst_slot(vv, orig.keywords[j2 as int].1),
                    ));
                }
                j2 = j2 + 1;
            }
            self.entries.set_and_swap(i, &mut tmp);
            proof {
                assert(forall|k: int| 0 <= k < n && k != i ==> self.entries@[k] == pre[k]);
                assert(crate::value::kw_slots_view(self.entries@[i as int].keywords@)
                    =~= subst_entry(vv, orig).keywords);
                assert(call_entries_view(self.entries@)[i as int] =~= subst_entry(
                    vv,
                    e0[i as int],
                ));
                assert forall|k: int| 0 <= k < n && k != i implies #[trigger] call_entries_view(
                    self.entries@,
                )[k] == call_entries_view(pre)[k] by {
                    assert(self.entries@[k] == pre[k]);
                }
            }
            i = i + 1;
        }
        proof {
            assert(call_entries_view(self.entries@) =~= resolve_variables_spec(e0, vv));
        }
    }
}

/// Substitutes one argument slot: an identifier bound in the variable
/// table is replaced by a copy of its value.
fn subst_one(variables: &Vec<(String, VariableType)>, slot: &Option<VariableType>) -> (r: Option<
    VariableType,
>)
    ensures
        crate::value::opt_slot_view(r) == subst_slot(
            crate::variable_visitor::var_pairs_view(variables@),
            crate::value::opt_slot_view(*slot),
        ),
{
    match slot {
        Some(arg_var) => {
            if arg_var.is_identifier() {
                match arg_var.get_identifier() {
                    Some(name) => {
                        match crate::variable_visitor::var_get(variables, name.as_str()) {
                            Some(value) => Some(value.clone()),
                            None => Some(arg_var.clone()),
                        }
                    },
                    None => Some(arg_var.clone()),
                }
            } else {
                Some(arg_var.clone())
            }
        },
        None => None,
    }
}

} // verus!
