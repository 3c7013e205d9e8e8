use vstd::prelude::*;

use crate::alist::{alist_get, alist_has, alist_set, alist_unique, lemma_alist_get_has,
    lemma_alist_set_absent, lemma_alist_set_found, lemma_alist_set_get, lemma_alist_set_unique};
use crate::ast::{Expr, ExprKind, ExprKindV, ExprV, Fragment, FragmentV, Stmt, StmtKind, StmtKindV,
    StmtV};
use crate::ast::{lemma_exprs_view_index, lemma_exprs_view_len, lemma_fragments_view_index,
    lemma_fragments_view_len, lemma_stmts_view_index, lemma_stmts_view_len, exprs_view, expr_view,
    fragments_view, stmt_view, stmts_view};
use crate::astutil::{binop_spec, string_of_expr, try_identifier, try_to_string};
use crate::counts::lemma_alist_get_at_first;
use crate::location::Location;
use crate::strutil;
use crate::utils::{empty_arg_spec, format_empty_arg};
use crate::value::{value_view, ValueV, VariableType};

verus! {

/// The abstract value of a variable-binding table.
pub open spec fn var_pairs_view(v: Seq<(String, VariableType)>) -> Seq<(Seq<char>, ValueV)> {
    Seq::new(v.len(), |i: int| (v[i].0@, value_view(v[i].1)))
}

/// The abstract value of a definition-location table.
pub open spec fn loc_pairs_view(v: Seq<(String, Location)>) -> Seq<(Seq<char>, Location)> {
    Seq::new(v.len(), |i: int| (v[i].0@, v[i].1))
}

/// The evolving state of binding extraction: each name's last bound value
/// and the position of its defining assignment.
#[verifier::ext_equal]
pub struct VariableStateV {
    pub variables: Seq<(Seq<char>, ValueV)>,
    pub locations: Seq<(Seq<char>, Location)>,
}

/// The binding state is consistent: keys are unique and every bound name
/// has a recorded definition location.
pub open spec fn variable_state_wf(st: VariableStateV) -> bool {
    &&& alist_unique(st.variables)
    &&& alist_unique(st.locations)
    &&& forall|i: int| 0 <= i < st.variables.len() ==> alist_has(
        st.locations,
        #[trigger] st.variables[i].0,
    )
}

/// The value an assignment's right-hand side binds: a string or a fold of
/// `+` becomes a string (with the placeholder when unresolvable), a list
/// becomes a list of resolvable strings, and anything else binds nothing.
pub open spec fn assigned_value_of(e: ExprV) -> Option<ValueV> {
    match e.kind {
        ExprKindV::BinOp { .. } => Option::Some(ValueV::Str(empty_arg_spec(string_of_expr(e)))),
        ExprKindV::Str { .. } => Option::Some(ValueV::Str(empty_arg_spec(string_of_expr(e)))),
        ExprKindV::List { items } => Option::Some(
            ValueV::List(
                Seq::new(
                    items.len(),
                    |i: int| match string_of_expr(items[i]) {
                        Option::Some(s) => Option::Some(ValueV::Str(s)),
                        Option::None => Option::None,
                    },
                ),
            ),
        ),
        _ => Option::None,
    }
}

/// One assignment target: a target that names an identifier is bound to
/// the value, and the target's own position becomes the recorded
/// definition location; any other target shape binds nothing.
pub open spec fn bind_target_spec(st: VariableStateV, t: ExprV, v: ValueV) -> VariableStateV {
    match string_of_expr(t) {
        Option::Some(ident) => VariableStateV {
            variables: alist_set(st.variables, ident, v),
            locations: alist_set(st.locations, ident, t.location),
        },
        Option::None => st,
    }
}

/// The value bound to every resolvable target, left to right.
pub open spec fn assign_targets_spec(st: VariableStateV, targets: Seq<ExprV>, v: ValueV)
    -> VariableStateV
    decreases targets.len(),
{
    if targets.len() == 0 {
        st
    } else {
        bind_target_spec(
            assign_targets_spec(st, targets.subrange(0, targets.len() - 1), v),
            targets[targets.len() - 1],
            v,
        )
    }
}

/// The state after one `Assign`: when the right-hand side binds a value,
/// every target of the assignment that names an identifier is bound to it
/// and has its location recorded.
pub open spec fn assign_spec(st: VariableStateV, targets: Seq<ExprV>, value: ExprV)
    -> VariableStateV {
    match assigned_value_of(value) {
        Option::None => st,
        Option::Some(v) => assign_targets_spec(st, targets, v),
    }
}

/// The value an augmented assignment's right-hand side contributes: an
/// identifier reads the current binding, anything else resolves to a
/// string if it can.
pub open spec fn aug_value_of(st: VariableStateV, value: ExprV) -> Option<ValueV> {
    match value.kind {
        ExprKindV::Identifier { name } => alist_get(st.variables, name),
        _ => match string_of_expr(value) {
            Option::Some(s) => Option::Some(ValueV::Str(s)),
            Option::None => Option::None,
        },
    }
}

/// The state after one `AugAssign`: only when the target is already bound
/// to a string, the contributed value is a string, and the operator is
/// `+`, the binding becomes the concatenation.
pub open spec fn aug_assign_spec(
    st: VariableStateV,
    target: ExprV,
    op: crate::ast::BinOpKind,
    value: ExprV,
) -> VariableStateV {
    let vv = aug_value_of(st, value);
    match string_of_expr(target) {
        Option::Some(tid) => match alist_get(st.variables, tid) {
            Option::Some(tv) => match (tv, vv) {
                (ValueV::Str(a), Option::Some(ValueV::Str(b))) => match binop_spec(a, b, op) {
                    Option::Some(joined) => VariableStateV {
                        variables: alist_set(st.variables, tid, ValueV::Str(joined)),
                        locations: st.locations,
                    },
                    Option::None => st,
                },
                _ => st,
            },
            Option::None => st,
        },
        Option::None => st,
    }
}

/// Binding extraction over one statement.
pub open spec fn bindings_in_stmt(st: VariableStateV, s: StmtV) -> VariableStateV
    decreases s,
{
    match s.kind {
        StmtKindV::Assign { targets, value } => assign_spec(st, targets, value),
        StmtKindV::AugAssign { target, op, value } => aug_assign_spec(st, target, op, value),
        StmtKindV::FunctionDef { name, body, rest } => bindings_in_stmts(st, body),
        StmtKindV::ClassDef { name, body, rest } => bindings_in_stmts(st, body),
        StmtKindV::Other { children } => bindings_in_fragments(st, children),
        _ => st,
    }
}

/// Binding extraction over a list of statements.
pub open spec fn bindings_in_stmts(st: VariableStateV, ss: Seq<StmtV>) -> VariableStateV
    decreases ss,
{
    if ss.len() == 0 {
        st
    } else {
        bindings_in_stmt(bindings_in_stmts(st, ss.subrange(0, ss.len() - 1)), ss[ss.len() - 1])
    }
}

/// Binding extraction over mixed fragments: only nested statements matter.
pub open spec fn bindings_in_fragments(st: VariableStateV, fs: Seq<FragmentV>) -> VariableStateV
    decreases fs,
{
    if fs.len() == 0 {
        st
    } else {
        let prev = bindings_in_fragments(st, fs.subrange(0, fs.len() - 1));
        match fs[fs.len() - 1] {
            FragmentV::Expr(e) => prev,
            FragmentV::Stmt(t) => bindings_in_stmt(prev, t),
        }
    }
}

/// Binding one target keeps the state consistent.
pub proof fn lemma_bind_target_wf(st: VariableStateV, t: ExprV, v: ValueV)
    requires
        variable_state_wf(st),
    ensures
        variable_state_wf(bind_target_spec(st, t, v)),
{
    match string_of_expr(t) {
        Option::Some(ident) => {
            let st2 = bind_target_spec(st, t, v);
            lemma_alist_set_unique(st.variables, ident, v);
            lemma_alist_set_unique(st.locations, ident, t.location);
            lemma_alist_set_get(st.locations, ident, t.location, ident);
            lemma_alist_get_has(st2.locations, ident);
            assert forall|i: int| 0 <= i < st2.variables.len() implies alist_has(
                st2.locations,
                #[trigger] st2.variables[i].0,
            ) by {
                let q = st2.variables[i].0;
                if q != ident {
                    assert(alist_has(st.variables, q)) by {
                        lemma_alist_set_unique(st.variables, ident, v);
                    }
                    lemma_alist_get_has(st.variables, q);
                    lemma_alist_set_get(st.locations, ident, t.location, q);
                    lemma_alist_get_has(st.locations, q);
                    lemma_alist_get_has(st2.locations, q);
                }
            }
        },
        Option::None => {},
    }
}

/// Binding every target keeps the state consistent.
pub proof fn lemma_assign_targets_wf(st: VariableStateV, targets: Seq<ExprV>, v: ValueV)
    requires
        variable_state_wf(st),
    ensures
        variable_state_wf(assign_targets_spec(st, targets, v)),
    decreases targets.len(),
{
    if targets.len() > 0 {
        lemma_assign_targets_wf(st, targets.subrange(0, targets.len() - 1), v);
        lemma_bind_target_wf(
            assign_targets_spec(st, targets.subrange(0, targets.len() - 1), v),
            targets[targets.len() - 1],
            v,
        );
    }
}

/// An assignment keeps the state consistent.
pub proof fn lemma_assign_wf(st: VariableStateV, targets: Seq<ExprV>, value: ExprV)
    requires
        variable_state_wf(st),
    ensures
        variable_state_wf(assign_spec(st, targets, value)),
{
    match assigned_value_of(value) {
        Option::None => {},
        Option::Some(v) => {
            lemma_assign_targets_wf(st, targets, v);
        },
    }
}

/// An augmented assignment keeps the state consistent.
pub proof fn lemma_aug_assign_wf(
    st: VariableStateV,
    target: ExprV,
    op: crate::ast::BinOpKind,
    value: ExprV,
)
    requires
        variable_state_wf(st),
    ensures
        variable_state_wf(aug_assign_spec(st, target, op, value)),
{
    let vv = aug_value_of(st, value);
    match string_of_expr(target) {
        Option::Some(tid) => match alist_get(st.variables, tid) {
            Option::Some(tv) => match (tv, vv) {
                (ValueV::Str(a), Option::Some(ValueV::Str(b))) => match binop_spec(a, b, op) {
                    Option::Some(joined) => {
                        let st2 = aug_assign_spec(st, target, op, value);
                        lemma_alist_set_unique(st.variables, tid, ValueV::Str(joined));
                        assert forall|i: int| 0 <= i < st2.variables.len() implies alist_has(
                            st2.locations,
                            #[trigger] st2.variables[i].0,
                        ) by {
                            let q = st2.variables[i].0;
                            if q == tid {
                                lemma_alist_get_has(st.variables, tid);
                                let j = crate::counts::lemma_alist_first_key_index(
                                    st.variables,
                                    tid,
                                );
                                assert(alist_has(st.locations, st.variables[j].0));
                            } else {
                                assert(alist_has(st.variables, q));
                                lemma_alist_get_has(st.variables, q);
                            }
                        }
                    },
                    Option::None => {},
                },
                _ => {},
            },
            Option::None => {},
        },
        Option::None => {},
    }
}

/// Collects the constant-like variable bindings of a syntax tree.
#[derive(Debug)]
pub struct VariableVisitor {
    pub variables: Vec<(String, VariableType)>,
    pub locations: Vec<(String, Location)>,
}

impl View for VariableVisitor {
    type V = VariableStateV;

    open spec fn view(&self) -> VariableStateV {
        VariableStateV {
            variables: var_pairs_view(self.variables@),
            locations: loc_pairs_view(self.locations@),
        }
    }
}

impl VariableVisitor {
    pub fn new() -> (r: Self)
        ensures
            r@.variables.len() == 0,
            r@.locations.len() == 0,
            variable_state_wf(r@),
    {
        let r = VariableVisitor { variables: Vec::new(), locations: Vec::new() };
        proof {
            assert(r@.variables =~= Seq::<(Seq<char>, ValueV)>::empty());
            assert(r@.locations =~= Seq::<(Seq<char>, Location)>::empty());
        }
        r
    }

    /// The recorded bindings.
    pub fn get_variables(&self) -> (r: &Vec<(String, VariableType)>)
        ensures
            var_pairs_view(r@) == self@.variables,
    {
        &self.variables
    }

    /// The recorded definition locations.
    pub fn get_locations(&self) -> (r: &Vec<(String, Location)>)
        ensures
            loc_pairs_view(r@) == self@.locations,
    {
        &self.locations
    }

    /// Records the bindings of one statement.
    #[verifier::loop_isolation(false)]
    pub fn visit_stmt(&mut self, s: &Stmt)
        requires
            variable_state_wf(old(self)@),
        ensures
            variable_state_wf(final(self)@),
            final(self)@ == bindings_in_stmt(old(self)@, stmt_view(*s)),
        decreases *s,
    {
        match &s.kind {
            StmtKind::Assign { targets, value } => {
                self.visit_assign(targets, value);
            },
            StmtKind::AugAssign { target, op, value } => {
                self.visit_aug_assign(target, op, value);
            },
            StmtKind::FunctionDef { name, body, rest } => {
                proof {
                    assert(decreases_to!(*s => body@));
                }
                self.visit_body(s, body);
            },
            StmtKind::ClassDef { name, body, rest } => {
                proof {
                    assert(decreases_to!(*s => body@));
                }
                self.visit_body(s, body);
            },
            StmtKind::Other { children } => {
                let ghost st0 = self@;
                let n: usize = children.len();
                let mut i: usize = 0;
                while i < n
                    invariant
                        variable_state_wf(self@),
                        0 <= i <= n,
                        self@ == bindings_in_fragments(
                            st0,
                            fragments_view(children@).subrange(0, i as int),
                        ),
                    decreases n - i,
                {
                    proof {
                        lemma_fragments_view_index(children@, i as int);
                    }
                    match &children[i] {
                        Fragment::Expr(_) => {},
                        Fragment::Stmt(t2) => {
                            proof {
                                assert(decreases_to!(*s => children@[i as int]));
                                assert(decreases_to!(children@[i as int] => children@[i as int]->Stmt_0));
                            }
                            self.visit_stmt(t2);
                        },
                    }
                    proof {
                        let fv = fragments_view(children@);
                        assert(fv.subrange(0, i + 1).subrange(0, i as int) =~= fv.subrange(
                            0,
                            i as int,
                        ));
                        assert(fv.subrange(0, i + 1)[i as int] == fv[i as int]);
                    }
                    i = i + 1;
                }
                proof {
                    lemma_fragments_view_len(children@);
                    assert(fragments_view(children@).subrange(0, n as int) =~= fragments_view(
                        children@,
                    ));
                }
            },
            StmtKind::Import { .. } => {},
            StmtKind::ImportFrom { .. } => {},
            StmtKind::Expr { .. } => {},
        }
    }

    /// Walks the body of a definition.
    #[verifier::loop_isolation(false)]
    fn visit_body(&mut self, parent: &Stmt, body: &Vec<Stmt>)
        requires
            variable_state_wf(old(self)@),
            decreases_to!(*parent => body@),
        ensures
            variable_state_wf(final(self)@),
            final(self)@ == bindings_in_stmts(old(self)@, stmts_view(body@)),
        decreases *parent, 0int,
    {
        let ghost st0 = self@;
        let n: usize = body.len();
        let mut i: usize = 0;
        while i < n
            invariant
                variable_state_wf(self@),
                0 <= i <= n,
                self@ == bindings_in_stmts(st0, stmts_view(body@).subrange(0, i as int)),
            decreases n - i,
        {
            proof {
                lemma_stmts_view_index(body@, i as int);
                assert(decreases_to!(body@ => body@[i as int]));
            }
            self.visit_stmt(&body[i]);
            proof {
                let sv = stmts_view(body@);
                assert(sv.subrange(0, i + 1).subrange(0, i as int) =~= sv.subrange(0, i as int));
                assert(sv.subrange(0, i + 1)[i as int] == sv[i as int]);
            }
            i = i + 1;
        }
        proof {
            lemma_stmts_view_len(body@);
            assert(stmts_view(body@).subrange(0, n as int) =~= stmts_view(body@));
        }
    }

    /// Records the bindings of a module's statements.
    #[verifier::loop_isolation(false)]
    pub fn visit_stmts(&mut self, stmts: &Vec<Stmt>)
        requires
            variable_state_wf(old(self)@),
        ensures
            variable_state_wf(final(self)@),
            final(self)@ == bindings_in_stmts(old(self)@, stmts_view(stmts@)),
    {
        let ghost st0 = self@;
        let n: usize = stmts.len();
        let mut i: usize = 0;
        while i < n
            invariant
                variable_state_wf(self@),
                0 <= i <= n,
                self@ == bindings_in_stmts(st0, stmts_view(stmts@).subrange(0, i as int)),
            decreases n - i,
        {
            proof {
                lemma_stmts_view_index(stmts@, i as int);
            }
            self.visit_stmt(&stmts[i]);
            proof {
                let sv = stmts_view(stmts@);
                assert(sv.subrange(0, i + 1).subrange(0, i as int) =~= sv.subrange(0, i as int));
                assert(sv.subrange(0, i + 1)[i as int] == sv[i as int]);
            }
            i = i + 1;
        }
        proof {
            lemma_stmts_view_len(stmts@);
            assert(stmts_view(stmts@).subrange(0, n as int) =~= stmts_view(stmts@));
        }
    }

    /// Handles one `Assign` statement.
    #[verifier::loop_isolation(false)]
    fn visit_assign(&mut self, targets: &Vec<Expr>, value: &Expr)
        requires
            variable_state_wf(old(self)@),
        ensures
            variable_state_wf(final(self)@),
            final(self)@ == assign_spec(old(self)@, exprs_view(targets@), expr_view(*value)),
    {
        let ghost st0 = self@;
        let ghost tv = exprs_view(targets@);
        let values = get_values_from_expr(value);
        proof {
            crate::ast::lemma_exprs_view_len(targets@);
        }
        match values {
            Some(v) => {
                let ghost vv = value_view(v);
                let n: usize = targets.len();
                let mut i: usize = 0;
                while i < n
                    invariant
                        n == targets@.len(),
                        0 <= i <= n,
                        variable_state_wf(self@),
                        self@ == assign_targets_spec(st0, tv.subrange(0, i as int), vv),
                    decreases n - i,
                {
                    proof {
                        lemma_exprs_view_index(targets@, i as int);
                    }
                    let ghost pre = self@;
                    match try_to_string(&targets[i]) {
                        Some(ident) => {
                            let loc = targets[i].location;
                            let bound = v.clone();
                            proof {
                                lemma_bind_target_wf(pre, tv[i as int], vv);
                            }
                            var_put(&mut self.variables, &ident, bound);
                            loc_put(&mut self.locations, &ident, loc);
                            proof {
                                assert(self@ =~= bind_target_spec(pre, tv[i as int], vv));
                            }
                        },
                        None => {
                            proof {
                                assert(self@ == bind_target_spec(pre, tv[i as int], vv));
                            }
                        },
                    }
                    proof {
                        assert(tv.subrange(0, i + 1).subrange(0, i as int) =~= tv.subrange(
                            0,
                            i as int,
                        ));
                        assert(tv.subrange(0, i + 1)[i as int] == tv[i as int]);
                    }
                    i = i + 1;
                }
                proof {
                    assert(tv.subrange(0, n as int) =~= tv);
                }
            },
            None => {},
        }
    }

    /// Handles one `AugAssign` statement.
    fn visit_aug_assign(&mut self, target: &Expr, op: &crate::ast::BinOpKind, value: &Expr)
        requires
            variable_state_wf(old(self)@),
        ensures
            variable_state_wf(final(self)@),
            final(self)@ == aug_assign_spec(
                old(self)@,
                expr_view(*target),
                *op,
                expr_view(*value),
            ),
    {
        let ghost st0 = self@;
        let value_value: Option<VariableType> = match try_identifier(value) {
            Some(ident) => match var_get(&self.variables, ident.as_str()) {
                Some(bound) => Some(bound.clone()),
                None => None,
            },
            None => match try_to_string(value) {
                Some(val) => Some(VariableType::Str(val)),
                None => None,
            },
        };
        proof {
            assert((match value_value {
                Option::Some(v) => Option::Some(value_view(v)),
                Option::None => Option::<ValueV>::None,
            }) == aug_value_of(st0, expr_view(*value)));
        }
        match try_to_string(target) {
            Some(tid) => {
                match var_get(&self.variables, tid.as_str()) {
                    Some(existing) => {
                        let existing_str: Option<String> = match existing.get_string() {
                            Some(s) => Some(s.clone()),
                            None => None,
                        };
                        match (existing_str, value_value) {
                            (Some(a), Some(vv)) => match vv.get_string() {
                                Some(b) => match crate::astutil::do_binop(a, b.clone(), op) {
                                    Some(joined) => {
                                        var_put(
                                            &mut self.variables,
                                            &tid,
                                            VariableType::Str(joined),
                                        );
                                        proof {
                                            lemma_aug_assign_wf(
                                                st0,
                                                expr_view(*target),
                                                *op,
                                                expr_view(*value),
                                            );
                                            assert(self@ =~= aug_assign_spec(
                                                st0,
                                                expr_view(*target),
                                                *op,
                                                expr_view(*value),
                                            ));
                                        }
                                    },
                                    None => {},
                                },
                                None => {},
                            },
                            _ => {},
                        }
                    },
                    None => {},
                }
            },
            None => {},
        }
    }
}

/// The value bound by an assignment's right-hand side, if any.
pub fn get_values_from_expr(expr: &Expr) -> (r: Option<VariableType>)
    ensures
        (match r {
            Option::Some(v) => Option::Some(value_view(v)),
            Option::None => Option::<ValueV>::None,
        }) == assigned_value_of(expr_view(*expr)),
{
    match &expr.kind {
        ExprKind::BinOp { .. } => Some(
            VariableType::Str(format_empty_arg(&try_to_string(expr))),
        ),
        ExprKind::Str { .. } => Some(VariableType::Str(format_empty_arg(&try_to_string(expr)))),
        ExprKind::List { items } => {
            let mut slots: Vec<Option<VariableType>> = Vec::new();
            let n: usize = items.len();
            let mut i: usize = 0;
            while i < n
                invariant
                    n == items@.len(),
                    0 <= i <= n,
                    slots@.len() == i,
                    forall|k: int|
                        0 <= k < i ==> #[trigger] crate::value::opt_slot_view(slots@[k]) == (
                        match string_of_expr(exprs_view(items@)[k]) {
                            Option::Some(s) => Option::Some(ValueV::Str(s)),
                            Option::None => Option::None,
                        }),
                decreases n - i,
            {
                proof {
                    lemma_exprs_view_index(items@, i as int);
                }
                let slot: Option<VariableType> = match try_to_string(&items[i]) {
                    Some(s) => Some(VariableType::Str(s)),
                    None => None,
                };
                slots.push(slot);
                i = i + 1;
            }
            let r = VariableType::List(slots);
            proof {
                lemma_exprs_view_len(items@);
                assert forall|k: int| 0 <= k < n implies #[trigger] crate::value::opt_slots_view(
                    slots@,
                )[k] == (match string_of_expr(exprs_view(items@)[k]) {
                    Option::Some(s) => Option::Some(ValueV::Str(s)),
                    Option::None => Option::None,
                }) by {
                    crate::value::lemma_opt_slots_view_index(slots@, k);
                }
                crate::value::lemma_opt_slots_view_len(slots@);
                assert(value_view(r) matches ValueV::List(got) ==> got =~= (
                assigned_value_of(expr_view(*expr))->0->List_0));
            }
            Some(r)
        },
        _ => None,
    }
}

/// Looks up the binding for `key`.
pub fn var_get<'a>(v: &'a Vec<(String, VariableType)>, key: &str) -> (r: Option<
    &'a VariableType,
>)
    ensures
        (match r {
            Option::Some(x) => Option::Some(value_view(*x)),
            Option::None => Option::<ValueV>::None,
        }) == alist_get(var_pairs_view(v@), key@),
{
    let n: usize = v.len();
    let mut i: usize = 0;
    while i < n
        invariant
            n == v@.len(),
            0 <= i <= n,
            forall|j: int| 0 <= j < i ==> #[trigger] v@[j].0@ != key@,
        decreases n - i,
    {
        if strutil::str_eq(v[i].0.as_str(), key) {
            proof {
                lemma_alist_get_at_first(var_pairs_view(v@), key@, i as int);
            }
            return Some(&v[i].1);
        }
        i = i + 1;
    }
    proof {
        assert(!alist_has(var_pairs_view(v@), key@));
        lemma_alist_get_has(var_pairs_view(v@), key@);
    }
    None
}

/// Looks up the recorded definition location for `key`.
pub fn loc_get(v: &Vec<(String, Location)>, key: &str) -> (r: Option<Location>)
    ensures
        r == alist_get(loc_pairs_view(v@), key@),
{
    let n: usize = v.len();
    let mut i: usize = 0;
    while i < n
        invariant
            n == v@.len(),
            0 <= i <= n,
            forall|j: int| 0 <= j < i ==> #[trigger] v@[j].0@ != key@,
        decreases n - i,
    {
        if strutil::str_eq(v[i].0.as_str(), key) {
            proof {
                lemma_alist_get_at_first(loc_pairs_view(v@), key@, i as int);
            }
            return Some(v[i].1);
        }
        i = i + 1;
    }
    proof {
        assert(!alist_has(loc_pairs_view(v@), key@));
        lemma_alist_get_has(loc_pairs_view(v@), key@);
    }
    None
}

/// Sets `key` to `val` in a binding table, replacing an earlier binding.
fn var_put(v: &mut Vec<(String, VariableType)>, key: &String, val: VariableType)
    ensures
        var_pairs_view(final(v)@) == alist_set(var_pairs_view(old(v)@), key@, value_view(val)),
{
    let n: usize = v.len();
    let mut i: usize = 0;
    while i < n
        invariant
            n == v@.len(),
            0 <= i <= n,
            v@ == old(v)@,
            forall|j: int| 0 <= j < i ==> #[trigger] v@[j].0@ != key@,
        decreases n - i,
    {
        if strutil::str_eq(v[i].0.as_str(), key.as_str()) {
            let fresh_key = v[i].0.clone();
            let ghost vv = value_view(val);
            v.set(i, (fresh_key, val));
            proof {
                lemma_alist_set_found(var_pairs_view(old(v)@), key@, vv, i as int);
                assert(var_pairs_view(v@) =~= var_pairs_view(old(v)@).update(
                    i as int,
                    (key@, vv),
                ));
            }
            return ;
        }
        i = i + 1;
    }
    proof {
        assert(!alist_has(var_pairs_view(v@), key@));
        lemma_alist_set_absent(var_pairs_view(old(v)@), key@, value_view(val));
    }
    let ghost vv = value_view(val);
    v.push((key.clone(), val));
    proof {
        assert(var_pairs_view(v@) =~= var_pairs_view(old(v)@).push((key@, vv)));
    }
}

/// Sets `key` to `loc` in a location table, replacing an earlier entry.
fn loc_put(v: &mut Vec<(String, Location)>, key: &String, loc: Location)
    ensures
        loc_pairs_view(final(v)@) == alist_set(loc_pairs_view(old(v)@), key@, loc),
{
    let n: usize = v.len();
    let mut i: usize = 0;
    while i < n
        invariant
            n == v@.len(),
            0 <= i <= n,
            v@ == old(v)@,
            forall|j: int| 0 <= j < i ==> #[trigger] v@[j].0@ != key@,
        decreases n - i,
    {
        if strutil::str_eq(v[i].0.as_str(), key.as_str()) {
            let fresh_key = v[i].0.clone();
            v.set(i, (fresh_key, loc));
            proof {
                lemma_alist_set_found(loc_pairs_view(old(v)@), key@, loc, i as int);
                assert(loc_pairs_view(v@) =~= loc_pairs_view(old(v)@).update(
                    i as int,
                    (key@, loc),
                ));
            }
            return ;
        }
        i = i + 1;
    }
    proof {
        assert(!alist_has(loc_pairs_view(v@), key@));
        lemma_alist_set_absent(loc_pairs_view(old(v)@), key@, loc);
    }
    v.push((key.clone(), loc));
    proof {
        assert(loc_pairs_view(v@) =~= loc_pairs_view(old(v)@).push((key@, loc)));
    }
}

} // verus!
