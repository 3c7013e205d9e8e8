use vstd::prelude::*;

use crate::ast::{BinOpKind, Expr, ExprKind, ExprKindV, ExprV, Keyword};
use crate::ast::{exprs_view, expr_view, keywords_view, lemma_exprs_view_index,
    lemma_keywords_view_index};
use crate::value::{ValueV, VariableType};

verus! {

/// Folds `Add` on two strings; every other operator is left alone.
pub open spec fn binop_spec(a: Seq<char>, b: Seq<char>, op: BinOpKind) -> Option<Seq<char>> {
    match op {
        BinOpKind::Add => Option::Some(a + b),
        BinOpKind::Other => Option::None,
    }
}

/// Concatenates two strings under `Add`; other operators yield nothing.
pub fn do_binop(a: String, b: String, op: &BinOpKind) -> (r: Option<String>)
    ensures
        (match r {
            Option::Some(s) => Option::Some(s@),
            Option::None => Option::None,
        }) == binop_spec(a@, b@, *op),
{
    match op {
        BinOpKind::Add => {
            let mut s = a;
            s.append(b.as_str());
            Some(s)
        },
        BinOpKind::Other => None,
    }
}

/// The string an expression denotes, where one can be read off directly: a
/// string literal, an identifier's name, or a fold of `+` over such strings.
pub open spec fn string_of_expr(e: ExprV) -> Option<Seq<char>>
    decreases e,
{
    match e.kind {
        ExprKindV::BinOp { left, op, right } => match string_of_expr(*left) {
            Option::Some(a) => match string_of_expr(*right) {
                Option::Some(b) => binop_spec(a, b, op),
                Option::None => Option::None,
            },
            Option::None => Option::None,
        },
        ExprKindV::Str { value } => Option::Some(value),
        ExprKindV::Identifier { name } => Option::Some(name),
        _ => Option::None,
    }
}

/// Reads the string denoted by `expr`, if any.
pub fn try_to_string(expr: &Expr) -> (r: Option<String>)
    ensures
        (match r {
            Option::Some(s) => Option::Some(s@),
            Option::None => Option::None,
        }) == string_of_expr(expr_view(*expr)),
    decreases *expr,
{
    match &expr.kind {
        ExprKind::BinOp { left, op, right } => {
            let a = try_to_string(left);
            match a {
                Some(a) => {
                    let b = try_to_string(right);
                    match b {
                        Some(b) => do_binop(a, b, op),
                        None => None,
                    }
                },
                None => None,
            }
        },
        ExprKind::Str { value } => Some(value.clone()),
        ExprKind::Identifier { name } => Some(name.clone()),
        _ => None,
    }
}

/// Is the expression a bare identifier?
pub fn is_identifier(expr: &Expr) -> (r: bool)
    ensures
        r == (expr_view(*expr).kind is Identifier),
{
    match &expr.kind {
        ExprKind::Identifier { .. } => true,
        _ => false,
    }
}

/// The identifier named by the expression, if it is one.
pub fn try_identifier(expr: &Expr) -> (r: Option<String>)
    ensures
        (match r {
            Option::Some(s) => Option::Some(s@),
            Option::None => Option::None,
        }) == (match expr_view(*expr).kind {
            ExprKindV::Identifier { name } => Option::Some(name),
            _ => Option::None,
        }),
{
    match &expr.kind {
        ExprKind::Identifier { name } => Some(name.clone()),
        _ => None,
    }
}

/// The shallow value an argument expression contributes to a call record: a
/// resolvable string becomes `Identifier` or `Str` depending on the
/// expression's shape; anything else leaves the slot empty.
pub open spec fn arg_value_of(e: ExprV) -> Option<ValueV> {
    match string_of_expr(e) {
        Option::Some(s) => Option::Some(
            if e.kind is Identifier {
                ValueV::Identifier(s)
            } else {
                ValueV::Str(s)
            },
        ),
        Option::None => Option::None,
    }
}

/// The argument slots of a call.
pub open spec fn args_values_of(args: Seq<ExprV>) -> Seq<Option<ValueV>> {
    Seq::new(args.len(), |i: int| arg_value_of(args[i]))
}

/// The keyword slots of a call.
pub open spec fn kwargs_values_of(kws: Seq<crate::ast::KeywordV>) -> Seq<
    (Option<Seq<char>>, Option<ValueV>),
> {
    Seq::new(kws.len(), |i: int| (kws[i].name, arg_value_of(kws[i].value)))
}

fn resolve_one_arg(arg: &Expr) -> (r: Option<VariableType>)
    ensures
        crate::value::opt_slot_view(r) == arg_value_of(expr_view(*arg)),
{
    match try_to_string(arg) {
        Some(str_val) => {
            if is_identifier(arg) {
                Some(VariableType::Identifier(str_val))
            } else {
                Some(VariableType::Str(str_val))
            }
        },
        None => None,
    }
}

/// Resolves the positional arguments of a call to value slots.
pub fn resolve_args(args: &Vec<Expr>) -> (r: Vec<Option<VariableType>>)
    ensures
        crate::value::opt_slots_view(r@) == args_values_of(exprs_view(args@)),
{
    let mut out: Vec<Option<VariableType>> = Vec::new();
    let n: usize = args.len();
    let mut i: usize = 0;
    while i < n
        invariant
            n == args@.len(),
            0 <= i <= n,
            out@.len() == i,
            forall|k: int| 0 <= k < i ==> #[trigger] crate::value::opt_slot_view(out@[k])
                == arg_value_of(exprs_view(args@)[k]),
        decreases n - i,
    {
        proof {
            lemma_exprs_view_index(args@, i as int);
        }
        let slot = resolve_one_arg(&args[i]);
        out.push(slot);
        i = i + 1;
    }
    proof {
        crate::ast::lemma_exprs_view_len(args@);
        assert forall|k: int| 0 <= k < n implies #[trigger] crate::value::opt_slots_view(out@)[k]
            == args_values_of(exprs_view(args@))[k] by {
            crate::value::lemma_opt_slots_view_index(out@, k);
        }
        crate::value::lemma_opt_slots_view_len(out@);
        assert(crate::value::opt_slots_view(out@) =~= args_values_of(exprs_view(args@)));
    }
    out
}

/// Resolves the keyword arguments of a call to named value slots.
pub fn resolve_kwargs(args: &Vec<Keyword>) -> (r: Vec<(Option<String>, Option<VariableType>)>)
    ensures
        crate::value::kw_slots_view(r@) == kwargs_values_of(keywords_view(args@)),
{
    let mut out: Vec<(Option<String>, Option<VariableType>)> = Vec::new();
    let n: usize = args.len();
    let mut i: usize = 0;
    while i < n
        invariant
            n == args@.len(),
            0 <= i <= n,
            out@.len() == i,
            forall|k: int|
                0 <= k < i ==> #[trigger] crate::value::kw_slot_view(out@[k]) == (
                keywords_view(args@)[k].name,
                arg_value_of(keywords_view(args@)[k].value),
                ),
        decreases n - i,
    {
        proof {
            lemma_keywords_view_index(args@, i as int);
        }
        let kw = &args[i];
        let name: Option<String> = match &kw.name {
            Some(s) => Some(s.clone()),
            None => None,
        };
        let slot = resolve_one_arg(&kw.value);
        out.push((name, slot));
        i = i + 1;
    }
    proof {
        crate::ast::lemma_keywords_view_len(args@);
        assert(crate::value::kw_slots_view(out@) =~= kwargs_values_of(keywords_view(args@)));
    }
    out
}

} // verus!
