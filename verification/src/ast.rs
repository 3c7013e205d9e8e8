use vstd::prelude::*;

use crate::location::Location;

verus! {

/// The binary operators the analysis distinguishes: string concatenation
/// (`Add`) is folded, everything else is opaque.
#[derive(Debug, Clone, Copy, PartialEq, Eq, Structural)]
pub enum BinOpKind {
    Add,
    Other,
}

/// One name of an `import` or `from .. import` statement, with its
/// optional `as` alias.
#[derive(Debug)]
pub struct ImportSymbol {
    pub symbol: String,
    pub alias: Option<String>,
}

/// The abstract value of an [`ImportSymbol`].
pub struct ImportSymbolV {
    pub symbol: Seq<char>,
    pub alias: Option<Seq<char>>,
}

/// A keyword argument of a call: `name=value`, the name absent for `**kwargs`.
#[derive(Debug)]
pub struct Keyword {
    pub name: Option<String>,
    pub value: Expr,
}

/// The abstract value of a [`Keyword`].
pub struct KeywordV {
    pub name: Option<Seq<char>>,
    pub value: ExprV,
}

/// An expression of the analysed tree.  Only the shapes the extraction pass
/// interprets are distinguished; every other expression arrives as `Other`
/// with its children in source order, so that traversal stays total.
#[derive(Debug)]
pub struct Expr {
    pub location: Location,
    pub kind: ExprKind,
}

#[derive(Debug)]
pub enum ExprKind {
    Identifier { name: String },
    Attribute { base: Box<Expr>, name: String },
    Call { func: Box<Expr>, args: Vec<Expr>, keywords: Vec<Keyword> },
    Str { value: String },
    BinOp { left: Box<Expr>, op: BinOpKind, right: Box<Expr> },
    List { items: Vec<Expr> },
    Other { children: Vec<Fragment> },
}

/// The abstract value of an [`Expr`].
pub struct ExprV {
    pub location: Location,
    pub kind: ExprKindV,
}

pub enum ExprKindV {
    Identifier { name: Seq<char> },
    Attribute { base: Box<ExprV>, name: Seq<char> },
    Call { func: Box<ExprV>, args: Seq<ExprV>, keywords: Seq<KeywordV> },
    Str { value: Seq<char> },
    BinOp { left: Box<ExprV>, op: BinOpKind, right: Box<ExprV> },
    List { items: Seq<ExprV> },
    Other { children: Seq<FragmentV> },
}

/// A statement of the analysed tree.  Statements the extraction pass does
/// not interpret arrive as `Other`, carrying their nested expressions and
/// statements in traversal order.
#[derive(Debug)]
pub struct Stmt {
    pub location: Location,
    pub kind: StmtKind,
}

#[derive(Debug)]
pub enum StmtKind {
    Import { names: Vec<ImportSymbol> },
    ImportFrom { module: Option<String>, level: usize, names: Vec<ImportSymbol> },
    Assign { targets: Vec<Expr>, value: Expr },
    AugAssign { target: Expr, op: BinOpKind, value: Expr },
    Expr { value: Expr },
    FunctionDef { name: String, body: Vec<Stmt>, rest: Vec<Expr> },
    ClassDef { name: String, body: Vec<Stmt>, rest: Vec<Expr> },
    Other { children: Vec<Fragment> },
}

/// A child of an uninterpreted statement: an expression or a statement, in
/// the order the walker reaches them.
#[derive(Debug)]
pub enum Fragment {
    Expr(Expr),
    Stmt(Stmt),
}

/// The abstract value of a [`Stmt`].
pub struct StmtV {
    pub location: Location,
    pub kind: StmtKindV,
}

pub enum StmtKindV {
    Import { names: Seq<ImportSymbolV> },
    ImportFrom { module: Option<Seq<char>>, level: usize, names: Seq<ImportSymbolV> },
    Assign { targets: Seq<ExprV>, value: ExprV },
    AugAssign { target: ExprV, op: BinOpKind, value: ExprV },
    Expr { value: ExprV },
    FunctionDef { name: Seq<char>, body: Seq<StmtV>, rest: Seq<ExprV> },
    ClassDef { name: Seq<char>, body: Seq<StmtV>, rest: Seq<ExprV> },
    Other { children: Seq<FragmentV> },
}

pub enum FragmentV {
    Expr(ExprV),
    Stmt(StmtV),
}

/// The abstract value of one import symbol.
pub open spec fn symbol_view(s: ImportSymbol) -> ImportSymbolV {
    ImportSymbolV {
        symbol: s.symbol@,
        alias: match s.alias {
            Option::Some(a) => Option::Some(a@),
            Option::None => Option::None,
        },
    }
}

/// The abstract values of a sequence of import symbols.
pub open spec fn symbols_view(s: Seq<ImportSymbol>) -> Seq<ImportSymbolV> {
    Seq::new(s.len(), |i: int| symbol_view(s[i]))
}

/// The abstract value of an expression.
pub open spec fn expr_view(e: Expr) -> ExprV
    decreases e,
{
    ExprV {
        location: e.location,
        kind: match e.kind {
            ExprKind::Identifier { name } => ExprKindV::Identifier { name: name@ },
            ExprKind::Attribute { base, name } => ExprKindV::Attribute {
                base: Box::new(expr_view(*base)),
                name: name@,
            },
            ExprKind::Call { func, args, keywords } => ExprKindV::Call {
                func: Box::new(expr_view(*func)),
                args: exprs_view(args@),
                keywords: keywords_view(keywords@),
            },
            ExprKind::Str { value } => ExprKindV::Str { value: value@ },
            ExprKind::BinOp { left, op, right } => ExprKindV::BinOp {
                left: Box::new(expr_view(*left)),
                op,
                right: Box::new(expr_view(*right)),
            },
            ExprKind::List { items } => ExprKindV::List { items: exprs_view(items@) },
            ExprKind::Other { children } => ExprKindV::Other {
                children: fragments_view(children@),
            },
        },
    }
}

/// The abstract values of a sequence of expressions.
pub open spec fn exprs_view(s: Seq<Expr>) -> Seq<ExprV>
    decreases s,
{
    if s.len() == 0 {
        Seq::empty()
    } else {
        exprs_view(s.subrange(0, s.len() - 1)).push(expr_view(s[s.len() - 1]))
    }
}

/// The abstract values of a sequence of keywords.
pub open spec fn keywords_view(s: Seq<Keyword>) -> Seq<KeywordV>
    decreases s,
{
    if s.len() == 0 {
        Seq::empty()
    } else {
        keywords_view(s.subrange(0, s.len() - 1)).push(
            KeywordV {
                name: match s[s.len() - 1].name {
                    Option::Some(n) => Option::Some(n@),
                    Option::None => Option::None,
                },
                value: expr_view(s[s.len() - 1].value),
            },
        )
    }
}

/// The abstract value of a statement.
pub open spec fn stmt_view(s: Stmt) -> StmtV
    decreases s,
{
    StmtV {
        location: s.location,
        kind: match s.kind {
            StmtKind::Import { names } => StmtKindV::Import { names: symbols_view(names@) },
            StmtKind::ImportFrom { module, level, names } => StmtKindV::ImportFrom {
                module: match module {
                    Option::Some(m) => Option::Some(m@),
                    Option::None => Option::None,
                },
                level,
                names: symbols_view(names@),
            },
            StmtKind::Assign { targets, value } => StmtKindV::Assign {
                targets: exprs_view(targets@),
                value: expr_view(value),
            },
            StmtKind::AugAssign { target, op, value } => StmtKindV::AugAssign {
                target: expr_view(target),
                op,
                value: expr_view(value),
            },
            StmtKind::Expr { value } => StmtKindV::Expr { value: expr_view(value) },
            StmtKind::FunctionDef { name, body, rest } => StmtKindV::FunctionDef {
                name: name@,
                body: stmts_view(body@),
                rest: exprs_view(rest@),
            },
            StmtKind::ClassDef { name, body, rest } => StmtKindV::ClassDef {
                name: name@,
                body: stmts_view(body@),
                rest: exprs_view(rest@),
            },
            StmtKind::Other { children } => StmtKindV::Other {
                children: fragments_view(children@),
            },
        },
    }
}

/// The abstract values of a sequence of statements.
pub open spec fn stmts_view(s: Seq<Stmt>) -> Seq<StmtV>
    decreases s,
{
    if s.len() == 0 {
        Seq::empty()
    } else {
        stmts_view(s.subrange(0, s.len() - 1)).push(stmt_view(s[s.len() - 1]))
    }
}

/// The abstract values of a sequence of fragments.
pub open spec fn fragments_view(s: Seq<Fragment>) -> Seq<FragmentV>
    decreases s,
{
    if s.len() == 0 {
        Seq::empty()
    } else {
        fragments_view(s.subrange(0, s.len() - 1)).push(
            match s[s.len() - 1] {
                Fragment::Expr(e) => FragmentV::Expr(expr_view(e)),
                Fragment::Stmt(t) => FragmentV::Stmt(stmt_view(t)),
            },
        )
    }
}

/// Sequence views index pointwise.
pub broadcast proof fn lemma_exprs_view_index(s: Seq<Expr>, i: int)
    requires
        0 <= i < s.len(),
    ensures
        exprs_view(s).len() == s.len(),
        #[trigger] exprs_view(s)[i] == expr_view(s[i]),
    decreases s.len(),
{
    lemma_exprs_view_len(s);
    if s.len() > 0 {
        if i < s.len() - 1 {
            lemma_exprs_view_index(s.subrange(0, s.len() - 1), i);
            assert(s.subrange(0, s.len() - 1)[i] == s[i]);
        }
    }
}

/// The view of a sequence of expressions has the same length.
pub broadcast proof fn lemma_exprs_view_len(s: Seq<Expr>)
    ensures
        #[trigger] exprs_view(s).len() == s.len(),
    decreases s.len(),
{
    if s.len() > 0 {
        lemma_exprs_view_len(s.subrange(0, s.len() - 1));
    }
}

/// Statement sequence views index pointwise.
pub broadcast proof fn lemma_stmts_view_index(s: Seq<Stmt>, i: int)
    requires
        0 <= i < s.len(),
    ensures
        stmts_view(s).len() == s.len(),
        #[trigger] stmts_view(s)[i] == stmt_view(s[i]),
    decreases s.len(),
{
    lemma_stmts_view_len(s);
    if s.len() > 0 {
        if i < s.len() - 1 {
            lemma_stmts_view_index(s.subrange(0, s.len() - 1), i);
            assert(s.subrange(0, s.len() - 1)[i] == s[i]);
        }
    }
}

/// The view of a sequence of statements has the same length.
pub broadcast proof fn lemma_stmts_view_len(s: Seq<Stmt>)
    ensures
        #[trigger] stmts_view(s).len() == s.len(),
    decreases s.len(),
{
    if s.len() > 0 {
        lemma_stmts_view_len(s.subrange(0, s.len() - 1));
    }
}

/// Keyword sequence views index pointwise.
pub broadcast proof fn lemma_keywords_view_index(s: Seq<Keyword>, i: int)
    requires
        0 <= i < s.len(),
    ensures
        keywords_view(s).len() == s.len(),
        #[trigger] keywords_view(s)[i] == (KeywordV {
            name: match s[i].name {
                Option::Some(n) => Option::Some(n@),
                Option::None => Option::None,
            },
            value: expr_view(s[i].value),
        }),
    decreases s.len(),
{
    lemma_keywords_view_len(s);
    if s.len() > 0 {
        if i < s.len() - 1 {
            lemma_keywords_view_index(s.subrange(0, s.len() - 1), i);
            assert(s.subrange(0, s.len() - 1)[i] == s[i]);
        }
    }
}

/// The view of a sequence of keywords has the same length.
pub broadcast proof fn lemma_keywords_view_len(s: Seq<Keyword>)
    ensures
        #[trigger] keywords_view(s).len() == s.len(),
    decreases s.len(),
{
    if s.len() > 0 {
        lemma_keywords_view_len(s.subrange(0, s.len() - 1));
    }
}

/// Fragment sequence views index pointwise.
pub broadcast proof fn lemma_fragments_view_index(s: Seq<Fragment>, i: int)
    requires
        0 <= i < s.len(),
    ensures
        fragments_view(s).len() == s.len(),
        #[trigger] fragments_view(s)[i] == (match s[i] {
            Fragment::Expr(e) => FragmentV::Expr(expr_view(e)),
            Fragment::Stmt(t) => FragmentV::Stmt(stmt_view(t)),
        }),
    decreases s.len(),
{
    lemma_fragments_view_len(s);
    if s.len() > 0 {
        if i < s.len() - 1 {
            lemma_fragments_view_index(s.subrange(0, s.len() - 1), i);
            assert(s.subrange(0, s.len() - 1)[i] == s[i]);
        }
    }
}

/// The view of a sequence of fragments has the same length.
pub broadcast proof fn lemma_fragments_view_len(s: Seq<Fragment>)
    ensures
        #[trigger] fragments_view(s).len() == s.len(),
    decreases s.len(),
{
    if s.len() > 0 {
        lemma_fragments_view_len(s.subrange(0, s.len() - 1));
    }
}

} // verus!
