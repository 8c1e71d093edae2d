//! The abstract syntax tree produced by the parser.

use vstd::prelude::*;

verus! {

/// A whole program: a sequence of function definitions.
#[derive(Debug, PartialEq, Eq)]
pub struct Module {
    pub funcs: Vec<Func>,
}

/// One function definition: `func name(args...) body`.
#[derive(Debug, PartialEq, Eq)]
pub struct Func {
    pub name: String,
    pub args: Vec<String>,
    pub body: Expr,
}

/// An expression.  Every syntactic form of the language evaluates to a
/// 32-bit signed integer.
#[derive(Debug, PartialEq, Eq)]
pub enum Expr {
    IntLiteral(i32),
    Ident(String),
    BinaryOp(Box<Expr>, BinaryOp, Box<Expr>),
    PrefixOp(PrefixOp, Box<Expr>),
    /// `name = rhs`; evaluates to 0.
    Assign(String, Box<Expr>),
    Call(String, Vec<Expr>),
    /// `while (cond) body`; evaluates to 0.
    While(Box<Expr>, Box<Expr>),
    /// `if (cond) then_branch else else_branch`; `else` is mandatory.
    If(Box<Expr>, Box<Expr>, Box<Expr>),
    /// `{ e1; e2; ...; en; }`; evaluates to the last expression, or 0 when
    /// empty.
    Block(Vec<Expr>),
    /// `var name = init in body`: a lexical binding of `name` in `body`.
    Var(String, Box<Expr>, Box<Expr>),
}

#[derive(Debug, Clone, Copy, PartialEq, Eq, Structural)]
pub enum BinaryOp {
    Add,
    Sub,
    Mul,
    Div,
    Mod,
    Lt,
    Gt,
    Le,
    Ge,
    Eq,
    Ne,
    And,
    Or,
}

#[derive(Debug, Clone, Copy, PartialEq, Eq, Structural)]
pub enum PrefixOp {
    Not,
    Minus,
}

/// The mathematical value of an expression: textual payloads as character
/// sequences, children as sequences.
pub enum ExprV {
    IntLiteral(i32),
    Ident(Seq<char>),
    BinaryOp(Box<ExprV>, BinaryOp, Box<ExprV>),
    PrefixOp(PrefixOp, Box<ExprV>),
    Assign(Seq<char>, Box<ExprV>),
    Call(Seq<char>, Seq<ExprV>),
    While(Box<ExprV>, Box<ExprV>),
    If(Box<ExprV>, Box<ExprV>, Box<ExprV>),
    Block(Seq<ExprV>),
    Var(Seq<char>, Box<ExprV>, Box<ExprV>),
}

/// The mathematical value of a function definition.
pub struct FuncV {
    pub name: Seq<char>,
    pub args: Seq<Seq<char>>,
    pub body: ExprV,
}

/// The mathematical value of a module.
pub struct ModuleV {
    pub funcs: Seq<FuncV>,
}

/// The mathematical value of an expression.
pub open spec fn expr_view(e: Expr) -> ExprV
    decreases e, 0int,
{
    match e {
        Expr::IntLiteral(x) => ExprV::IntLiteral(x),
        Expr::Ident(n) => ExprV::Ident(n@),
        Expr::BinaryOp(l, op, r) => ExprV::BinaryOp(
            Box::new(expr_view(*l)),
            op,
            Box::new(expr_view(*r)),
        ),
        Expr::PrefixOp(op, a) => ExprV::PrefixOp(op, Box::new(expr_view(*a))),
        Expr::Assign(n, rhs) => ExprV::Assign(n@, Box::new(expr_view(*rhs))),
        Expr::Call(f, args) => ExprV::Call(f@, exprs_view(args@, args@.len() as int)),
        Expr::While(c, b) => ExprV::While(Box::new(expr_view(*c)), Box::new(expr_view(*b))),
        Expr::If(c, t, e2) => ExprV::If(
            Box::new(expr_view(*c)),
            Box::new(expr_view(*t)),
            Box::new(expr_view(*e2)),
        ),
        Expr::Block(es) => ExprV::Block(exprs_view(es@, es@.len() as int)),
        Expr::Var(n, init, body) => ExprV::Var(
            n@,
            Box::new(expr_view(*init)),
            Box::new(expr_view(*body)),
        ),
    }
}

/// The views of the first `n` expressions of `es`.
pub open spec fn exprs_view(es: Seq<Expr>, n: int) -> Seq<ExprV>
    decreases es, n,
{
    if n <= 0 {
        Seq::empty()
    } else if n - 1 < es.len() {
        exprs_view(es, n - 1).push(expr_view(es[n - 1]))
    } else {
        exprs_view(es, n - 1)
    }
}

/// The views of a sequence of names.
pub open spec fn strings_view(ss: Seq<String>) -> Seq<Seq<char>> {
    ss.map_values(|s: String| s@)
}

/// The mathematical value of a function definition.
pub open spec fn func_view(f: Func) -> FuncV {
    FuncV { name: f.name@, args: strings_view(f.args@), body: expr_view(f.body) }
}

/// The mathematical value of a module.
pub open spec fn module_view(m: Module) -> ModuleV {
    ModuleV { funcs: funcs_view(m.funcs@, m.funcs@.len() as int) }
}

/// The views of the first `n` functions of `fs`.
pub open spec fn funcs_view(fs: Seq<Func>, n: int) -> Seq<FuncV>
    decreases n,
{
    if n <= 0 {
        Seq::empty()
    } else if n - 1 < fs.len() {
        funcs_view(fs, n - 1).push(func_view(fs[n - 1]))
    } else {
        funcs_view(fs, n - 1)
    }
}

/// The view of an expression prefix depends only on its elements.
pub proof fn lemma_exprs_view_prefix(a: Seq<Expr>, b: Seq<Expr>, n: int)
    requires
        n <= a.len(),
        n <= b.len(),
        forall|i: int| 0 <= i < n ==> a[i] == b[i],
    ensures
        exprs_view(a, n) == exprs_view(b, n),
    decreases n,
{
    if n > 0 {
        lemma_exprs_view_prefix(a, b, n - 1);
    }
}

/// Appending one expression appends its view.
pub proof fn lemma_exprs_view_push(ps: Seq<Expr>, e: Expr)
    ensures
        exprs_view(ps.push(e), ps.len() as int + 1) == exprs_view(ps, ps.len() as int).push(
            expr_view(e),
        ),
{
    lemma_exprs_view_prefix(ps.push(e), ps, ps.len() as int);
    assert(ps.push(e)[ps.len() as int] == e);
}

/// The view of a function prefix depends only on its elements.
pub proof fn lemma_funcs_view_prefix(a: Seq<Func>, b: Seq<Func>, n: int)
    requires
        n <= a.len(),
        n <= b.len(),
        forall|i: int| 0 <= i < n ==> a[i] == b[i],
    ensures
        funcs_view(a, n) == funcs_view(b, n),
    decreases n,
{
    if n > 0 {
        lemma_funcs_view_prefix(a, b, n - 1);
    }
}

/// Appending one function appends its view.
pub proof fn lemma_funcs_view_push(fs: Seq<Func>, f: Func)
    ensures
        funcs_view(fs.push(f), fs.len() as int + 1) == funcs_view(fs, fs.len() as int).push(
            func_view(f),
        ),
{
    lemma_funcs_view_prefix(fs.push(f), fs, fs.len() as int);
    assert(fs.push(f)[fs.len() as int] == f);
}

/// Appending one name appends its view.
pub proof fn lemma_strings_view_push(ss: Seq<String>, x: String)
    ensures
        strings_view(ss.push(x)) == strings_view(ss).push(x@),
{
    assert(strings_view(ss.push(x)) =~= strings_view(ss).push(x@));
}

} // verus!
