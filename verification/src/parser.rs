//! The parser: a token sequence to an abstract syntax tree.
//!
//! A layered operator-precedence grammar, one function per precedence level:
//! assignment (right-associative, lowest) over `||`, `&&`, equality,
//! relation, additive, multiplicative, prefix, call postfix, and atoms.
//! `if`, `while`, block and `var` forms are alternatives at expression
//! position.  Every function consumes from `pos` forward and reports a
//! failure as the position of the offending token (or the input's end).

use vstd::prelude::*;

use crate::ast::{
    expr_view, exprs_view, func_view, lemma_exprs_view_push, module_view, BinaryOp, Expr, ExprV,
    Func, FuncV, Module, ModuleV, PrefixOp,
};
use crate::token::{Reserved, ReservedOp, Token};

verus! {

/// A syntax error: the position of the offending token, or one past the
/// last token when the input ended too early.
#[derive(Debug, Clone, Copy, PartialEq, Eq, Structural)]
pub struct ParseError {
    pub pos: usize,
}

/// Whether a token is the operator spelled `lit`.
pub open spec fn is_op(t: Token, lit: Seq<char>) -> bool {
    match t {
        Token::Operator(s) => s@ == lit,
        _ => false,
    }
}

/// The prefix operator a token denotes, if any.
pub open spec fn prefix_op_of(t: Token) -> Option<PrefixOp> {
    if is_op(t, "-"@) {
        Some(PrefixOp::Minus)
    } else if is_op(t, "!"@) {
        Some(PrefixOp::Not)
    } else {
        None
    }
}

/// The binary operator a token denotes at the given precedence level
/// (3 multiplicative up to 8 disjunction), if any.
pub open spec fn level_op(level: int, t: Token) -> Option<BinaryOp> {
    if level == 3 {
        if is_op(t, "*"@) {
            Some(BinaryOp::Mul)
        } else if is_op(t, "/"@) {
            Some(BinaryOp::Div)
        } else if is_op(t, "%"@) {
            Some(BinaryOp::Mod)
        } else {
            None
        }
    } else if level == 4 {
        if is_op(t, "+"@) {
            Some(BinaryOp::Add)
        } else if is_op(t, "-"@) {
            Some(BinaryOp::Sub)
        } else {
            None
        }
    } else if level == 5 {
        if is_op(t, "<"@) {
            Some(BinaryOp::Lt)
        } else if is_op(t, ">"@) {
            Some(BinaryOp::Gt)
        } else if is_op(t, "<="@) {
            Some(BinaryOp::Le)
        } else if is_op(t, ">="@) {
            Some(BinaryOp::Ge)
        } else {
            None
        }
    } else if level == 6 {
        if is_op(t, "=="@) {
            Some(BinaryOp::Eq)
        } else if is_op(t, "!="@) {
            Some(BinaryOp::Ne)
        } else {
            None
        }
    } else if level == 7 {
        if is_op(t, "&&"@) {
            Some(BinaryOp::And)
        } else {
            None
        }
    } else if level == 8 {
        if is_op(t, "||"@) {
            Some(BinaryOp::Or)
        } else {
            None
        }
    } else {
        None
    }
}

/// The grammar, one specification function per parser: each returns the
/// derived value and the position one past what it consumed, or the
/// position of the offending token.  The bound guards after each sub-parse
/// can never fire — every parser consumes at least one token and stays in
/// range, as the executable functions' contracts show — but they make the
/// recursion's termination self-evident.
pub open spec fn spec_paren_expr(ts: Seq<Token>, pos: int) -> Result<(ExprV, int), int>
    decreases ts.len() - pos, 1int,
{
    if pos < 0 || pos >= ts.len() {
        Err(pos)
    } else if !(ts[pos] matches Token::OpenParen) {
        Err(pos)
    } else {
        match spec_expr(ts, pos + 1) {
            Err(q) => Err(q),
            Ok((e, p)) => if !(pos + 1 < p && p <= ts.len()) {
                Err(p)
            } else if p < ts.len() && (ts[p] matches Token::CloseParen) {
                Ok((e, p + 1))
            } else {
                Err(p)
            },
        }
    }
}

/// Atoms: an integer literal, a parenthesised expression, or an identifier.
pub open spec fn spec_expr0(ts: Seq<Token>, pos: int) -> Result<(ExprV, int), int>
    decreases ts.len() - pos, 2int,
{
    if pos < 0 || pos >= ts.len() {
        Err(pos)
    } else {
        match ts[pos] {
            Token::IntLiteral(x) => Ok((ExprV::IntLiteral(x), pos + 1)),
            Token::Ident(name) => Ok((ExprV::Ident(name@), pos + 1)),
            Token::OpenParen => spec_paren_expr(ts, pos),
            _ => Err(pos),
        }
    }
}

/// One or more comma-separated arguments, the opening parenthesis already
/// consumed; stops before the closing parenthesis.
pub open spec fn spec_params_chain(ts: Seq<Token>, acc: Seq<ExprV>, p: int) -> Result<
    (Seq<ExprV>, int),
    int,
>
    decreases ts.len() - p, 20int,
{
    match spec_expr(ts, p) {
        Err(q) => Err(q),
        Ok((e, p2)) => if !(p < p2 && p2 <= ts.len()) {
            Err(p2)
        } else if p2 < ts.len() && (ts[p2] matches Token::Comma) {
            spec_params_chain(ts, acc.push(e), p2 + 1)
        } else {
            Ok((acc.push(e), p2))
        },
    }
}

/// One call group `( e1 , ... , en )`, possibly empty.
pub open spec fn spec_call_params(ts: Seq<Token>, pos: int) -> Result<(Seq<ExprV>, int), int>
    decreases ts.len() - pos, 1int,
{
    if pos < 0 || pos >= ts.len() {
        Err(pos)
    } else if !(ts[pos] matches Token::OpenParen) {
        Err(pos)
    } else if pos + 1 < ts.len() && (ts[pos + 1] matches Token::CloseParen) {
        Ok((Seq::empty(), pos + 2))
    } else {
        match spec_params_chain(ts, Seq::empty(), pos + 1) {
            Err(q) => Err(q),
            Ok((es, p)) => if !(pos + 1 < p && p <= ts.len()) {
                Err(p)
            } else if p < ts.len() && (ts[p] matches Token::CloseParen) {
                Ok((es, p + 1))
            } else {
                Err(p)
            },
        }
    }
}

/// Zero or more call groups chained onto `e`; only an identifier may be
/// called, and a failed chain is reported at the whole postfix expression's
/// start `pos0`.
pub open spec fn spec_call_chain(ts: Seq<Token>, pos0: int, e: ExprV, p: int) -> Result<
    (ExprV, int),
    int,
>
    decreases ts.len() - p, 2int,
{
    if p < ts.len() && (ts[p] matches Token::OpenParen) {
        match spec_call_params(ts, p) {
            Err(q) => Err(q),
            Ok((params, p2)) => if !(p < p2 && p2 <= ts.len()) {
                Err(p2)
            } else {
                match e {
                    ExprV::Ident(name) => spec_call_chain(
                        ts,
                        pos0,
                        ExprV::Call(name, params),
                        p2,
                    ),
                    _ => Err(pos0),
                }
            },
        }
    } else {
        Ok((e, p))
    }
}

/// Call postfix over an atom.
pub open spec fn spec_expr1(ts: Seq<Token>, pos: int) -> Result<(ExprV, int), int>
    decreases ts.len() - pos, 3int,
{
    match spec_expr0(ts, pos) {
        Err(q) => Err(q),
        Ok((e, p)) => if !(pos < p && p <= ts.len()) {
            Err(p)
        } else {
            spec_call_chain(ts, pos, e, p)
        },
    }
}

/// Prefix operators `-` and `!`, right-associative.
pub open spec fn spec_expr2(ts: Seq<Token>, pos: int) -> Result<(ExprV, int), int>
    decreases ts.len() - pos, 5int,
{
    if 0 <= pos && pos < ts.len() {
        match prefix_op_of(ts[pos]) {
            Some(op) => match spec_expr2(ts, pos + 1) {
                Err(q) => Err(q),
                Ok((e, p)) => Ok((ExprV::PrefixOp(op, Box::new(e)), p)),
            },
            None => spec_expr1(ts, pos),
        }
    } else {
        spec_expr1(ts, pos)
    }
}

/// The binary level clamped to the ladder's range `3..=8`, so the mutual
/// recursion over levels has a well-founded measure whatever level is
/// supplied.
pub open spec fn level_rank(level: int) -> int {
    if level < 3 {
        3
    } else if level > 8 {
        8
    } else {
        level
    }
}

/// The left-associative chain of one binary precedence level.
pub open spec fn spec_binop_chain(ts: Seq<Token>, level: int, e: ExprV, p: int) -> Result<
    (ExprV, int),
    int,
>
    decreases ts.len() - p, 0int,
{
    if 0 <= p && p < ts.len() {
        match level_op(level, ts[p]) {
            Some(op) => match spec_binop_sub(ts, level, p + 1) {
                Err(q) => Err(q),
                Ok((rhs, p2)) => if !(p < p2 && p2 <= ts.len()) {
                    Err(p2)
                } else {
                    spec_binop_chain(
                        ts,
                        level,
                        ExprV::BinaryOp(Box::new(e), op, Box::new(rhs)),
                        p2,
                    )
                },
            },
            None => Ok((e, p)),
        }
    } else {
        Ok((e, p))
    }
}

/// The parser one step below binary level `level`.
pub open spec fn spec_binop_sub(ts: Seq<Token>, level: int, pos: int) -> Result<(ExprV, int), int>
    decreases ts.len() - pos, level_rank(level) * 2,
{
    if level <= 3 {
        spec_expr2(ts, pos)
    } else {
        spec_binop_level(ts, level_rank(level) - 1, pos)
    }
}

/// One binary precedence level: its sub-level, then a chain of its
/// operators.
pub open spec fn spec_binop_level(ts: Seq<Token>, level: int, pos: int) -> Result<
    (ExprV, int),
    int,
>
    decreases ts.len() - pos, level_rank(level) * 2 + 1,
{
    match spec_binop_sub(ts, level, pos) {
        Err(q) => Err(q),
        Ok((e, p)) => if !(pos < p && p <= ts.len()) {
            Err(p)
        } else {
            spec_binop_chain(ts, level, e, p)
        },
    }
}

/// Assignment, right-associative; the chain's left-hand sides must be bare
/// identifiers, a violation reported at the chain's start.
pub open spec fn spec_expr9(ts: Seq<Token>, pos: int) -> Result<(ExprV, int), int>
    decreases ts.len() - pos, 18int,
{
    match spec_binop_level(ts, 8, pos) {
        Err(q) => Err(q),
        Ok((lhs, p)) => if !(pos < p && p <= ts.len()) {
            Err(p)
        } else if p < ts.len() && (ts[p] matches Token::ReservedOp(ReservedOp::Assign)) {
            match spec_expr9(ts, p + 1) {
                Err(q) => Err(q),
                Ok((rhs, p2)) => match lhs {
                    ExprV::Ident(name) => Ok((ExprV::Assign(name, Box::new(rhs)), p2)),
                    _ => Err(pos),
                },
            }
        } else {
            Ok((lhs, p))
        },
    }
}

/// `if (cond) then_branch else else_branch`.
pub open spec fn spec_if(ts: Seq<Token>, pos: int) -> Result<(ExprV, int), int>
    decreases ts.len() - pos, 1int,
{
    if !(0 <= pos && pos < ts.len() && (ts[pos] matches Token::Reserved(Reserved::If))) {
        Err(pos)
    } else if !(pos + 1 < ts.len() && (ts[pos + 1] matches Token::OpenParen)) {
        Err(pos + 1)
    } else {
        match spec_expr(ts, pos + 2) {
            Err(q) => Err(q),
            Ok((cond, p)) => if !(pos + 2 < p && p <= ts.len()) {
                Err(p)
            } else if !(p < ts.len() && (ts[p] matches Token::CloseParen)) {
                Err(p)
            } else {
                match spec_expr(ts, p + 1) {
                    Err(q) => Err(q),
                    Ok((then_e, p2)) => if !(p + 1 < p2 && p2 <= ts.len()) {
                        Err(p2)
                    } else if !(p2 < ts.len() && (ts[p2] matches Token::Reserved(Reserved::Else))) {
                        Err(p2)
                    } else {
                        match spec_expr(ts, p2 + 1) {
                            Err(q) => Err(q),
                            Ok((else_e, p3)) => Ok(
                                (
                                    ExprV::If(
                                        Box::new(cond),
                                        Box::new(then_e),
                                        Box::new(else_e),
                                    ),
                                    p3,
                                ),
                            ),
                        }
                    },
                }
            },
        }
    }
}

/// `while (cond) body`.
pub open spec fn spec_while(ts: Seq<Token>, pos: int) -> Result<(ExprV, int), int>
    decreases ts.len() - pos, 1int,
{
    if !(0 <= pos && pos < ts.len() && (ts[pos] matches Token::Reserved(Reserved::While))) {
        Err(pos)
    } else if !(pos + 1 < ts.len() && (ts[pos + 1] matches Token::OpenParen)) {
        Err(pos + 1)
    } else {
        match spec_expr(ts, pos + 2) {
            Err(q) => Err(q),
            Ok((cond, p)) => if !(pos + 2 < p && p <= ts.len()) {
                Err(p)
            } else if !(p < ts.len() && (ts[p] matches Token::CloseParen)) {
                Err(p)
            } else {
                match spec_expr(ts, p + 1) {
                    Err(q) => Err(q),
                    Ok((body, p2)) => Ok(
                        (ExprV::While(Box::new(cond), Box::new(body)), p2),
                    ),
                }
            },
        }
    }
}

/// The inner expressions of a block, each followed by a semicolon, up to
/// the closing brace.
pub open spec fn spec_block_chain(ts: Seq<Token>, acc: Seq<ExprV>, p: int) -> Result<
    (Seq<ExprV>, int),
    int,
>
    decreases ts.len() - p, 20int,
{
    if 0 <= p && p < ts.len() && (ts[p] matches Token::CloseBrace) {
        Ok((acc, p + 1))
    } else {
        match spec_expr(ts, p) {
            Err(q) => Err(q),
            Ok((e, p2)) => if !(p < p2 && p2 <= ts.len()) {
                Err(p2)
            } else if !(p2 < ts.len() && (ts[p2] matches Token::SemiColon)) {
                Err(p2)
            } else {
                spec_block_chain(ts, acc.push(e), p2 + 1)
            },
        }
    }
}

/// `{ e1 ; e2 ; ... ; en ; }`.
pub open spec fn spec_block(ts: Seq<Token>, pos: int) -> Result<(ExprV, int), int>
    decreases ts.len() - pos, 1int,
{
    if !(0 <= pos && pos < ts.len() && (ts[pos] matches Token::OpenBrace)) {
        Err(pos)
    } else {
        match spec_block_chain(ts, Seq::empty(), pos + 1) {
            Err(q) => Err(q),
            Ok((es, p)) => Ok((ExprV::Block(es), p)),
        }
    }
}

/// `var name = init in body`.
pub open spec fn spec_var(ts: Seq<Token>, pos: int) -> Result<(ExprV, int), int>
    decreases ts.len() - pos, 1int,
{
    if !(0 <= pos && pos < ts.len() && (ts[pos] matches Token::Reserved(Reserved::Var))) {
        Err(pos)
    } else if pos + 1 >= ts.len() {
        Err(pos + 1)
    } else {
        match ts[pos + 1] {
            Token::Ident(name) => if !(pos + 2 < ts.len() && (ts[pos + 2]
                matches Token::ReservedOp(ReservedOp::Assign))) {
                Err(pos + 2)
            } else {
                match spec_expr(ts, pos + 3) {
                    Err(q) => Err(q),
                    Ok((init, p)) => if !(pos + 3 < p && p <= ts.len()) {
                        Err(p)
                    } else if !(p < ts.len() && (ts[p] matches Token::Reserved(Reserved::In))) {
                        Err(p)
                    } else {
                        match spec_expr(ts, p + 1) {
                            Err(q) => Err(q),
                            Ok((body, p2)) => Ok(
                                (
                                    ExprV::Var(name@, Box::new(init), Box::new(body)),
                                    p2,
                                ),
                            ),
                        }
                    },
                }
            },
            _ => Err(pos + 1),
        }
    }
}

/// An expression: a compound form, or the precedence ladder.
pub open spec fn spec_expr(ts: Seq<Token>, pos: int) -> Result<(ExprV, int), int>
    decreases ts.len() - pos, 19int,
{
    if 0 <= pos && pos < ts.len() {
        match ts[pos] {
            Token::Reserved(Reserved::If) => spec_if(ts, pos),
            Token::Reserved(Reserved::While) => spec_while(ts, pos),
            Token::OpenBrace => spec_block(ts, pos),
            Token::Reserved(Reserved::Var) => spec_var(ts, pos),
            _ => spec_expr9(ts, pos),
        }
    } else {
        spec_expr9(ts, pos)
    }
}

/// One or more comma-separated parameter names, up to (not consuming) the
/// closing parenthesis.
pub open spec fn spec_args_chain(ts: Seq<Token>, acc: Seq<Seq<char>>, p: int) -> Result<
    (Seq<Seq<char>>, int),
    int,
>
    decreases ts.len() - p, 1int,
{
    if p < 0 || p >= ts.len() {
        Err(if p < 0 {
            p
        } else {
            ts.len() as int
        })
    } else {
        match ts[p] {
            Token::Ident(name) => if p + 1 < ts.len() && (ts[p + 1] matches Token::Comma) {
                spec_args_chain(ts, acc.push(name@), p + 2)
            } else {
                Ok((acc.push(name@), p + 1))
            },
            _ => Err(p),
        }
    }
}

/// One function definition: `func name(p1, ..., pn) body`.
pub open spec fn spec_func(ts: Seq<Token>, pos: int) -> Result<(FuncV, int), int>
    decreases ts.len() - pos, 1int,
{
    if !(0 <= pos && pos < ts.len() && (ts[pos] matches Token::Reserved(Reserved::Func))) {
        Err(pos)
    } else if pos + 1 >= ts.len() {
        Err(pos + 1)
    } else {
        match ts[pos + 1] {
            Token::Ident(name) => if !(pos + 2 < ts.len() && (ts[pos + 2]
                matches Token::OpenParen)) {
                Err(pos + 2)
            } else {
                let args_result: Result<(Seq<Seq<char>>, int), int> = if pos + 3 < ts.len() && (ts[
                    pos + 3] matches Token::CloseParen) {
                    Ok((Seq::empty(), pos + 4))
                } else {
                    match spec_args_chain(ts, Seq::empty(), pos + 3) {
                        Err(q) => Err(q),
                        Ok((args, p)) => if !(pos + 2 < p && p <= ts.len()) {
                            Err(p)
                        } else if p < ts.len() && (ts[p] matches Token::CloseParen) {
                            Ok((args, p + 1))
                        } else {
                            Err(p)
                        },
                    }
                };
                match args_result {
                    Err(q) => Err(q),
                    Ok((args, p)) => if !(pos + 2 < p && p <= ts.len()) {
                        Err(p)
                    } else {
                        match spec_expr(ts, p) {
                            Err(q) => Err(q),
                            Ok((body, p2)) => Ok((FuncV { name: name@, args, body }, p2)),
                        }
                    },
                }
            },
            _ => Err(pos + 1),
        }
    }
}

/// Zero or more function definitions; nothing may follow the last.
pub open spec fn spec_funcs_chain(ts: Seq<Token>, acc: Seq<FuncV>, p: int) -> Result<ModuleV, int>
    decreases ts.len() - p, 2int,
{
    if 0 <= p && p < ts.len() && (ts[p] matches Token::Reserved(Reserved::Func)) {
        match spec_func(ts, p) {
            Err(q) => Err(q),
            Ok((f, p2)) => if !(p < p2 && p2 <= ts.len()) {
                Err(p2)
            } else {
                spec_funcs_chain(ts, acc.push(f), p2)
            },
        }
    } else if 0 <= p && p < ts.len() {
        Err(p)
    } else {
        Ok(ModuleV { funcs: acc })
    }
}

/// A whole program.
pub open spec fn spec_parse(ts: Seq<Token>) -> Result<ModuleV, int> {
    spec_funcs_chain(ts, Seq::empty(), 0)
}

/// An expression parser's result matches its specification: the same
/// failure position, or the same end position and an AST with the
/// specified value.
pub open spec fn expr_res_matches(
    r: Result<(Expr, usize), ParseError>,
    s: Result<(ExprV, int), int>,
) -> bool {
    match (r, s) {
        (Ok((e, p)), Ok((ev, q))) => expr_view(e) == ev && p as int == q,
        (Err(pe), Err(q)) => pe.pos as int == q,
        _ => false,
    }
}

/// An argument-list parser's result matches its specification.
pub open spec fn params_res_matches(
    r: Result<(Vec<Expr>, usize), ParseError>,
    s: Result<(Seq<ExprV>, int), int>,
) -> bool {
    match (r, s) {
        (Ok((es, p)), Ok((esv, q))) => exprs_view(es@, es@.len() as int) == esv && p as int == q,
        (Err(pe), Err(q)) => pe.pos as int == q,
        _ => false,
    }
}

/// A function parser's result matches its specification.
pub open spec fn func_res_matches(
    r: Result<(Func, usize), ParseError>,
    s: Result<(FuncV, int), int>,
) -> bool {
    match (r, s) {
        (Ok((f, p)), Ok((fv, q))) => func_view(f) == fv && p as int == q,
        (Err(pe), Err(q)) => pe.pos as int == q,
        _ => false,
    }
}

/// Whether a string holds exactly the given literal text.
fn string_is(s: &String, lit: &str) -> (r: bool)
    ensures
        r == (s@ == lit@),
{
    let owned: String = lit.to_owned();
    *s == owned
}

/// Parse a parenthesised expression: `( expr )`.
fn paren_expr(tokens: &Vec<Token>, pos: usize) -> (r: Result<(Expr, usize), ParseError>)
    requires
        pos <= tokens@.len(),
    ensures
        r matches Ok((e, p2)) ==> pos < p2 <= tokens@.len(),
        r matches Err(e2) ==> e2.pos <= tokens@.len(),
        expr_res_matches(r, spec_paren_expr(tokens@, pos as int)),
    decreases tokens@.len() - pos, 1int,
{
    if pos >= tokens.len() {
        return Err(ParseError { pos });
    }
    match &tokens[pos] {
        Token::OpenParen => {},
        _ => {
            return Err(ParseError { pos });
        },
    }
    let (e, p) = expr(tokens, pos + 1)?;
    if p >= tokens.len() {
        return Err(ParseError { pos: p });
    }
    match &tokens[p] {
        Token::CloseParen => Ok((e, p + 1)),
        _ => Err(ParseError { pos: p }),
    }
}

/// Atoms: an integer literal, a parenthesised expression, or an identifier.
fn expr0(tokens: &Vec<Token>, pos: usize) -> (r: Result<(Expr, usize), ParseError>)
    requires
        pos <= tokens@.len(),
    ensures
        r matches Ok((e, p2)) ==> pos < p2 <= tokens@.len(),
        r matches Err(e2) ==> e2.pos <= tokens@.len(),
        expr_res_matches(r, spec_expr0(tokens@, pos as int)),
    decreases tokens@.len() - pos, 2int,
{
    if pos >= tokens.len() {
        return Err(ParseError { pos });
    }
    match &tokens[pos] {
        Token::IntLiteral(x) => Ok((Expr::IntLiteral(*x), pos + 1)),
        Token::Ident(name) => Ok((Expr::Ident(name.clone()), pos + 1)),
        Token::OpenParen => paren_expr(tokens, pos),
        _ => Err(ParseError { pos }),
    }
}

/// The arguments of one call group: `( e1 , e2 , ... )`.
fn call_params(tokens: &Vec<Token>, pos: usize) -> (r: Result<(Vec<Expr>, usize), ParseError>)
    requires
        pos <= tokens@.len(),
    ensures
        r matches Ok((es, p2)) ==> pos < p2 <= tokens@.len(),
        r matches Err(e2) ==> e2.pos <= tokens@.len(),
        params_res_matches(r, spec_call_params(tokens@, pos as int)),
    decreases tokens@.len() - pos, 1int,
{
    if pos >= tokens.len() {
        return Err(ParseError { pos });
    }
    match &tokens[pos] {
        Token::OpenParen => {},
        _ => {
            return Err(ParseError { pos });
        },
    }
    let mut p = pos + 1;
    let mut params: Vec<Expr> = Vec::new();
    if p < tokens.len() && matches!(&tokens[p], Token::CloseParen) {
        return Ok((params, p + 1));
    }
    loop
        invariant_except_break
            pos < tokens@.len(),
            tokens@[pos as int] matches Token::OpenParen,
            !(pos + 1 < tokens@.len() && (tokens@[pos as int + 1] matches Token::CloseParen)),
            pos < p <= tokens@.len(),
            spec_params_chain(tokens@, Seq::empty(), pos as int + 1) == spec_params_chain(
                tokens@,
                exprs_view(params@, params@.len() as int),
                p as int,
            ),
        ensures
            pos < tokens@.len(),
            tokens@[pos as int] matches Token::OpenParen,
            !(pos + 1 < tokens@.len() && (tokens@[pos as int + 1] matches Token::CloseParen)),
            pos + 1 < p <= tokens@.len(),
            spec_params_chain(tokens@, Seq::empty(), pos as int + 1) == Ok::<
                (Seq<ExprV>, int),
                int,
            >((exprs_view(params@, params@.len() as int), p as int)),
        decreases tokens@.len() - p,
    {
        let ghost params0 = params@;
        let (e, p2) = expr(tokens, p)?;
        params.push(e);
        proof {
            lemma_exprs_view_push(params0, e);
        }
        p = p2;
        if p < tokens.len() && matches!(&tokens[p], Token::Comma) {
            p = p + 1;
        } else {
            break;
        }
    }
    if p < tokens.len() && matches!(&tokens[p], Token::CloseParen) {
        Ok((params, p + 1))
    } else {
        Err(ParseError { pos: p })
    }
}

/// Call postfix: zero or more `(args)` groups chained onto an atom; only a
/// bare identifier may be called.
fn expr1(tokens: &Vec<Token>, pos: usize) -> (r: Result<(Expr, usize), ParseError>)
    requires
        pos <= tokens@.len(),
    ensures
        r matches Ok((e, p2)) ==> pos < p2 <= tokens@.len(),
        r matches Err(e2) ==> e2.pos <= tokens@.len(),
        expr_res_matches(r, spec_expr1(tokens@, pos as int)),
    decreases tokens@.len() - pos, 3int,
{
    let (e0, pos1) = expr0(tokens, pos)?;
    let mut e = e0;
    let mut p = pos1;
    while p < tokens.len() && matches!(&tokens[p], Token::OpenParen)
        invariant
            pos < p <= tokens@.len(),
            spec_expr1(tokens@, pos as int) == spec_call_chain(
                tokens@,
                pos as int,
                expr_view(e),
                p as int,
            ),
        decreases tokens@.len() - p,
    {
        let (params, p2) = call_params(tokens, p)?;
        match e {
            Expr::Ident(name) => {
                e = Expr::Call(name, params);
            },
            _ => {
                return Err(ParseError { pos });
            },
        }
        p = p2;
    }
    Ok((e, p))
}

/// Prefix operators `-` and `!`, right-associative.
fn expr2(tokens: &Vec<Token>, pos: usize) -> (r: Result<(Expr, usize), ParseError>)
    requires
        pos <= tokens@.len(),
    ensures
        r matches Ok((e, p2)) ==> pos < p2 <= tokens@.len(),
        r matches Err(e2) ==> e2.pos <= tokens@.len(),
        expr_res_matches(r, spec_expr2(tokens@, pos as int)),
    decreases tokens@.len() - pos, 4int,
{
    if pos < tokens.len() {
        let op = match &tokens[pos] {
            Token::Operator(op) => {
                if string_is(op, "-") {
                    Some(PrefixOp::Minus)
                } else if string_is(op, "!") {
                    Some(PrefixOp::Not)
                } else {
                    None
                }
            },
            _ => None,
        };
        match op {
            Some(op) => {
                let (e, pos2) = expr2(tokens, pos + 1)?;
                return Ok((Expr::PrefixOp(op, Box::new(e)), pos2));
            },
            None => {},
        }
    }
    expr1(tokens, pos)
}

/// Multiplicative operators `* / %`, left-associative.
fn expr3(tokens: &Vec<Token>, pos: usize) -> (r: Result<(Expr, usize), ParseError>)
    requires
        pos <= tokens@.len(),
    ensures
        r matches Ok((e, p2)) ==> pos < p2 <= tokens@.len(),
        r matches Err(e2) ==> e2.pos <= tokens@.len(),
        expr_res_matches(r, spec_binop_level(tokens@, 3, pos as int)),
    decreases tokens@.len() - pos, 5int,
{
    let (e0, pos1) = expr2(tokens, pos)?;
    let mut e = e0;
    let mut p = pos1;
    loop
        invariant
            pos < p <= tokens@.len(),
            spec_binop_level(tokens@, 3, pos as int) == spec_binop_chain(
                tokens@,
                3,
                expr_view(e),
                p as int,
            ),
        decreases tokens@.len() - p,
    {
        let ghost spec_op = if 0 <= p < tokens@.len() {
            level_op(3, tokens@[p as int])
        } else {
            None
        };
        let op = if p < tokens.len() {
            match &tokens[p] {
                Token::Operator(op) => {
                    if string_is(op, "*") {
                        Some(BinaryOp::Mul)
                    } else if string_is(op, "/") {
                        Some(BinaryOp::Div)
                    } else if string_is(op, "%") {
                        Some(BinaryOp::Mod)
                    } else {
                        None
                    }
                },
                _ => None,
            }
        } else {
            None
        };
        proof {
            assert(op == spec_op);
        }
        match op {
            Some(op) => {
                let (rhs, p2) = match expr2(tokens, p + 1) {
                    Ok(v) => v,
                    Err(er) => {
                        proof {
                            assert(spec_binop_sub(tokens@, 3, p as int + 1) == Err::<
                                (ExprV, int),
                                int,
                            >(er.pos as int));
                            assert(spec_binop_chain(tokens@, 3, expr_view(e), p as int) == Err::<
                                (ExprV, int),
                                int,
                            >(er.pos as int));
                        }
                        return Err(er);
                    },
                };
                proof {
                    assert(spec_binop_sub(tokens@, 3, p as int + 1) == Ok::<(ExprV, int), int>(
                        (expr_view(rhs), p2 as int),
                    ));
                    assert(spec_binop_chain(tokens@, 3, expr_view(e), p as int)
                        == spec_binop_chain(
                        tokens@,
                        3,
                        ExprV::BinaryOp(
                            Box::new(expr_view(e)),
                            op,
                            Box::new(expr_view(rhs)),
                        ),
                        p2 as int,
                    ));
                }
                e = Expr::BinaryOp(Box::new(e), op, Box::new(rhs));
                p = p2;
            },
            None => {
                return Ok((e, p));
            },
        }
    }
}

/// Additive operators `+ -`, left-associative.
fn expr4(tokens: &Vec<Token>, pos: usize) -> (r: Result<(Expr, usize), ParseError>)
    requires
        pos <= tokens@.len(),
    ensures
        r matches Ok((e, p2)) ==> pos < p2 <= tokens@.len(),
        r matches Err(e2) ==> e2.pos <= tokens@.len(),
        expr_res_matches(r, spec_binop_level(tokens@, 4, pos as int)),
    decreases tokens@.len() - pos, 6int,
{
    let (e0, pos1) = expr3(tokens, pos)?;
    let mut e = e0;
    let mut p = pos1;
    loop
        invariant
            pos < p <= tokens@.len(),
            spec_binop_level(tokens@, 4, pos as int) == spec_binop_chain(
                tokens@,
                4,
                expr_view(e),
                p as int,
            ),
        decreases tokens@.len() - p,
    {
        let ghost spec_op = if 0 <= p < tokens@.len() {
            level_op(4, tokens@[p as int])
        } else {
            None
        };
        let op = if p < tokens.len() {
            match &tokens[p] {
                Token::Operator(op) => {
                    if string_is(op, "+") {
                        Some(BinaryOp::Add)
                    } else if string_is(op, "-") {
                        Some(BinaryOp::Sub)
                    } else {
                        None
                    }
                },
                _ => None,
            }
        } else {
            None
        };
        proof {
            assert(op == spec_op);
        }
        match op {
            Some(op) => {
                let (rhs, p2) = match expr3(tokens, p + 1) {
                    Ok(v) => v,
                    Err(er) => {
                        proof {
                            assert(spec_binop_sub(tokens@, 4, p as int + 1) == Err::<
                                (ExprV, int),
                                int,
                            >(er.pos as int));
                            assert(spec_binop_chain(tokens@, 4, expr_view(e), p as int) == Err::<
                                (ExprV, int),
                                int,
                            >(er.pos as int));
                        }
                        return Err(er);
                    },
                };
                proof {
                    assert(spec_binop_sub(tokens@, 4, p as int + 1) == Ok::<(ExprV, int), int>(
                        (expr_view(rhs), p2 as int),
                    ));
                    assert(spec_binop_chain(tokens@, 4, expr_view(e), p as int)
                        == spec_binop_chain(
                        tokens@,
                        4,
                        ExprV::BinaryOp(
                            Box::new(expr_view(e)),
                            op,
                            Box::new(expr_view(rhs)),
                        ),
                        p2 as int,
                    ));
                }
                e = Expr::BinaryOp(Box::new(e), op, Box::new(rhs));
                p = p2;
            },
            None => {
                return Ok((e, p));
            },
        }
    }
}

/// Relational operators `< > <= >=`, left-associative.
fn expr5(tokens: &Vec<Token>, pos: usize) -> (r: Result<(Expr, usize), ParseError>)
    requires
        pos <= tokens@.len(),
    ensures
        r matches Ok((e, p2)) ==> pos < p2 <= tokens@.len(),
        r matches Err(e2) ==> e2.pos <= tokens@.len(),
        expr_res_matches(r, spec_binop_level(tokens@, 5, pos as int)),
    decreases tokens@.len() - pos, 7int,
{
    let (e0, pos1) = expr4(tokens, pos)?;
    let mut e = e0;
    let mut p = pos1;
    loop
        invariant
            pos < p <= tokens@.len(),
            spec_binop_level(tokens@, 5, pos as int) == spec_binop_chain(
                tokens@,
                5,
                expr_view(e),
                p as int,
            ),
        decreases tokens@.len() - p,
    {
        let ghost spec_op = if 0 <= p < tokens@.len() {
            level_op(5, tokens@[p as int])
        } else {
            None
        };
        let op = if p < tokens.len() {
            match &tokens[p] {
                Token::Operator(op) => {
                    if string_is(op, "<") {
                        Some(BinaryOp::Lt)
                    } else if string_is(op, ">") {
                        Some(BinaryOp::Gt)
                    } else if string_is(op, "<=") {
                        Some(BinaryOp::Le)
                    } else if string_is(op, ">=") {
                        Some(BinaryOp::Ge)
                    } else {
                        None
                    }
                },
                _ => None,
            }
        } else {
            None
        };
        proof {
            assert(op == spec_op);
        }
        match op {
            Some(op) => {
                let (rhs, p2) = match expr4(tokens, p + 1) {
                    Ok(v) => v,
                    Err(er) => {
                        proof {
                            assert(spec_binop_sub(tokens@, 5, p as int + 1) == Err::<
                                (ExprV, int),
                                int,
                            >(er.pos as int));
                            assert(spec_binop_chain(tokens@, 5, expr_view(e), p as int) == Err::<
                                (ExprV, int),
                                int,
                            >(er.pos as int));
                        }
                        return Err(er);
                    },
                };
                proof {
                    assert(spec_binop_sub(tokens@, 5, p as int + 1) == Ok::<(ExprV, int), int>(
                        (expr_view(rhs), p2 as int),
                    ));
                    assert(spec_binop_chain(tokens@, 5, expr_view(e), p as int)
                        == spec_binop_chain(
                        tokens@,
                        5,
                        ExprV::BinaryOp(
                            Box::new(expr_view(e)),
                            op,
                            Box::new(expr_view(rhs)),
                        ),
                        p2 as int,
                    ));
                }
                e = Expr::BinaryOp(Box::new(e), op, Box::new(rhs));
                p = p2;
            },
            None => {
                return Ok((e, p));
            },
        }
    }
}

/// Equality operators `== !=`, left-associative.
fn expr6(tokens: &Vec<Token>, pos: usize) -> (r: Result<(Expr, usize), ParseError>)
    requires
        pos <= tokens@.len(),
    ensures
        r matches Ok((e, p2)) ==> pos < p2 <= tokens@.len(),
        r matches Err(e2) ==> e2.pos <= tokens@.len(),
        expr_res_matches(r, spec_binop_level(tokens@, 6, pos as int)),
    decreases tokens@.len() - pos, 8int,
{
    let (e0, pos1) = expr5(tokens, pos)?;
    let mut e = e0;
    let mut p = pos1;
    loop
        invariant
            pos < p <= tokens@.len(),
            spec_binop_level(tokens@, 6, pos as int) == spec_binop_chain(
                tokens@,
                6,
                expr_view(e),
                p as int,
            ),
        decreases tokens@.len() - p,
    {
        let ghost spec_op = if 0 <= p < tokens@.len() {
            level_op(6, tokens@[p as int])
        } else {
            None
        };
        let op = if p < tokens.len() {
            match &tokens[p] {
                Token::Operator(op) => {
                    if string_is(op, "==") {
                        Some(BinaryOp::Eq)
                    } else if string_is(op, "!=") {
                        Some(BinaryOp::Ne)
                    } else {
                        None
                    }
                },
                _ => None,
            }
        } else {
            None
        };
        proof {
            assert(op == spec_op);
        }
        match op {
            Some(op) => {
                let (rhs, p2) = match expr5(tokens, p + 1) {
                    Ok(v) => v,
                    Err(er) => {
                        proof {
                            assert(spec_binop_sub(tokens@, 6, p as int + 1) == Err::<
                                (ExprV, int),
                                int,
                            >(er.pos as int));
                            assert(spec_binop_chain(tokens@, 6, expr_view(e), p as int) == Err::<
                                (ExprV, int),
                                int,
                            >(er.pos as int));
                        }
                        return Err(er);
                    },
                };
                proof {
                    assert(spec_binop_sub(tokens@, 6, p as int + 1) == Ok::<(ExprV, int), int>(
                        (expr_view(rhs), p2 as int),
                    ));
                    assert(spec_binop_chain(tokens@, 6, expr_view(e), p as int)
                        == spec_binop_chain(
                        tokens@,
                        6,
                        ExprV::BinaryOp(
                            Box::new(expr_view(e)),
                            op,
                            Box::new(expr_view(rhs)),
                        ),
                        p2 as int,
                    ));
                }
                e = Expr::BinaryOp(Box::new(e), op, Box::new(rhs));
                p = p2;
            },
            None => {
                return Ok((e, p));
            },
        }
    }
}

/// Conjunction `&&`, left-associative.
fn expr7(tokens: &Vec<Token>, pos: usize) -> (r: Result<(Expr, usize), ParseError>)
    requires
        pos <= tokens@.len(),
    ensures
        r matches Ok((e, p2)) ==> pos < p2 <= tokens@.len(),
        r matches Err(e2) ==> e2.pos <= tokens@.len(),
        expr_res_matches(r, spec_binop_level(tokens@, 7, pos as int)),
    decreases tokens@.len() - pos, 9int,
{
    let (e0, pos1) = expr6(tokens, pos)?;
    let mut e = e0;
    let mut p = pos1;
    loop
        invariant
            pos < p <= tokens@.len(),
            spec_binop_level(tokens@, 7, pos as int) == spec_binop_chain(
                tokens@,
                7,
                expr_view(e),
                p as int,
            ),
        decreases tokens@.len() - p,
    {
        let ghost spec_op = if 0 <= p < tokens@.len() {
            level_op(7, tokens@[p as int])
        } else {
            None
        };
        let op = if p < tokens.len() {
            match &tokens[p] {
                Token::Operator(op) => {
                    if string_is(op, "&&") {
                        Some(BinaryOp::And)
                    } else {
                        None
                    }
                },
                _ => None,
            }
        } else {
            None
        };
        proof {
            assert(op == spec_op);
        }
        match op {
            Some(op) => {
                let (rhs, p2) = match expr6(tokens, p + 1) {
                    Ok(v) => v,
                    Err(er) => {
                        proof {
                            assert(spec_binop_sub(tokens@, 7, p as int + 1) == Err::<
                                (ExprV, int),
                                int,
                            >(er.pos as int));
                            assert(spec_binop_chain(tokens@, 7, expr_view(e), p as int) == Err::<
                                (ExprV, int),
                                int,
                            >(er.pos as int));
                        }
                        return Err(er);
                    },
                };
                proof {
                    assert(spec_binop_sub(tokens@, 7, p as int + 1) == Ok::<(ExprV, int), int>(
                        (expr_view(rhs), p2 as int),
                    ));
                    assert(spec_binop_chain(tokens@, 7, expr_view(e), p as int)
                        == spec_binop_chain(
                        tokens@,
                        7,
                        ExprV::BinaryOp(
                            Box::new(expr_view(e)),
                            op,
                            Box::new(expr_view(rhs)),
                        ),
                        p2 as int,
                    ));
                }
                e = Expr::BinaryOp(Box::new(e), op, Box::new(rhs));
                p = p2;
            },
            None => {
                return Ok((e, p));
            },
        }
    }
}

/// Disjunction `||`, left-associative.
fn expr8(tokens: &Vec<Token>, pos: usize) -> (r: Result<(Expr, usize), ParseError>)
    requires
        pos <= tokens@.len(),
    ensures
        r matches Ok((e, p2)) ==> pos < p2 <= tokens@.len(),
        r matches Err(e2) ==> e2.pos <= tokens@.len(),
        expr_res_matches(r, spec_binop_level(tokens@, 8, pos as int)),
    decreases tokens@.len() - pos, 10int,
{
    let (e0, pos1) = expr7(tokens, pos)?;
    let mut e = e0;
    let mut p = pos1;
    loop
        invariant
            pos < p <= tokens@.len(),
            spec_binop_level(tokens@, 8, pos as int) == spec_binop_chain(
                tokens@,
                8,
                expr_view(e),
                p as int,
            ),
        decreases tokens@.len() - p,
    {
        let ghost spec_op = if 0 <= p < tokens@.len() {
            level_op(8, tokens@[p as int])
        } else {
            None
        };
        let op = if p < tokens.len() {
            match &tokens[p] {
                Token::Operator(op) => {
                    if string_is(op, "||") {
                        Some(BinaryOp::Or)
                    } else {
                        None
                    }
                },
                _ => None,
            }
        } else {
            None
        };
        proof {
            assert(op == spec_op);
        }
        match op {
            Some(op) => {
                let (rhs, p2) = match expr7(tokens, p + 1) {
                    Ok(v) => v,
                    Err(er) => {
                        proof {
                            assert(spec_binop_sub(tokens@, 8, p as int + 1) == Err::<
                                (ExprV, int),
                                int,
                            >(er.pos as int));
                            assert(spec_binop_chain(tokens@, 8, expr_view(e), p as int) == Err::<
                                (ExprV, int),
                                int,
                            >(er.pos as int));
                        }
                        return Err(er);
                    },
                };
                proof {
                    assert(spec_binop_sub(tokens@, 8, p as int + 1) == Ok::<(ExprV, int), int>(
                        (expr_view(rhs), p2 as int),
                    ));
                    assert(spec_binop_chain(tokens@, 8, expr_view(e), p as int)
                        == spec_binop_chain(
                        tokens@,
                        8,
                        ExprV::BinaryOp(
                            Box::new(expr_view(e)),
                            op,
                            Box::new(expr_view(rhs)),
                        ),
                        p2 as int,
                    ));
                }
                e = Expr::BinaryOp(Box::new(e), op, Box::new(rhs));
                p = p2;
            },
            None => {
                return Ok((e, p));
            },
        }
    }
}

/// Assignment `=`, right-associative; every left-hand side of the chain
/// must be a bare identifier.
fn expr9(tokens: &Vec<Token>, pos: usize) -> (r: Result<(Expr, usize), ParseError>)
    requires
        pos <= tokens@.len(),
    ensures
        r matches Ok((e, p2)) ==> pos < p2 <= tokens@.len(),
        r matches Err(e2) ==> e2.pos <= tokens@.len(),
        expr_res_matches(r, spec_expr9(tokens@, pos as int)),
    decreases tokens@.len() - pos, 11int,
{
    let pos0 = pos;
    let (lhs, pos1) = expr8(tokens, pos)?;
    if pos1 < tokens.len() && matches!(&tokens[pos1], Token::ReservedOp(ReservedOp::Assign)) {
        let (rhs, pos2) = expr9(tokens, pos1 + 1)?;
        match lhs {
            Expr::Ident(name) => Ok((Expr::Assign(name, Box::new(rhs)), pos2)),
            _ => Err(ParseError { pos: pos0 }),
        }
    } else {
        Ok((lhs, pos1))
    }
}

/// `if (cond) then_branch else else_branch`; `else` is mandatory.
fn if_(tokens: &Vec<Token>, pos: usize) -> (r: Result<(Expr, usize), ParseError>)
    requires
        pos <= tokens@.len(),
    ensures
        r matches Ok((e, p2)) ==> pos < p2 <= tokens@.len(),
        r matches Err(e2) ==> e2.pos <= tokens@.len(),
        expr_res_matches(r, spec_if(tokens@, pos as int)),
    decreases tokens@.len() - pos, 1int,
{
    if !(pos < tokens.len() && matches!(&tokens[pos], Token::Reserved(Reserved::If))) {
        return Err(ParseError { pos });
    }
    let pos = pos + 1;
    if !(pos < tokens.len() && matches!(&tokens[pos], Token::OpenParen)) {
        return Err(ParseError { pos });
    }
    let (cond, pos) = expr(tokens, pos + 1)?;
    if !(pos < tokens.len() && matches!(&tokens[pos], Token::CloseParen)) {
        return Err(ParseError { pos });
    }
    let (then_e, pos) = expr(tokens, pos + 1)?;
    if !(pos < tokens.len() && matches!(&tokens[pos], Token::Reserved(Reserved::Else))) {
        return Err(ParseError { pos });
    }
    let (else_e, pos) = expr(tokens, pos + 1)?;
    Ok((Expr::If(Box::new(cond), Box::new(then_e), Box::new(else_e)), pos))
}

/// `while (cond) body`.
fn while_(tokens: &Vec<Token>, pos: usize) -> (r: Result<(Expr, usize), ParseError>)
    requires
        pos <= tokens@.len(),
    ensures
        r matches Ok((e, p2)) ==> pos < p2 <= tokens@.len(),
        r matches Err(e2) ==> e2.pos <= tokens@.len(),
        expr_res_matches(r, spec_while(tokens@, pos as int)),
    decreases tokens@.len() - pos, 1int,
{
    if !(pos < tokens.len() && matches!(&tokens[pos], Token::Reserved(Reserved::While))) {
        return Err(ParseError { pos });
    }
    let pos = pos + 1;
    if !(pos < tokens.len() && matches!(&tokens[pos], Token::OpenParen)) {
        return Err(ParseError { pos });
    }
    let (cond, pos) = expr(tokens, pos + 1)?;
    if !(pos < tokens.len() && matches!(&tokens[pos], Token::CloseParen)) {
        return Err(ParseError { pos });
    }
    let (body, pos) = expr(tokens, pos + 1)?;
    Ok((Expr::While(Box::new(cond), Box::new(body)), pos))
}

/// `{ e1 ; e2 ; ... ; en ; }` — a `;` after every inner expression.
fn block(tokens: &Vec<Token>, pos: usize) -> (r: Result<(Expr, usize), ParseError>)
    requires
        pos <= tokens@.len(),
    ensures
        r matches Ok((e, p2)) ==> pos < p2 <= tokens@.len(),
        r matches Err(e2) ==> e2.pos <= tokens@.len(),
        expr_res_matches(r, spec_block(tokens@, pos as int)),
    decreases tokens@.len() - pos, 1int,
{
    if !(pos < tokens.len() && matches!(&tokens[pos], Token::OpenBrace)) {
        return Err(ParseError { pos });
    }
    let mut p = pos + 1;
    let mut exprs: Vec<Expr> = Vec::new();
    loop
        invariant
            pos < tokens@.len(),
            tokens@[pos as int] matches Token::OpenBrace,
            pos < p <= tokens@.len(),
            spec_block_chain(tokens@, Seq::empty(), pos as int + 1) == spec_block_chain(
                tokens@,
                exprs_view(exprs@, exprs@.len() as int),
                p as int,
            ),
        decreases tokens@.len() - p,
    {
        if p < tokens.len() && matches!(&tokens[p], Token::CloseBrace) {
            return Ok((Expr::Block(exprs), p + 1));
        }
        let (e, p2) = expr(tokens, p)?;
        p = p2;
        if !(p < tokens.len() && matches!(&tokens[p], Token::SemiColon)) {
            return Err(ParseError { pos: p });
        }
        let ghost exprs0 = exprs@;
        exprs.push(e);
        proof {
            lemma_exprs_view_push(exprs0, e);
        }
        p = p + 1;
    }
}

/// `var name = init in body`.
fn var(tokens: &Vec<Token>, pos: usize) -> (r: Result<(Expr, usize), ParseError>)
    requires
        pos <= tokens@.len(),
    ensures
        r matches Ok((e, p2)) ==> pos < p2 <= tokens@.len(),
        r matches Err(e2) ==> e2.pos <= tokens@.len(),
        expr_res_matches(r, spec_var(tokens@, pos as int)),
    decreases tokens@.len() - pos, 1int,
{
    if !(pos < tokens.len() && matches!(&tokens[pos], Token::Reserved(Reserved::Var))) {
        return Err(ParseError { pos });
    }
    let pos = pos + 1;
    if pos >= tokens.len() {
        return Err(ParseError { pos });
    }
    let name = match &tokens[pos] {
        Token::Ident(name) => name.clone(),
        _ => {
            return Err(ParseError { pos });
        },
    };
    let pos = pos + 1;
    if !(pos < tokens.len() && matches!(&tokens[pos], Token::ReservedOp(ReservedOp::Assign))) {
        return Err(ParseError { pos });
    }
    let (init, pos) = expr(tokens, pos + 1)?;
    if !(pos < tokens.len() && matches!(&tokens[pos], Token::Reserved(Reserved::In))) {
        return Err(ParseError { pos });
    }
    let (body, pos) = expr(tokens, pos + 1)?;
    Ok((Expr::Var(name, Box::new(init), Box::new(body)), pos))
}

/// An expression: the precedence ladder, or one of the compound forms.
fn expr(tokens: &Vec<Token>, pos: usize) -> (r: Result<(Expr, usize), ParseError>)
    requires
        pos <= tokens@.len(),
    ensures
        r matches Ok((e, p2)) ==> pos < p2 <= tokens@.len(),
        r matches Err(e2) ==> e2.pos <= tokens@.len(),
        expr_res_matches(r, spec_expr(tokens@, pos as int)),
    decreases tokens@.len() - pos, 12int,
{
    if pos < tokens.len() {
        match &tokens[pos] {
            Token::Reserved(Reserved::If) => {
                return if_(tokens, pos);
            },
            Token::Reserved(Reserved::While) => {
                return while_(tokens, pos);
            },
            Token::OpenBrace => {
                return block(tokens, pos);
            },
            Token::Reserved(Reserved::Var) => {
                return var(tokens, pos);
            },
            _ => {},
        }
    }
    expr9(tokens, pos)
}

/// One function definition: `func name(p1, ..., pn) body`.
fn func(tokens: &Vec<Token>, pos: usize) -> (r: Result<(Func, usize), ParseError>)
    requires
        pos <= tokens@.len(),
    ensures
        r matches Ok((f, p2)) ==> pos < p2 <= tokens@.len(),
        r matches Err(e2) ==> e2.pos <= tokens@.len(),
        func_res_matches(r, spec_func(tokens@, pos as int)),
    decreases tokens@.len() - pos, 13int,
{
    if !(pos < tokens.len() && matches!(&tokens[pos], Token::Reserved(Reserved::Func))) {
        return Err(ParseError { pos });
    }
    let p0 = pos + 1;
    if p0 >= tokens.len() {
        return Err(ParseError { pos: p0 });
    }
    let name = match &tokens[p0] {
        Token::Ident(name) => name.clone(),
        _ => {
            return Err(ParseError { pos: p0 });
        },
    };
    let p1 = p0 + 1;
    if !(p1 < tokens.len() && matches!(&tokens[p1], Token::OpenParen)) {
        return Err(ParseError { pos: p1 });
    }
    let mut p = p1 + 1;
    let mut args: Vec<String> = Vec::new();
    proof {
        assert(crate::ast::strings_view(args@) =~= Seq::<Seq<char>>::empty());
    }
    if p < tokens.len() && matches!(&tokens[p], Token::CloseParen) {
        p = p + 1;
    } else {
        loop
            invariant_except_break
                pos < tokens@.len(),
                tokens@[pos as int] matches Token::Reserved(Reserved::Func),
                pos + 1 < tokens@.len(),
                tokens@[pos as int + 1] matches Token::Ident(nm) && nm@ == name@,
                pos + 2 < tokens@.len(),
                tokens@[pos as int + 2] matches Token::OpenParen,
                !(pos + 3 < tokens@.len() && (tokens@[pos as int + 3]
                    matches Token::CloseParen)),
                pos + 2 < p <= tokens@.len(),
                spec_args_chain(tokens@, Seq::empty(), pos as int + 3) == spec_args_chain(
                    tokens@,
                    crate::ast::strings_view(args@),
                    p as int,
                ),
            ensures
                pos < tokens@.len(),
                tokens@[pos as int] matches Token::Reserved(Reserved::Func),
                pos + 1 < tokens@.len(),
                tokens@[pos as int + 1] matches Token::Ident(nm) && nm@ == name@,
                pos + 2 < tokens@.len(),
                tokens@[pos as int + 2] matches Token::OpenParen,
                !(pos + 3 < tokens@.len() && (tokens@[pos as int + 3]
                    matches Token::CloseParen)),
                pos + 2 < p <= tokens@.len(),
                spec_args_chain(tokens@, Seq::empty(), pos as int + 3) == Ok::<
                    (Seq<Seq<char>>, int),
                    int,
                >((crate::ast::strings_view(args@), p as int)),
            decreases tokens@.len() - p,
        {
            if p >= tokens.len() {
                return Err(ParseError { pos: p });
            }
            let ghost args0 = args@;
            match &tokens[p] {
                Token::Ident(arg) => {
                    args.push(arg.clone());
                    proof {
                        crate::ast::lemma_strings_view_push(args0, tokens@[p as int]->Ident_0);
                    }
                },
                _ => {
                    return Err(ParseError { pos: p });
                },
            }
            p = p + 1;
            if p < tokens.len() && matches!(&tokens[p], Token::Comma) {
                p = p + 1;
            } else {
                break;
            }
        }
        if !(p < tokens.len() && matches!(&tokens[p], Token::CloseParen)) {
            return Err(ParseError { pos: p });
        }
        p = p + 1;
    }
    let (body, p_end) = expr(tokens, p)?;
    Ok((Func { name, args, body }, p_end))
}

/// A whole program: `func*`, with nothing after the last function.
pub fn parse(tokens: &Vec<Token>) -> (r: Result<Module, ParseError>)
    ensures
        r matches Err(e2) ==> e2.pos <= tokens@.len(),
        match r {
            Ok(m) => spec_parse(tokens@) == Ok::<ModuleV, int>(module_view(m)),
            Err(e2) => spec_parse(tokens@) == Err::<ModuleV, int>(e2.pos as int),
        },
{
    let mut pos: usize = 0;
    let mut funcs: Vec<Func> = Vec::new();
    while pos < tokens.len() && matches!(&tokens[pos], Token::Reserved(Reserved::Func))
        invariant
            pos <= tokens@.len(),
            spec_funcs_chain(tokens@, Seq::empty(), 0) == spec_funcs_chain(
                tokens@,
                crate::ast::funcs_view(funcs@, funcs@.len() as int),
                pos as int,
            ),
        decreases tokens@.len() - pos,
    {
        let (f, pos2) = func(tokens, pos)?;
        let ghost funcs0 = funcs@;
        funcs.push(f);
        proof {
            crate::ast::lemma_funcs_view_push(funcs0, f);
        }
        pos = pos2;
    }
    if pos < tokens.len() {
        return Err(ParseError { pos });
    }
    Ok(Module { funcs })
}

} // verus!
