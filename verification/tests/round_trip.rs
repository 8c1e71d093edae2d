//! Parser round-trips: every AST the parser produces can be rendered back
//! to source text that re-parses to the identical AST.

use wjit::ast::{BinaryOp, Expr, Func, Module, PrefixOp};
use wjit::parser::parse;
use wjit::tokenizer::tokenize;

fn binary_op_text(op: &BinaryOp) -> &'static str {
    match op {
        BinaryOp::Add => "+",
        BinaryOp::Sub => "-",
        BinaryOp::Mul => "*",
        BinaryOp::Div => "/",
        BinaryOp::Mod => "%",
        BinaryOp::Lt => "<",
        BinaryOp::Gt => ">",
        BinaryOp::Le => "<=",
        BinaryOp::Ge => ">=",
        BinaryOp::Eq => "==",
        BinaryOp::Ne => "!=",
        BinaryOp::And => "&&",
        BinaryOp::Or => "||",
    }
}

/// Render an expression back to source, parenthesising every composite so
/// no precedence decisions are needed.
fn expr_text(e: &Expr) -> String {
    match e {
        Expr::IntLiteral(x) => {
            if *x < 0 {
                // a negative literal only arises from folding; render the
                // equivalent subtraction
                format!("(0 - {})", (*x as i64).unsigned_abs())
            } else {
                format!("{}", x)
            }
        },
        Expr::Ident(n) => n.clone(),
        Expr::BinaryOp(l, op, r) => {
            format!("({} {} {})", expr_text(l), binary_op_text(op), expr_text(r))
        },
        Expr::PrefixOp(PrefixOp::Not, a) => format!("(!{})", expr_text(a)),
        Expr::PrefixOp(PrefixOp::Minus, a) => format!("(-{})", expr_text(a)),
        Expr::Assign(n, rhs) => format!("({} = {})", n, expr_text(rhs)),
        Expr::Call(f, args) => {
            let rendered: Vec<String> = args.iter().map(expr_text).collect();
            format!("{}({})", f, rendered.join(", "))
        },
        Expr::While(c, b) => format!("while ({}) {}", expr_text(c), expr_text(b)),
        Expr::If(c, t, e2) => {
            format!("if ({}) {} else {}", expr_text(c), expr_text(t), expr_text(e2))
        },
        Expr::Block(es) => {
            let mut out = String::from("{ ");
            for e in es {
                out.push_str(&expr_text(e));
                out.push_str("; ");
            }
            out.push('}');
            out
        },
        Expr::Var(n, init, body) => {
            format!("var {} = {} in {}", n, expr_text(init), expr_text(body))
        },
    }
}

fn module_text(m: &Module) -> String {
    let mut out = String::new();
    for Func { name, args, body } in &m.funcs {
        out.push_str("func ");
        out.push_str(name);
        out.push('(');
        out.push_str(&args.join(", "));
        out.push_str(") ");
        out.push_str(&expr_text(body));
        out.push('\n');
    }
    out
}

fn assert_round_trip(src: &str) {
    let tokens = tokenize(src).expect("lexes");
    let module = parse(&tokens).expect("parses");
    let rendered = module_text(&module);
    let tokens2 = tokenize(&rendered).expect("rendered source lexes");
    let module2 = parse(&tokens2).expect("rendered source parses");
    assert_eq!(module, module2, "rendered source: {}", rendered);
}

#[test]
fn round_trip_arithmetic() {
    assert_round_trip("func main() { 1 + 2 * 3 - 4 / 5 % 6; }");
}

#[test]
fn round_trip_control_and_bindings() {
    assert_round_trip(
        "func main() { var i = 0 in { while (i < 3) { println(i); i = i + 1; }; 0; }; }",
    );
}

#[test]
fn round_trip_conditionals_and_calls() {
    assert_round_trip("func fact(n) { if (n < 2) 1 else n * fact(n - 1); } func main() fact(5)");
}

#[test]
fn round_trip_operators_and_prefixes() {
    assert_round_trip("func f(a, b) !a && -b || a <= b == (a != b) >= (a > b)");
}

#[test]
fn round_trip_assignment_chain() {
    assert_round_trip("func f(a, b) a = b = a + 1");
}
