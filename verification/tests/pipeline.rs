//! End-to-end scenarios: source text through tokeniser, parser, lowerer and
//! interpreter.

use wjit::interpreter::{Interpreter, RecordingBuiltin, VmError};
use wjit::ir_generator::{generate, GenError};
use wjit::parser::parse;
use wjit::tokenizer::tokenize;

const FUEL: usize = 1_000_000;

/// Run `entry(args)` of the given source and return the result and the
/// values printed along the way.
fn run(src: &str, entry: &str, args: &[i32]) -> Result<(i32, Vec<i32>), String> {
    let tokens = tokenize(src).map_err(|e| format!("lex error at {}", e.pos))?;
    let module = parse(&tokens).map_err(|e| format!("parse error at {}", e.pos))?;
    let ir = generate(&module).map_err(|e| format!("lowering error: {:?}", e))?;
    let idx = ir
        .funcs
        .iter()
        .position(|f| f.name == entry)
        .ok_or_else(|| "no such entry function".to_string())?;
    let mut interp = Interpreter::new(ir, RecordingBuiltin::new());
    let result = interp
        .call(idx, args, FUEL)
        .map_err(|e| format!("runtime error: {:?}", e))?;
    Ok((result, interp.builtin.printed))
}

#[test]
fn arithmetic_precedence() {
    assert_eq!(run("func main() { 1 + 2 * 3; }", "main", &[]), Ok((7, vec![])));
}

#[test]
fn recursive_factorial() {
    let src = "func fact(n) { if (n < 2) 1 else n * fact(n - 1); }";
    assert_eq!(run(src, "fact", &[5]), Ok((120, vec![])));
    assert_eq!(run(src, "fact", &[0]), Ok((1, vec![])));
}

#[test]
fn while_loop_prints() {
    let src = "func main() { var i = 0 in { while (i < 3) { println(i); i = i + 1; }; 0; }; }";
    assert_eq!(run(src, "main", &[]), Ok((0, vec![0, 1, 2])));
}

#[test]
fn var_shadows_argument() {
    let src = "func f(x) { var x = x + 1 in x * 2; }";
    assert_eq!(run(src, "f", &[10]), Ok((22, vec![])));
}

#[test]
fn nested_bindings() {
    let src = "func main() { var a = 1 in var b = 2 in a + b; }";
    assert_eq!(run(src, "main", &[]), Ok((3, vec![])));
}

#[test]
fn duplicate_function_name_rejected() {
    let src = "func dup() 0  func dup() 1";
    let tokens = tokenize(src).expect("lexes");
    let module = parse(&tokens).expect("parses");
    assert_eq!(generate(&module), Err(GenError::DuplicateFuncName));
}

#[test]
fn function_shadowing_builtin_rejected() {
    let src = "func println(x) x";
    let tokens = tokenize(src).expect("lexes");
    let module = parse(&tokens).expect("parses");
    assert_eq!(generate(&module), Err(GenError::DuplicateFuncName));
}

#[test]
fn unresolved_variable_rejected() {
    let src = "func main() nowhere";
    let tokens = tokenize(src).expect("lexes");
    let module = parse(&tokens).expect("parses");
    assert_eq!(generate(&module), Err(GenError::UnresolvedName));
}

#[test]
fn unresolved_function_rejected() {
    let src = "func main() missing(1)";
    let tokens = tokenize(src).expect("lexes");
    let module = parse(&tokens).expect("parses");
    assert_eq!(generate(&module), Err(GenError::UnresolvedName));
}

#[test]
fn division_by_zero_traps() {
    let src = "func main() 1 / 0";
    let tokens = tokenize(src).expect("lexes");
    let module = parse(&tokens).expect("parses");
    let ir = generate(&module).expect("lowers");
    let mut interp = Interpreter::new(ir, RecordingBuiltin::new());
    assert_eq!(interp.call(0, &[], FUEL), Err(VmError::Trap));
}

#[test]
fn modulo_by_zero_traps() {
    let src = "func main() 1 % 0";
    let tokens = tokenize(src).expect("lexes");
    let module = parse(&tokens).expect("parses");
    let ir = generate(&module).expect("lowers");
    let mut interp = Interpreter::new(ir, RecordingBuiltin::new());
    assert_eq!(interp.call(0, &[], FUEL), Err(VmError::Trap));
}

#[test]
fn infinite_loop_runs_out_of_fuel() {
    let src = "func main() { while (1) { 0; }; 0; }";
    let tokens = tokenize(src).expect("lexes");
    let module = parse(&tokens).expect("parses");
    let ir = generate(&module).expect("lowers");
    let mut interp = Interpreter::new(ir, RecordingBuiltin::new());
    assert_eq!(interp.call(0, &[], 10_000), Err(VmError::OutOfFuel));
}

#[test]
fn empty_block_is_zero() {
    assert_eq!(run("func main() {}", "main", &[]), Ok((0, vec![])));
}

#[test]
fn logic_and_comparison_operators() {
    assert_eq!(run("func main() 1 < 2 && 3 >= 3", "main", &[]), Ok((1, vec![])));
    assert_eq!(run("func main() 1 == 2 || 2 != 2", "main", &[]), Ok((0, vec![])));
    assert_eq!(run("func main() !0 + !5", "main", &[]), Ok((1, vec![])));
    assert_eq!(run("func main() -3 + 10", "main", &[]), Ok((7, vec![])));
}

#[test]
fn truncated_signed_division() {
    assert_eq!(run("func main() (0 - 7) / 2", "main", &[]), Ok((-3, vec![])));
    assert_eq!(run("func main() (0 - 7) % 2", "main", &[]), Ok((-1, vec![])));
}

#[test]
fn wrapping_arithmetic() {
    assert_eq!(
        run("func main() 2147483647 + 1", "main", &[]),
        Ok((i32::MIN, vec![]))
    );
}

#[test]
fn assignment_yields_zero_and_chains_right() {
    // `a = (b = 42)`: b becomes 42, and the inner assignment's value 0 is
    // what a receives
    let src = "func main() { var a = 1 in var b = 2 in { a = b = 40 + 2; a * 100 + b; }; }";
    assert_eq!(run(src, "main", &[]), Ok((42, vec![])));
}

#[test]
fn call_chain_and_arguments() {
    let src = "func add(a, b) a + b  func main() add(add(1, 2), 4)";
    assert_eq!(run(src, "main", &[]), Ok((7, vec![])));
}

#[test]
fn println_returns_zero() {
    assert_eq!(run("func main() println(41) + 1", "main", &[]), Ok((1, vec![41])));
}

#[test]
fn comments_and_whitespace_are_skipped() {
    let src = "# leading comment\nfunc main() # trailing\n  { 5; }  # end";
    assert_eq!(run(src, "main", &[]), Ok((5, vec![])));
}

#[test]
fn arity_mismatch_surfaces_at_runtime() {
    // lowering does not check call arity; a missing argument leaves the
    // extra parameter slots zero-initialised
    let src = "func f(a, b) b  func main() f(5)";
    assert_eq!(run(src, "main", &[]), Ok((0, vec![])));
}

#[test]
fn block_requires_semicolon_after_each_expression() {
    let tokens = tokenize("func fact(n) { if (n < 2) 1 else n * fact(n - 1) }").expect("lexes");
    assert!(parse(&tokens).is_err());
}

#[test]
fn nested_loops_and_conditionals() {
    let src = "func main() { var s = 0 in var i = 0 in { while (i < 4) { \
               var j = 0 in { while (j < i) { s = s + (if (j % 2 == 0) j else 10 * j); \
               j = j + 1; }; 0; }; i = i + 1; }; s; }; }";
    // pairs (i, j) with j < i <= 3: j values 0,0,1,0,1,2 scored as
    // 0, 0+10, 0+10+2 summed
    assert_eq!(run(src, "main", &[]), Ok((22, vec![])));
}

#[test]
fn logical_operators_treat_any_nonzero_as_true() {
    // operands outside {0, 1}: && and || are logical, not bitwise
    assert_eq!(run("func main() 2 && 1", "main", &[]), Ok((1, vec![])));
    assert_eq!(run("func main() 2 && 0", "main", &[]), Ok((0, vec![])));
    assert_eq!(run("func main() (0 - 2) || 0", "main", &[]), Ok((1, vec![])));
    assert_eq!(run("func main() 0 || 0", "main", &[]), Ok((0, vec![])));
}
