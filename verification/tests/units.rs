//! Component-level tests: tokeniser, parser, lowerer, interpreter stepping,
//! profiling VM, and the WebAssembly emitter.

use wjit::ast;
use wjit::compiler::Compiler;
use wjit::interpreter::{Interpreter, RecordingBuiltin, PC};
use wjit::ir;
use wjit::ir_generator::generate;
use wjit::parser::parse;
use wjit::token::{Reserved, ReservedOp, Token};
use wjit::tokenizer::tokenize;
use wjit::vm::{LoopState, Vm};
use wjit::wasm;
use wjit::wasm_generator::{BuiltinFunc, FuncRef, InstrsGenerator};

fn lower(src: &str) -> ir::Module {
    let tokens = tokenize(src).expect("lexes");
    let module = parse(&tokens).expect("parses");
    generate(&module).expect("lowers")
}

#[test]
fn tokenize_each_token_kind() {
    let tokens = tokenize("func f(a, b) { a <= b; } . = == x1_y 42").expect("lexes");
    assert_eq!(
        tokens,
        vec![
            Token::Reserved(Reserved::Func),
            Token::Ident("f".to_string()),
            Token::OpenParen,
            Token::Ident("a".to_string()),
            Token::Comma,
            Token::Ident("b".to_string()),
            Token::CloseParen,
            Token::OpenBrace,
            Token::Ident("a".to_string()),
            Token::Operator("<=".to_string()),
            Token::Ident("b".to_string()),
            Token::SemiColon,
            Token::CloseBrace,
            Token::Dot,
            Token::ReservedOp(ReservedOp::Assign),
            Token::Operator("==".to_string()),
            Token::Ident("x1_y".to_string()),
            Token::IntLiteral(42),
        ]
    );
}

#[test]
fn tokenize_keywords() {
    let tokens = tokenize("if else while var in func ifx").expect("lexes");
    assert_eq!(
        tokens,
        vec![
            Token::Reserved(Reserved::If),
            Token::Reserved(Reserved::Else),
            Token::Reserved(Reserved::While),
            Token::Reserved(Reserved::Var),
            Token::Reserved(Reserved::In),
            Token::Reserved(Reserved::Func),
            Token::Ident("ifx".to_string()),
        ]
    );
}

#[test]
fn tokenize_maximal_munch_operators() {
    let tokens = tokenize("a<=b==c&&d=e").expect("lexes");
    assert_eq!(
        tokens,
        vec![
            Token::Ident("a".to_string()),
            Token::Operator("<=".to_string()),
            Token::Ident("b".to_string()),
            Token::Operator("==".to_string()),
            Token::Ident("c".to_string()),
            Token::Operator("&&".to_string()),
            Token::Ident("d".to_string()),
            Token::ReservedOp(ReservedOp::Assign),
            Token::Ident("e".to_string()),
        ]
    );
}

#[test]
fn tokenize_rejects_unknown_character() {
    let err = tokenize("ab ~ cd").unwrap_err();
    assert_eq!(err.pos, 3);
}

#[test]
fn tokenize_rejects_oversized_literal() {
    let err = tokenize("  99999999999").unwrap_err();
    assert_eq!(err.pos, 2);
    assert!(tokenize("2147483647").is_ok());
    assert!(tokenize("2147483648").is_err());
}

#[test]
fn parse_precedence_tree() {
    let tokens = tokenize("func main() 1 + 2 * 3").expect("lexes");
    let module = parse(&tokens).expect("parses");
    let body = &module.funcs[0].body;
    assert_eq!(
        *body,
        ast::Expr::BinaryOp(
            Box::new(ast::Expr::IntLiteral(1)),
            ast::BinaryOp::Add,
            Box::new(ast::Expr::BinaryOp(
                Box::new(ast::Expr::IntLiteral(2)),
                ast::BinaryOp::Mul,
                Box::new(ast::Expr::IntLiteral(3)),
            )),
        )
    );
}

#[test]
fn parse_right_associative_assignment() {
    let tokens = tokenize("func f(a, b) a = b = 1").expect("lexes");
    let module = parse(&tokens).expect("parses");
    let body = &module.funcs[0].body;
    assert_eq!(
        *body,
        ast::Expr::Assign(
            "a".to_string(),
            Box::new(ast::Expr::Assign(
                "b".to_string(),
                Box::new(ast::Expr::IntLiteral(1)),
            )),
        )
    );
}

#[test]
fn parse_rejects_assignment_to_non_identifier() {
    let tokens = tokenize("func f() 1 = 2").expect("lexes");
    assert!(parse(&tokens).is_err());
}

#[test]
fn parse_rejects_call_of_non_identifier() {
    let tokens = tokenize("func f() (1)(2)").expect("lexes");
    assert!(parse(&tokens).is_err());
}

#[test]
fn parse_rejects_if_without_else() {
    let tokens = tokenize("func f() if (1) 2").expect("lexes");
    assert!(parse(&tokens).is_err());
}

#[test]
fn parse_rejects_trailing_junk() {
    let tokens = tokenize("func f() 1 ;").expect("lexes");
    assert!(parse(&tokens).is_err());
}

#[test]
fn lower_constant_function() {
    let ir = lower("func main() 42");
    assert_eq!(ir.funcs.len(), 1);
    let f = &ir.funcs[0];
    assert_eq!(f.name, "main");
    assert_eq!(f.args_count, 0);
    assert_eq!(f.locals_count, 0);
    assert_eq!(f.instrs, vec![ir::Instr::IntConst(42), ir::Instr::Return]);
}

#[test]
fn lower_if_records_marker_positions() {
    let ir = lower("func f(c) if (c) 1 else 2");
    let f = &ir.funcs[0];
    assert_eq!(
        f.instrs,
        vec![
            ir::Instr::VarRef(0),
            ir::Instr::If(0),
            ir::Instr::IntConst(1),
            ir::Instr::Else(0),
            ir::Instr::IntConst(2),
            ir::Instr::IfEnd(0),
            ir::Instr::Return,
        ]
    );
    assert_eq!(f.if_infos.len(), 1);
    assert_eq!(f.if_infos[0], ir::IfInfo { if_: 1, else_: 3, if_end: 5 });
}

#[test]
fn lower_while_records_marker_positions() {
    let ir = lower("func f(c) while (c) 1");
    let f = &ir.funcs[0];
    assert_eq!(
        f.instrs,
        vec![
            ir::Instr::Loop(0),
            ir::Instr::VarRef(0),
            ir::Instr::LoopThen(0),
            ir::Instr::IntConst(1),
            ir::Instr::Drop,
            ir::Instr::LoopEnd(0),
            ir::Instr::IntConst(0),
            ir::Instr::Return,
        ]
    );
    assert_eq!(f.loop_infos.len(), 1);
    assert_eq!(f.loop_infos[0], ir::LoopInfo { loop_: 0, loop_then: 2, loop_end: 5 });
}

#[test]
fn lower_var_allocates_slots_monotonically() {
    let ir = lower("func f(a) { var b = 1 in b; var c = 2 in c; }");
    let f = &ir.funcs[0];
    assert_eq!(f.args_count, 1);
    assert_eq!(f.locals_count, 3);
}

#[test]
fn interpreter_step_executes_one_instruction() {
    let ir = lower("func main() 42");
    let mut interp = Interpreter::new(ir, RecordingBuiltin::new());
    interp.call_prepare(0, &[]);
    assert_eq!(interp.pc, PC { func: 0, instr: 0 });
    assert!(interp.step().is_ok());
    assert_eq!(interp.stack, vec![42]);
    assert_eq!(interp.pc, PC { func: 0, instr: 1 });
    assert!(interp.step().is_ok());
    assert_eq!(interp.call_result(), Some(42));
}

#[test]
fn interpreter_dummy_func_is_module_length() {
    let ir = lower("func a() 0 func b() 1");
    let interp = Interpreter::new(ir, RecordingBuiltin::new());
    assert_eq!(interp.dummy_func(), 2);
}

#[test]
fn interpreter_step_on_empty_machine_traps() {
    let ir = lower("func main() 42");
    let mut interp = Interpreter::new(ir, RecordingBuiltin::new());
    assert!(interp.step().is_err());
}

#[test]
fn vm_profiles_loop_entries() {
    let src = "func main() { var i = 0 in { while (i < 3) { i = i + 1; }; 0; }; }";
    let ir = lower(src);
    let mut vm = Vm::new(ir, RecordingBuiltin::new());
    vm.interpreter.call_prepare(0, &[]);
    let mut result = None;
    for _ in 0..10_000 {
        vm.step().expect("no trap");
        if let Some(v) = vm.interpreter.call_result() {
            result = Some(v);
            break;
        }
    }
    assert_eq!(result, Some(0));
    // the loop marker is re-entered once per iteration plus the final test
    assert_eq!(vm.loop_states[0], vec![LoopState::Profiling { count: 4 }]);
}

#[test]
fn skeleton_module_shape() {
    let ir = lower("func one() 1 func two(a, b) a + b");
    let compiler = Compiler::new(ir);
    let skeleton = compiler.compile_skeleton();
    assert_eq!(skeleton.types.len(), 6);
    assert_eq!(skeleton.types[5], wasm::FuncType { params: 5 });
    assert_eq!(skeleton.types[3], wasm::FuncType { params: 3 });
    assert_eq!(skeleton.imports.len(), 1);
    assert_eq!(skeleton.imports[0].module, "env");
    assert_eq!(skeleton.imports[0].field, "compile_func");
    assert_eq!(skeleton.imports[0].external, wasm::ExternalDesc::Func(1));
    assert_eq!(skeleton.functions, vec![0, 2]);
    assert_eq!(skeleton.tables, vec![2]);
    assert_eq!(skeleton.exports.len(), 3);
    assert_eq!(skeleton.exports[0].field, "one");
    assert_eq!(skeleton.exports[0].internal, wasm::InternalDesc::Func(1));
    assert_eq!(skeleton.exports[1].field, "two");
    assert_eq!(skeleton.exports[1].internal, wasm::InternalDesc::Func(2));
    assert_eq!(skeleton.exports[2].field, "_table");
    assert_eq!(skeleton.exports[2].internal, wasm::InternalDesc::Table(0));
    assert_eq!(skeleton.elements.len(), 1);
    assert_eq!(skeleton.elements[0].members, vec![1, 2]);
    // the trampoline of `two`: push both arguments, request compilation of
    // function 1, then dispatch through table slot 1
    assert_eq!(
        skeleton.code[1].instrs,
        vec![
            wasm::Instr::GetLocal(0),
            wasm::Instr::GetLocal(1),
            wasm::Instr::I32Const(1),
            wasm::Instr::Call(0),
            wasm::Instr::Drop,
            wasm::Instr::I32Const(1),
            wasm::Instr::CallIndirect(2, 0),
            wasm::Instr::End,
        ]
    );
}

#[test]
fn per_function_module_shape() {
    let ir = lower("func id(x) x");
    let compiler = Compiler::new(ir);
    let module = compiler.compile_func_module(0);
    assert_eq!(module.imports.len(), 2);
    assert_eq!(module.imports[0].field, "println");
    assert_eq!(module.imports[1].field, "_table");
    assert_eq!(module.imports[1].external, wasm::ExternalDesc::Table(1));
    assert_eq!(module.functions, vec![1]);
    assert_eq!(module.elements[0].offset, 0);
    assert_eq!(module.elements[0].members, vec![1]);
    assert_eq!(module.code.len(), 1);
    // one argument, one local in total: no extra locals beyond the parameter
    assert_eq!(module.code[0].locals, vec![wasm::Local { count: 0 }]);
    assert_eq!(
        module.code[0].instrs,
        vec![wasm::Instr::GetLocal(0), wasm::Instr::Return, wasm::Instr::End]
    );
}

#[test]
fn instruction_translation_table() {
    let mut generator = InstrsGenerator::new();
    for i in 0..5usize {
        generator.types.push((i, i as u32));
    }
    generator.func_refs.push((0, FuncRef::Indirect(0)));
    generator
        .builtin_func_refs
        .push((BuiltinFunc::Println, FuncRef::Direct(0)));
    let instrs = vec![
        ir::Instr::IntConst(7),
        ir::Instr::VarRef(1),
        ir::Instr::Assign(1),
        ir::Instr::Minus,
        ir::Instr::Not,
        ir::Instr::Div,
        ir::Instr::Mod,
        ir::Instr::Println,
        ir::Instr::Call { func: 0, args_count: 2 },
    ];
    let out = generator.gen_instrs(&instrs);
    assert_eq!(
        out,
        vec![
            wasm::Instr::I32Const(7),
            wasm::Instr::GetLocal(1),
            wasm::Instr::SetLocal(1),
            wasm::Instr::I32Const(-1),
            wasm::Instr::I32Mul,
            wasm::Instr::I32Eqz,
            wasm::Instr::I32DivS,
            wasm::Instr::I32RemS,
            wasm::Instr::Call(0),
            wasm::Instr::I32Const(0),
            wasm::Instr::CallIndirect(2, 0),
            wasm::Instr::End,
        ]
    );
    // the logical operators normalise their operands so any nonzero value
    // counts as true
    let logical = generator.gen_instrs(&vec![ir::Instr::And, ir::Instr::Or]);
    assert_eq!(
        logical,
        vec![
            wasm::Instr::I32Eqz,
            wasm::Instr::I32Eqz,
            wasm::Instr::I32Mul,
            wasm::Instr::I32Eqz,
            wasm::Instr::I32Eqz,
            wasm::Instr::I32Or,
            wasm::Instr::I32Eqz,
            wasm::Instr::I32Eqz,
            wasm::Instr::End,
        ]
    );
}

#[test]
fn control_translation_rebuilds_structure() {
    let ir = lower("func f(c) while (c) if (c) 1 else 2");
    let compiler = Compiler::new(ir);
    let body = compiler.compile_func(0);
    assert_eq!(
        body.instrs,
        vec![
            wasm::Instr::Block(wasm::BlockKind::Empty),
            wasm::Instr::Loop(wasm::BlockKind::Empty),
            wasm::Instr::GetLocal(0),
            wasm::Instr::I32Eqz,
            wasm::Instr::BrIf(1),
            wasm::Instr::GetLocal(0),
            wasm::Instr::If(wasm::BlockKind::ValueI32),
            wasm::Instr::I32Const(1),
            wasm::Instr::Else,
            wasm::Instr::I32Const(2),
            wasm::Instr::End,
            wasm::Instr::Drop,
            wasm::Instr::Br(0),
            wasm::Instr::End,
            wasm::Instr::End,
            wasm::Instr::I32Const(0),
            wasm::Instr::Return,
            wasm::Instr::End,
        ]
    );
}
