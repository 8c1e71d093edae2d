//! A miniature ahead-of-time / just-in-time toolchain for an
//! expression-oriented language whose only value type is a 32-bit signed
//! integer.  Source text is tokenised, parsed into an abstract syntax tree,
//! lowered to a flat stack-machine intermediate representation, and from
//! there either interpreted directly or translated into WebAssembly module
//! descriptions (a lazy skeleton module plus one module per function).

pub mod ast;
pub mod compiler;
pub mod interpreter;
pub mod ir;
pub mod ir_generator;
pub mod parser;
pub mod token;
pub mod tokenizer;
pub mod vm;
pub mod wasm;
pub mod wasm_generator;
pub mod wasm_semantics;
