//! A plain data model of the WebAssembly modules the compiler emits.
//!
//! The toolchain only ever produces functions over `i32`, so the model keeps
//! exactly what the emitted modules need: a byte-level serialiser consumes a
//! [`Module`] description and nothing here depends on one.

use vstd::prelude::*;

verus! {

/// The result type of a structured block.
#[derive(Debug, Clone, Copy, PartialEq, Eq, Structural)]
pub enum BlockKind {
    Empty,
    ValueI32,
}

/// One WebAssembly instruction, restricted to the subset the emitter uses.
#[derive(Debug, Clone, Copy, PartialEq, Eq, Structural)]
pub enum Instr {
    I32Const(i32),
    GetLocal(u32),
    SetLocal(u32),
    I32Add,
    I32Sub,
    I32Mul,
    I32DivS,
    I32RemS,
    I32LtS,
    I32GtS,
    I32LeS,
    I32GeS,
    I32Eq,
    I32Ne,
    I32And,
    I32Or,
    I32Eqz,
    Drop,
    Return,
    Call(u32),
    /// Type index and table index.
    CallIndirect(u32, u32),
    Block(BlockKind),
    Loop(BlockKind),
    BrIf(u32),
    Br(u32),
    If(BlockKind),
    Else,
    End,
}

/// A function type: that many `i32` parameters and a single `i32` result.
#[derive(Debug, Clone, Copy, PartialEq, Eq, Structural)]
pub struct FuncType {
    pub params: usize,
}

/// What an import binds to: a function (by type index) or a table (by size).
#[derive(Debug, Clone, Copy, PartialEq, Eq, Structural)]
pub enum ExternalDesc {
    Func(u32),
    Table(u32),
}

#[derive(Debug, Clone, PartialEq, Eq)]
pub struct ImportEntry {
    pub module: String,
    pub field: String,
    pub external: ExternalDesc,
}

/// What an export exposes: a function or a table, by index.
#[derive(Debug, Clone, Copy, PartialEq, Eq, Structural)]
pub enum InternalDesc {
    Func(u32),
    Table(u32),
}

#[derive(Debug, Clone, PartialEq, Eq)]
pub struct ExportEntry {
    pub field: String,
    pub internal: InternalDesc,
}

/// An element segment: writes `members` into table `index` starting at the
/// constant `offset`.
#[derive(Debug, Clone, PartialEq, Eq)]
pub struct ElementSegment {
    pub index: u32,
    pub offset: i32,
    pub members: Vec<u32>,
}

/// A run of `count` extra `i32` locals.
#[derive(Debug, Clone, Copy, PartialEq, Eq, Structural)]
pub struct Local {
    pub count: u32,
}

/// One function body: its extra locals and its instruction sequence.
#[derive(Debug, Clone, PartialEq, Eq)]
pub struct FuncBody {
    pub locals: Vec<Local>,
    pub instrs: Vec<Instr>,
}

/// A whole module description, section by section.
#[derive(Debug, Clone, PartialEq, Eq)]
pub struct Module {
    pub types: Vec<FuncType>,
    pub imports: Vec<ImportEntry>,
    /// The type index of each function defined by this module.
    pub functions: Vec<u32>,
    /// The sizes of the tables defined by this module.
    pub tables: Vec<u32>,
    pub exports: Vec<ExportEntry>,
    pub elements: Vec<ElementSegment>,
    pub code: Vec<FuncBody>,
}

} // verus!
