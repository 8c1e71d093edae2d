//! The flat, stack-machine intermediate representation.
//!
//! Each function body is a linear instruction list.  Structured control is
//! kept as matched marker triples (`If`/`Else`/`IfEnd` and
//! `Loop`/`LoopThen`/`LoopEnd`) whose instruction positions are recorded in
//! the side tables `if_infos` and `loop_infos`, so that both the interpreter
//! (which jumps) and the WebAssembly emitter (which rebuilds nested blocks)
//! can consume the same program.

use vstd::prelude::*;

verus! {

/// A whole lowered program.
#[derive(Debug, Clone, PartialEq, Eq)]
pub struct Module {
    pub funcs: Vec<Func>,
}

/// The instruction positions of one `If`/`Else`/`IfEnd` triple.
#[derive(Debug, Clone, Copy, PartialEq, Eq, Structural)]
pub struct IfInfo {
    pub if_: usize,
    pub else_: usize,
    pub if_end: usize,
}

impl IfInfo {
    /// A placeholder entry; the lowerer fills the real positions in as it
    /// emits the corresponding markers.
    pub fn dummy() -> (r: Self)
        ensures
            r == (IfInfo { if_: 0, else_: 0, if_end: 0 }),
    {
        IfInfo { if_: 0, else_: 0, if_end: 0 }
    }
}

/// The instruction positions of one `Loop`/`LoopThen`/`LoopEnd` triple.
#[derive(Debug, Clone, Copy, PartialEq, Eq, Structural)]
pub struct LoopInfo {
    pub loop_: usize,
    pub loop_then: usize,
    pub loop_end: usize,
}

impl LoopInfo {
    /// A placeholder entry; the lowerer fills the real positions in as it
    /// emits the corresponding markers.
    pub fn dummy() -> (r: Self)
        ensures
            r == (LoopInfo { loop_: 0, loop_then: 0, loop_end: 0 }),
    {
        LoopInfo { loop_: 0, loop_then: 0, loop_end: 0 }
    }
}

/// One lowered function.  Slots `0..args_count` hold the arguments in
/// declaration order; slots `args_count..locals_count` hold the `var`-bound
/// locals in lexical order of first binding.
#[derive(Debug, Clone, PartialEq, Eq)]
pub struct Func {
    pub name: String,
    pub args_count: usize,
    pub locals_count: usize,
    pub instrs: Vec<Instr>,
    pub if_infos: Vec<IfInfo>,
    pub loop_infos: Vec<LoopInfo>,
}

pub type IfId = usize;

pub type LoopId = usize;

/// One stack-machine instruction.
#[derive(Debug, Clone, Copy, PartialEq, Eq, Structural)]
pub enum Instr {
    IntConst(i32),
    VarRef(usize),
    Assign(usize),
    Call { func: usize, args_count: usize },
    If(IfId),
    Else(IfId),
    IfEnd(IfId),
    Loop(LoopId),
    LoopThen(LoopId),
    LoopEnd(LoopId),
    Return,
    Println,
    Add,
    Sub,
    Mul,
    Div,
    Mod,
    Lt,
    Gt,
    Le,
    Ge,
    Eq,
    Ne,
    And,
    Or,
    Not,
    Minus,
    Drop,
}

/// The static value-stack effect of one instruction.
///
/// Control markers are weighted so that the sum over a lowered expression is
/// exactly its net dynamic effect: the two arms of a conditional both appear
/// in the instruction list, so `Else` carries the pop that `If` performs on
/// the path through the other arm.
pub open spec fn instr_delta(i: Instr) -> int {
    match i {
        Instr::IntConst(_) => 1,
        Instr::VarRef(_) => 1,
        Instr::Assign(_) => -1,
        Instr::Call { func, args_count } => 1 - args_count,
        Instr::If(_) => -1,
        Instr::Else(_) => -1,
        Instr::IfEnd(_) => 0,
        Instr::Loop(_) => 0,
        Instr::LoopThen(_) => -1,
        Instr::LoopEnd(_) => 0,
        Instr::Return => 0,
        Instr::Println => 0,
        Instr::Add => -1,
        Instr::Sub => -1,
        Instr::Mul => -1,
        Instr::Div => -1,
        Instr::Mod => -1,
        Instr::Lt => -1,
        Instr::Gt => -1,
        Instr::Le => -1,
        Instr::Ge => -1,
        Instr::Eq => -1,
        Instr::Ne => -1,
        Instr::And => -1,
        Instr::Or => -1,
        Instr::Not => 0,
        Instr::Minus => 0,
        Instr::Drop => -1,
    }
}

/// The static value-stack effect of an instruction sequence.
pub open spec fn seq_delta(s: Seq<Instr>) -> int
    decreases s.len(),
{
    if s.len() == 0 {
        0
    } else {
        seq_delta(s.drop_last()) + instr_delta(s.last())
    }
}

/// Appending one instruction adds its stack effect.
pub proof fn lemma_seq_delta_push(s: Seq<Instr>, i: Instr)
    ensures
        seq_delta(s.push(i)) == seq_delta(s) + instr_delta(i),
{
    assert(s.push(i).drop_last() =~= s);
}

/// The slot indices an instruction reads or writes stay under `bound`, and
/// the function indices it calls stay under `n_funcs`.
pub open spec fn instr_refs_ok(i: Instr, bound: int, n_funcs: int) -> bool {
    match i {
        Instr::VarRef(s) => s < bound,
        Instr::Assign(s) => s < bound,
        Instr::Call { func, args_count } => func < n_funcs,
        _ => true,
    }
}

/// The `If`/`Else`/`IfEnd` triple of entry `id` is fully recorded: the three
/// positions are ordered and each holds the corresponding marker.
pub open spec fn if_complete(instrs: Seq<Instr>, info: IfInfo, id: int) -> bool {
    &&& info.if_ < info.else_ < info.if_end < instrs.len()
    &&& instrs[info.if_ as int] == Instr::If(id as usize)
    &&& instrs[info.else_ as int] == Instr::Else(id as usize)
    &&& instrs[info.if_end as int] == Instr::IfEnd(id as usize)
}

/// The `Loop`/`LoopThen`/`LoopEnd` triple of entry `id` is fully recorded.
pub open spec fn loop_complete(instrs: Seq<Instr>, info: LoopInfo, id: int) -> bool {
    &&& info.loop_ < info.loop_then < info.loop_end < instrs.len()
    &&& instrs[info.loop_ as int] == Instr::Loop(id as usize)
    &&& instrs[info.loop_then as int] == Instr::LoopThen(id as usize)
    &&& instrs[info.loop_end as int] == Instr::LoopEnd(id as usize)
}

/// A recorded `If` triple stays recorded when the instruction list grows.
pub proof fn lemma_if_complete_mono(i1: Seq<Instr>, i2: Seq<Instr>, info: IfInfo, id: int)
    requires
        i1.len() <= i2.len(),
        i2.subrange(0, i1.len() as int) == i1,
        if_complete(i1, info, id),
    ensures
        if_complete(i2, info, id),
{
    assert(i2[info.if_ as int] == i1[info.if_ as int]);
    assert(i2[info.else_ as int] == i1[info.else_ as int]);
    assert(i2[info.if_end as int] == i1[info.if_end as int]);
}

/// A recorded `Loop` triple stays recorded when the instruction list grows.
pub proof fn lemma_loop_complete_mono(i1: Seq<Instr>, i2: Seq<Instr>, info: LoopInfo, id: int)
    requires
        i1.len() <= i2.len(),
        i2.subrange(0, i1.len() as int) == i1,
        loop_complete(i1, info, id),
    ensures
        loop_complete(i2, info, id),
{
    assert(i2[info.loop_ as int] == i1[info.loop_ as int]);
    assert(i2[info.loop_then as int] == i1[info.loop_then as int]);
    assert(i2[info.loop_end as int] == i1[info.loop_end as int]);
}

/// Every control marker in `instrs` carries an id within bounds and sits at
/// the position its side-table entry records.  Together with completeness of
/// every entry this makes each marker unique: a second `If(id)` would have to
/// sit at the same recorded position.
pub open spec fn controls_at_recorded_positions(
    instrs: Seq<Instr>,
    if_infos: Seq<IfInfo>,
    loop_infos: Seq<LoopInfo>,
) -> bool {
    forall|k: int|
        0 <= k < instrs.len() ==> match #[trigger] instrs[k] {
            Instr::If(id) => id < if_infos.len() && if_infos[id as int].if_ == k,
            Instr::Else(id) => id < if_infos.len() && if_infos[id as int].else_ == k,
            Instr::IfEnd(id) => id < if_infos.len() && if_infos[id as int].if_end == k,
            Instr::Loop(id) => id < loop_infos.len() && loop_infos[id as int].loop_ == k,
            Instr::LoopThen(id) => id < loop_infos.len() && loop_infos[id as int].loop_then == k,
            Instr::LoopEnd(id) => id < loop_infos.len() && loop_infos[id as int].loop_end == k,
            _ => true,
        }
}

/// A well-formed lowered function, in a module of `n_funcs` functions.
pub open spec fn func_wf(f: Func, n_funcs: int) -> bool {
    &&& f.args_count <= f.locals_count
    &&& f.instrs@.len() > 0
    &&& f.instrs@.last() == Instr::Return
    &&& forall|k: int|
        0 <= k < f.instrs@.len() ==> instr_refs_ok(
            #[trigger] f.instrs@[k],
            f.locals_count as int,
            n_funcs,
        )
    &&& controls_at_recorded_positions(f.instrs@, f.if_infos@, f.loop_infos@)
    &&& forall|id: int|
        0 <= id < f.if_infos@.len() ==> if_complete(f.instrs@, #[trigger] f.if_infos@[id], id)
    &&& forall|id: int|
        0 <= id < f.loop_infos@.len() ==> loop_complete(
            f.instrs@,
            #[trigger] f.loop_infos@[id],
            id,
        )
}

/// In a well-formed function, every `If(id)` has exactly one matching
/// `Else(id)` and one matching `IfEnd(id)`, in that order after it, at the
/// positions `if_infos[id]` records — and the same holds for every loop
/// triple: each of the six markers occurs at its recorded position and
/// nowhere else.
pub proof fn lemma_control_triples_unique(f: Func, n_funcs: int)
    requires
        func_wf(f, n_funcs),
    ensures
        forall|k: int|
            0 <= k < f.instrs@.len() ==> match #[trigger] f.instrs@[k] {
                Instr::If(id) => id < f.if_infos@.len() && k == f.if_infos@[id as int].if_
                    && f.if_infos@[id as int].if_ < f.if_infos@[id as int].else_ < f.if_infos@[
                    id as int].if_end,
                Instr::Else(id) => id < f.if_infos@.len() && k == f.if_infos@[id as int].else_,
                Instr::IfEnd(id) => id < f.if_infos@.len() && k == f.if_infos@[id as int].if_end,
                Instr::Loop(id) => id < f.loop_infos@.len() && k == f.loop_infos@[
                    id as int].loop_ && f.loop_infos@[id as int].loop_ < f.loop_infos@[
                    id as int].loop_then < f.loop_infos@[id as int].loop_end,
                Instr::LoopThen(id) => id < f.loop_infos@.len() && k == f.loop_infos@[
                    id as int].loop_then,
                Instr::LoopEnd(id) => id < f.loop_infos@.len() && k == f.loop_infos@[
                    id as int].loop_end,
                _ => true,
            },
        forall|id: int|
            0 <= id < f.if_infos@.len() ==> if_complete(f.instrs@, #[trigger] f.if_infos@[id], id),
        forall|id: int|
            0 <= id < f.loop_infos@.len() ==> loop_complete(
                f.instrs@,
                #[trigger] f.loop_infos@[id],
                id,
            ),
{
}

/// A well-formed lowered module: every function is well formed and every
/// call stays inside the module's function table.
pub open spec fn module_wf(m: Module) -> bool {
    forall|i: int| 0 <= i < m.funcs@.len() ==> func_wf(#[trigger] m.funcs@[i], m.funcs@.len() as int)
}

} // verus!
