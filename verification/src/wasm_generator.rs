//! Translation of IR instruction sequences into WebAssembly instructions.
//!
//! The mapping is pinned by [`wasm_of_instr`]: each IR instruction becomes a
//! short fixed sequence, with the structured `block`/`loop`/`if` nesting
//! rebuilt from the IR's control markers.  Negation and the logical
//! operators need more than one WebAssembly instruction: `Minus` multiplies
//! by -1 (equal to two's-complement negation), and `And`/`Or` normalise to
//! 0/1 with `eqz` so that any nonzero operand counts as true, exactly as
//! the interpreter treats them.  Calls go through the tables the generator
//! is configured with: a `Direct` reference becomes a plain `call`, an
//! `Indirect` one pushes the table slot and calls through the shared
//! function table.

use vstd::prelude::*;

use crate::ir;
use crate::wasm;

verus! {

/// The builtin functions a lowered call can target.
#[derive(Debug, Clone, Copy, PartialEq, Eq, Structural)]
pub enum BuiltinFunc {
    Println,
}

/// How a callee is reached: directly by function index, or indirectly
/// through table slot `idx`.
#[derive(Debug, Clone, Copy, PartialEq, Eq, Structural)]
pub enum FuncRef {
    Direct(u32),
    Indirect(u32),
}

/// The first value bound to `k` in an association list.
pub open spec fn assoc_type(types: Seq<(usize, u32)>, k: usize) -> Option<u32>
    decreases types.len(),
{
    if types.len() == 0 {
        None
    } else if types[0].0 == k {
        Some(types[0].1)
    } else {
        assoc_type(types.drop_first(), k)
    }
}

/// The first reference bound to function index `f`.
pub open spec fn assoc_func(refs: Seq<(usize, FuncRef)>, f: usize) -> Option<FuncRef>
    decreases refs.len(),
{
    if refs.len() == 0 {
        None
    } else if refs[0].0 == f {
        Some(refs[0].1)
    } else {
        assoc_func(refs.drop_first(), f)
    }
}

/// The first reference bound to builtin `b`.
pub open spec fn assoc_builtin(refs: Seq<(BuiltinFunc, FuncRef)>, b: BuiltinFunc) -> Option<
    FuncRef,
>
    decreases refs.len(),
{
    if refs.len() == 0 {
        None
    } else if refs[0].0 == b {
        Some(refs[0].1)
    } else {
        assoc_builtin(refs.drop_first(), b)
    }
}

/// Configuration for one translation: the type index for each call arity,
/// the reference for each user function, and for each builtin.
pub struct InstrsGenerator {
    /// Call arity to type-table index.
    pub types: Vec<(usize, u32)>,
    pub func_refs: Vec<(usize, FuncRef)>,
    pub builtin_func_refs: Vec<(BuiltinFunc, FuncRef)>,
}

/// The call sequence for a resolved callee of the given type index.
pub open spec fn call_code(fr: FuncRef, type_idx: u32) -> Seq<wasm::Instr> {
    match fr {
        FuncRef::Direct(i) => seq![wasm::Instr::Call(i)],
        FuncRef::Indirect(i) => seq![
            wasm::Instr::I32Const(i as i32),
            wasm::Instr::CallIndirect(type_idx, 0),
        ],
    }
}

/// The WebAssembly instructions one IR instruction translates to.
pub open spec fn wasm_of_instr(g: InstrsGenerator, i: ir::Instr) -> Seq<wasm::Instr> {
    match i {
        ir::Instr::IntConst(x) => seq![wasm::Instr::I32Const(x)],
        ir::Instr::VarRef(s) => seq![wasm::Instr::GetLocal(s as u32)],
        ir::Instr::Assign(s) => seq![wasm::Instr::SetLocal(s as u32)],
        ir::Instr::Call { func, args_count } => match assoc_func(g.func_refs@, func) {
            Some(fr) => call_code(
                fr,
                match assoc_type(g.types@, args_count) {
                    Some(t) => t,
                    None => 0,
                },
            ),
            None => Seq::empty(),
        },
        ir::Instr::Println => match assoc_builtin(g.builtin_func_refs@, BuiltinFunc::Println) {
            Some(fr) => call_code(
                fr,
                match assoc_type(g.types@, 1) {
                    Some(t) => t,
                    None => 0,
                },
            ),
            None => Seq::empty(),
        },
        ir::Instr::Add => seq![wasm::Instr::I32Add],
        ir::Instr::Sub => seq![wasm::Instr::I32Sub],
        ir::Instr::Mul => seq![wasm::Instr::I32Mul],
        ir::Instr::Div => seq![wasm::Instr::I32DivS],
        ir::Instr::Mod => seq![wasm::Instr::I32RemS],
        ir::Instr::Lt => seq![wasm::Instr::I32LtS],
        ir::Instr::Gt => seq![wasm::Instr::I32GtS],
        ir::Instr::Le => seq![wasm::Instr::I32LeS],
        ir::Instr::Ge => seq![wasm::Instr::I32GeS],
        ir::Instr::Eq => seq![wasm::Instr::I32Eq],
        ir::Instr::Ne => seq![wasm::Instr::I32Ne],
        ir::Instr::And => seq![
            wasm::Instr::I32Eqz,
            wasm::Instr::I32Eqz,
            wasm::Instr::I32Mul,
            wasm::Instr::I32Eqz,
            wasm::Instr::I32Eqz,
        ],
        ir::Instr::Or => seq![wasm::Instr::I32Or, wasm::Instr::I32Eqz, wasm::Instr::I32Eqz],
        ir::Instr::Not => seq![wasm::Instr::I32Eqz],
        ir::Instr::Minus => seq![wasm::Instr::I32Const(-1i32), wasm::Instr::I32Mul],
        ir::Instr::Drop => seq![wasm::Instr::Drop],
        ir::Instr::Return => seq![wasm::Instr::Return],
        ir::Instr::Loop(_) => seq![
            wasm::Instr::Block(wasm::BlockKind::Empty),
            wasm::Instr::Loop(wasm::BlockKind::Empty),
        ],
        ir::Instr::LoopThen(_) => seq![wasm::Instr::I32Eqz, wasm::Instr::BrIf(1)],
        ir::Instr::LoopEnd(_) => seq![wasm::Instr::Br(0), wasm::Instr::End, wasm::Instr::End],
        ir::Instr::If(_) => seq![wasm::Instr::If(wasm::BlockKind::ValueI32)],
        ir::Instr::Else(_) => seq![wasm::Instr::Else],
        ir::Instr::IfEnd(_) => seq![wasm::Instr::End],
    }
}

/// The generator can encode this instruction: its indices fit the encoded
/// widths and every callee it mentions is configured.
pub open spec fn encodable_instr(g: InstrsGenerator, i: ir::Instr) -> bool {
    match i {
        ir::Instr::VarRef(s) => s <= u32::MAX,
        ir::Instr::Assign(s) => s <= u32::MAX,
        ir::Instr::Call { func, args_count } => match assoc_func(g.func_refs@, func) {
            Some(FuncRef::Direct(_)) => true,
            Some(FuncRef::Indirect(t)) => t <= i32::MAX && assoc_type(g.types@, args_count) is
                Some,
            None => false,
        },
        ir::Instr::Println => match assoc_builtin(g.builtin_func_refs@, BuiltinFunc::Println) {
            Some(FuncRef::Direct(_)) => true,
            Some(FuncRef::Indirect(t)) => t <= i32::MAX && assoc_type(g.types@, 1) is Some,
            None => false,
        },
        _ => true,
    }
}

/// Every instruction of the sequence is encodable.
pub open spec fn encodable(g: InstrsGenerator, instrs: Seq<ir::Instr>) -> bool {
    forall|k: int| 0 <= k < instrs.len() ==> encodable_instr(g, #[trigger] instrs[k])
}

/// The translation of a whole instruction sequence.
pub open spec fn wasm_of_seq(g: InstrsGenerator, instrs: Seq<ir::Instr>) -> Seq<wasm::Instr>
    decreases instrs.len(),
{
    if instrs.len() == 0 {
        Seq::empty()
    } else {
        wasm_of_seq(g, instrs.drop_last()) + wasm_of_instr(g, instrs.last())
    }
}

/// The working state of one translation.
pub struct InstrsGeneratorState {
    pub instrs: Vec<wasm::Instr>,
}

impl InstrsGeneratorState {
    pub fn new() -> (r: Self)
        ensures
            r.instrs@ == Seq::<wasm::Instr>::empty(),
    {
        InstrsGeneratorState { instrs: Vec::new() }
    }
}

impl InstrsGenerator {
    pub fn new() -> (r: Self)
        ensures
            r.types@ == Seq::<(usize, u32)>::empty(),
            r.func_refs@ == Seq::<(usize, FuncRef)>::empty(),
            r.builtin_func_refs@ == Seq::<(BuiltinFunc, FuncRef)>::empty(),
    {
        InstrsGenerator {
            types: Vec::new(),
            func_refs: Vec::new(),
            builtin_func_refs: Vec::new(),
        }
    }

    /// Look an arity up in the type table.
    fn lookup_type(&self, k: usize) -> (r: Option<u32>)
        ensures
            r == assoc_type(self.types@, k),
    {
        let mut i: usize = 0;
        proof {
            assert(self.types@.skip(0) =~= self.types@);
        }
        while i < self.types.len()
            invariant
                i <= self.types@.len(),
                assoc_type(self.types@, k) == assoc_type(self.types@.skip(i as int), k),
            decreases self.types@.len() - i,
        {
            if self.types[i].0 == k {
                proof {
                    assert(self.types@.skip(i as int)[0] == self.types@[i as int]);
                }
                return Some(self.types[i].1);
            }
            proof {
                assert(self.types@.skip(i as int).drop_first() =~= self.types@.skip(i + 1));
            }
            i = i + 1;
        }
        proof {
            assert(self.types@.skip(i as int).len() == 0);
        }
        None
    }

    /// Look a user-function index up.
    fn lookup_func(&self, f: usize) -> (r: Option<FuncRef>)
        ensures
            r == assoc_func(self.func_refs@, f),
    {
        let mut i: usize = 0;
        proof {
            assert(self.func_refs@.skip(0) =~= self.func_refs@);
        }
        while i < self.func_refs.len()
            invariant
                i <= self.func_refs@.len(),
                assoc_func(self.func_refs@, f) == assoc_func(self.func_refs@.skip(i as int), f),
            decreases self.func_refs@.len() - i,
        {
            if self.func_refs[i].0 == f {
                proof {
                    assert(self.func_refs@.skip(i as int)[0] == self.func_refs@[i as int]);
                }
                return Some(self.func_refs[i].1);
            }
            proof {
                assert(self.func_refs@.skip(i as int).drop_first() =~= self.func_refs@.skip(i + 1));
            }
            i = i + 1;
        }
        proof {
            assert(self.func_refs@.skip(i as int).len() == 0);
        }
        None
    }

    /// Look a builtin up.
    fn lookup_builtin(&self, b: BuiltinFunc) -> (r: Option<FuncRef>)
        ensures
            r == assoc_builtin(self.builtin_func_refs@, b),
    {
        let mut i: usize = 0;
        proof {
            assert(self.builtin_func_refs@.skip(0) =~= self.builtin_func_refs@);
        }
        while i < self.builtin_func_refs.len()
            invariant
                i <= self.builtin_func_refs@.len(),
                assoc_builtin(self.builtin_func_refs@, b) == assoc_builtin(
                    self.builtin_func_refs@.skip(i as int),
                    b,
                ),
            decreases self.builtin_func_refs@.len() - i,
        {
            if self.builtin_func_refs[i].0 == b {
                proof {
                    assert(self.builtin_func_refs@.skip(i as int)[0] == self.builtin_func_refs@[
                        i as int]);
                }
                return Some(self.builtin_func_refs[i].1);
            }
            proof {
                assert(self.builtin_func_refs@.skip(i as int).drop_first()
                    =~= self.builtin_func_refs@.skip(i + 1));
            }
            i = i + 1;
        }
        proof {
            assert(self.builtin_func_refs@.skip(i as int).len() == 0);
        }
        None
    }

    /// Emit the call sequence for a resolved callee.
    fn gen_func_refs(
        &self,
        state: &mut InstrsGeneratorState,
        func_ref: &FuncRef,
        args_count: usize,
    )
        requires
            match *func_ref {
                FuncRef::Direct(_) => true,
                FuncRef::Indirect(t) => t <= i32::MAX && assoc_type(self.types@, args_count) is
                    Some,
            },
        ensures
            final(state).instrs@ == old(state).instrs@ + call_code(
                *func_ref,
                match assoc_type(self.types@, args_count) {
                    Some(t) => t,
                    None => 0,
                },
            ),
    {
        match func_ref {
            FuncRef::Direct(idx) => {
                state.instrs.push(wasm::Instr::Call(*idx));
                proof {
                    assert(state.instrs@ =~= old(state).instrs@ + call_code(
                        *func_ref,
                        match assoc_type(self.types@, args_count) {
                            Some(t) => t,
                            None => 0,
                        },
                    ));
                }
            },
            FuncRef::Indirect(idx) => {
                state.instrs.push(wasm::Instr::I32Const(*idx as i32));
                let t = match self.lookup_type(args_count) {
                    Some(t) => t,
                    None => 0,
                };
                state.instrs.push(wasm::Instr::CallIndirect(t, 0));
                proof {
                    assert(state.instrs@ =~= old(state).instrs@ + call_code(
                        *func_ref,
                        match assoc_type(self.types@, args_count) {
                            Some(t2) => t2,
                            None => 0,
                        },
                    ));
                }
            },
        }
    }

    /// Translate one IR instruction, appending its WebAssembly sequence.
    fn gen_instr(&self, state: &mut InstrsGeneratorState, instr: &ir::Instr)
        requires
            encodable_instr(*self, *instr),
        ensures
            final(state).instrs@ == old(state).instrs@ + wasm_of_instr(*self, *instr),
    {
        let ghost pre = old(state).instrs@;
        match *instr {
            ir::Instr::IntConst(x) => {
                state.instrs.push(wasm::Instr::I32Const(x));
            },
            ir::Instr::VarRef(s) => {
                state.instrs.push(wasm::Instr::GetLocal(s as u32));
            },
            ir::Instr::Assign(s) => {
                state.instrs.push(wasm::Instr::SetLocal(s as u32));
            },
            ir::Instr::Call { func, args_count } => {
                let fr = match self.lookup_func(func) {
                    Some(fr) => fr,
                    None => {
                        proof {
                            assert(false);
                        }
                        return ;
                    },
                };
                self.gen_func_refs(state, &fr, args_count);
            },
            ir::Instr::Println => {
                let fr = match self.lookup_builtin(BuiltinFunc::Println) {
                    Some(fr) => fr,
                    None => {
                        proof {
                            assert(false);
                        }
                        return ;
                    },
                };
                self.gen_func_refs(state, &fr, 1);
            },
            ir::Instr::Add => {
                state.instrs.push(wasm::Instr::I32Add);
            },
            ir::Instr::Sub => {
                state.instrs.push(wasm::Instr::I32Sub);
            },
            ir::Instr::Mul => {
                state.instrs.push(wasm::Instr::I32Mul);
            },
            ir::Instr::Div => {
                state.instrs.push(wasm::Instr::I32DivS);
            },
            ir::Instr::Mod => {
                state.instrs.push(wasm::Instr::I32RemS);
            },
            ir::Instr::Lt => {
                state.instrs.push(wasm::Instr::I32LtS);
            },
            ir::Instr::Gt => {
                state.instrs.push(wasm::Instr::I32GtS);
            },
            ir::Instr::Le => {
                state.instrs.push(wasm::Instr::I32LeS);
            },
            ir::Instr::Ge => {
                state.instrs.push(wasm::Instr::I32GeS);
            },
            ir::Instr::Eq => {
                state.instrs.push(wasm::Instr::I32Eq);
            },
            ir::Instr::Ne => {
                state.instrs.push(wasm::Instr::I32Ne);
            },
            ir::Instr::And => {
                state.instrs.push(wasm::Instr::I32Eqz);
                state.instrs.push(wasm::Instr::I32Eqz);
                state.instrs.push(wasm::Instr::I32Mul);
                state.instrs.push(wasm::Instr::I32Eqz);
                state.instrs.push(wasm::Instr::I32Eqz);
            },
            ir::Instr::Or => {
                state.instrs.push(wasm::Instr::I32Or);
                state.instrs.push(wasm::Instr::I32Eqz);
                state.instrs.push(wasm::Instr::I32Eqz);
            },
            ir::Instr::Not => {
                state.instrs.push(wasm::Instr::I32Eqz);
            },
            ir::Instr::Minus => {
                state.instrs.push(wasm::Instr::I32Const(-1));
                state.instrs.push(wasm::Instr::I32Mul);
            },
            ir::Instr::Drop => {
                state.instrs.push(wasm::Instr::Drop);
            },
            ir::Instr::Return => {
                state.instrs.push(wasm::Instr::Return);
            },
            ir::Instr::Loop(_) => {
                state.instrs.push(wasm::Instr::Block(wasm::BlockKind::Empty));
                state.instrs.push(wasm::Instr::Loop(wasm::BlockKind::Empty));
            },
            ir::Instr::LoopThen(_) => {
                state.instrs.push(wasm::Instr::I32Eqz);
                state.instrs.push(wasm::Instr::BrIf(1));
            },
            ir::Instr::LoopEnd(_) => {
                state.instrs.push(wasm::Instr::Br(0));
                state.instrs.push(wasm::Instr::End);
                state.instrs.push(wasm::Instr::End);
            },
            ir::Instr::If(_) => {
                state.instrs.push(wasm::Instr::If(wasm::BlockKind::ValueI32));
            },
            ir::Instr::Else(_) => {
                state.instrs.push(wasm::Instr::Else);
            },
            ir::Instr::IfEnd(_) => {
                state.instrs.push(wasm::Instr::End);
            },
        }
        proof {
            assert(state.instrs@ =~= pre + wasm_of_instr(*self, *instr));
        }
    }

    /// Translate a whole function body; a final `end` closes the function.
    pub fn gen_instrs(&self, instrs: &Vec<ir::Instr>) -> (r: Vec<wasm::Instr>)
        requires
            encodable(*self, instrs@),
        ensures
            r@ == wasm_of_seq(*self, instrs@).push(wasm::Instr::End),
    {
        let mut state = InstrsGeneratorState::new();
        let mut i: usize = 0;
        while i < instrs.len()
            invariant
                i <= instrs@.len(),
                encodable(*self, instrs@),
                state.instrs@ == wasm_of_seq(*self, instrs@.take(i as int)),
            decreases instrs@.len() - i,
        {
            self.gen_instr(&mut state, &instrs[i]);
            proof {
                assert(instrs@.take(i + 1).drop_last() =~= instrs@.take(i as int));
                assert(instrs@.take(i + 1).last() == instrs@[i as int]);
            }
            i = i + 1;
        }
        proof {
            assert(instrs@.take(instrs@.len() as int) =~= instrs@);
        }
        state.instrs.push(wasm::Instr::End);
        state.instrs
    }
}

} // verus!
