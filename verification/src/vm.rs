//! A virtual machine that drives the interpreter and profiles loop entries.
//!
//! The per-loop execution counter is groundwork for a hot-loop tier-up path;
//! nothing consumes it yet, so `GeneratedMeta` and `Guard` are placeholders
//! for the metadata such a path would need.

use vstd::prelude::*;

use crate::interpreter::{self, step_spec, Builtin, State, VmError};
use crate::ir::{Instr, Module};

verus! {

use vstd::pervasive::VecAdditionalExecFns;

/// The profiling state of one loop.
#[derive(Debug, Clone, Copy, PartialEq, Eq, Structural)]
pub enum LoopState {
    Profiling { count: usize },
}

/// The execution count a loop has accumulated.
pub open spec fn profile_count(s: LoopState) -> usize {
    match s {
        LoopState::Profiling { count } => count,
    }
}

/// Metadata describing generated code; a placeholder for the tier-up path.
#[derive(Debug, Clone, PartialEq, Eq)]
pub struct GeneratedMeta {
    pub guards: Vec<Guard>,
}

/// A point at which generated code must bail back to the interpreter; a
/// placeholder for the tier-up path.
#[derive(Debug, Clone, Copy, PartialEq, Eq, Structural)]
pub struct Guard {
    pub pc: interpreter::PC,
}

/// When the machine in state `s` is about to execute `Loop(id)`, the
/// function index and loop id whose profile counter that step bumps.
pub open spec fn current_loop(m: Module, s: State) -> Option<(int, int)> {
    if s.pc.func < m.funcs@.len() {
        let f = m.funcs@[s.pc.func as int];
        if s.pc.instr < f.instrs@.len() {
            match f.instrs@[s.pc.instr as int] {
                Instr::Loop(id) => Some((s.pc.func as int, id as int)),
                _ => None,
            }
        } else {
            None
        }
    } else {
        None
    }
}

/// The interpreter plus one profiling counter per loop of the module.
pub struct Vm<B: Builtin> {
    pub interpreter: interpreter::Interpreter<B>,
    pub loop_states: Vec<Vec<LoopState>>,
}

impl<B: Builtin> Vm<B> {
    /// One counter row per function, one entry per loop of that function,
    /// all starting at zero.
    pub open spec fn counters_shape(&self) -> bool {
        &&& self.loop_states@.len() == self.interpreter.module.funcs@.len()
        &&& forall|i: int|
            0 <= i < self.loop_states@.len() ==> (#[trigger] self.loop_states@[i])@.len()
                == self.interpreter.module.funcs@[i].loop_infos@.len()
    }

    pub fn new(module: Module, builtin: B) -> (r: Self)
        ensures
            r.interpreter.module == module,
            r.interpreter.builtin == builtin,
            r.interpreter.st() == (State {
                pc: interpreter::PC { func: 0, instr: 0 },
                stack: Seq::<i32>::empty(),
                frames: Seq::<interpreter::StackFrame>::empty(),
            }),
            r.counters_shape(),
            forall|i: int, j: int|
                0 <= i < r.loop_states@.len() && 0 <= j < (#[trigger] r.loop_states@[i])@.len()
                    ==> profile_count(#[trigger] r.loop_states@[i]@[j]) == 0,
    {
        let mut loop_states: Vec<Vec<LoopState>> = Vec::new();
        let mut i: usize = 0;
        while i < module.funcs.len()
            invariant
                i <= module.funcs@.len(),
                loop_states@.len() == i as int,
                forall|k: int|
                    0 <= k < i ==> (#[trigger] loop_states@[k])@.len()
                        == module.funcs@[k].loop_infos@.len(),
                forall|k: int, j: int|
                    0 <= k < i && 0 <= j < (#[trigger] loop_states@[k])@.len() ==> profile_count(
                        #[trigger] loop_states@[k]@[j],
                    ) == 0,
            decreases module.funcs@.len() - i,
        {
            let n = module.funcs[i].loop_infos.len();
            let mut row: Vec<LoopState> = Vec::new();
            while row.len() < n
                invariant
                    row@.len() <= n,
                    forall|j: int|
                        0 <= j < row@.len() ==> profile_count(#[trigger] row@[j]) == 0,
                decreases n - row.len(),
            {
                row.push(LoopState::Profiling { count: 0 });
            }
            loop_states.push(row);
            i = i + 1;
        }
        Vm { interpreter: interpreter::Interpreter::new(module, builtin), loop_states }
    }

    /// One machine step.  The interpreter moves exactly as
    /// [`step_spec`] prescribes; when the instruction about to execute is a
    /// `Loop` marker, its profile counter is bumped (saturating) first.
    pub fn step(&mut self) -> (r: Result<(), VmError>)
        ensures
            final(self).interpreter.module == old(self).interpreter.module,
            match step_spec(old(self).interpreter.module, old(self).interpreter.st()) {
                Some((s2, out)) => {
                    &&& r == Ok::<(), VmError>(())
                    &&& final(self).interpreter.st() == s2
                    &&& final(self).interpreter.builtin.log() == match out {
                        Some(x) => old(self).interpreter.builtin.log().push(x),
                        None => old(self).interpreter.builtin.log(),
                    }
                },
                None => {
                    &&& r == Err::<(), VmError>(VmError::Trap)
                    &&& final(self).interpreter.st() == old(self).interpreter.st()
                    &&& final(self).interpreter.builtin == old(self).interpreter.builtin
                },
            },
            final(self).loop_states@.len() == old(self).loop_states@.len(),
            match current_loop(old(self).interpreter.module, old(self).interpreter.st()) {
                Some((fi, id)) => {
                    if 0 <= fi < old(self).loop_states@.len() && 0 <= id < old(self).loop_states@[fi]@.len() {
                        &&& forall|k: int|
                            0 <= k < final(self).loop_states@.len() && k != fi ==> #[trigger] final(self).loop_states@[k] == old(self).loop_states@[k]
                        &&& final(self).loop_states@[fi]@ == old(self).loop_states@[fi]@.update(
                            id,
                            LoopState::Profiling {
                                count: if profile_count(old(self).loop_states@[fi]@[id])
                                    < usize::MAX {
                                    (profile_count(old(self).loop_states@[fi]@[id]) + 1) as usize
                                } else {
                                    usize::MAX
                                },
                            },
                        )
                    } else {
                        final(self).loop_states@ == old(self).loop_states@
                    }
                },
                None => final(self).loop_states@ == old(self).loop_states@,
            },
    {
        let fi = self.interpreter.pc.func;
        if fi < self.interpreter.module.funcs.len() && self.interpreter.pc.instr
            < self.interpreter.module.funcs[fi].instrs.len() {
            match self.interpreter.module.funcs[fi].instrs[self.interpreter.pc.instr] {
                Instr::Loop(id) => {
                    if fi < self.loop_states.len() && id < self.loop_states[fi].len() {
                        let LoopState::Profiling { count } = self.loop_states[fi][id];
                        let bumped = if count < usize::MAX {
                            count + 1
                        } else {
                            usize::MAX
                        };
                        let row = &mut self.loop_states[fi];
                        row.set(id, LoopState::Profiling { count: bumped });
                    }
                },
                _ => {},
            }
        }
        self.interpreter.step()
    }
}

} // verus!
