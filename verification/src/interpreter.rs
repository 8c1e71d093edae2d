//! A stack-machine interpreter over the intermediate representation.
//!
//! The meaning of one instruction is given by the specification function
//! [`step_spec`]; the executable [`Interpreter::step`] is proved to implement
//! it exactly, returning an error (instead of panicking) precisely on the
//! configurations `step_spec` rejects: an out-of-range program counter, a
//! value-stack underflow, a bad slot or jump table index, division by zero,
//! or a division overflow.  Whole calls are pinned by [`run_vm`], the
//! fuel-bounded iteration of `step_spec`.

use vstd::prelude::*;

use crate::ir::{Instr, Module};

verus! {

use vstd::pervasive::VecAdditionalExecFns;
use std::io::Write;

/// The `println` capability the interpreter is parameterised by, so that a
/// host can sink output to stdout while tests capture it.  `log` is the
/// sequence of values printed so far; `println` must extend it by exactly
/// the printed value.
pub trait Builtin: Sized {
    spec fn log(&self) -> Seq<i32>;

    fn println(&mut self, x: i32)
        ensures
            final(self).log() == old(self).log().push(x),
    ;
}

/// A capability that records printed values in memory.
#[derive(Debug, Clone, PartialEq, Eq)]
pub struct RecordingBuiltin {
    pub printed: Vec<i32>,
}

impl RecordingBuiltin {
    pub fn new() -> (r: RecordingBuiltin)
        ensures
            r.printed@ == Seq::<i32>::empty(),
    {
        RecordingBuiltin { printed: Vec::new() }
    }
}

impl Builtin for RecordingBuiltin {
    open spec fn log(&self) -> Seq<i32> {
        self.printed@
    }

    fn println(&mut self, x: i32) {
        self.printed.push(x);
    }
}

/// The production capability: prints each value and a newline to stdout.
/// The history field is ghost bookkeeping for the printed sequence.
#[derive(Clone)]
pub struct RustBuiltin {
    pub history: Ghost<Seq<i32>>,
}

impl RustBuiltin {
    pub fn new() -> (r: RustBuiltin)
        ensures
            r.log() == Seq::<i32>::empty(),
    {
        RustBuiltin { history: Ghost(Seq::empty()) }
    }
}

/// Relies on std::io::Stdout through `writeln!`: writes the decimal
/// rendering of `x` and a newline to standard output.
#[verifier::external_body]
fn print_line(x: i32) {
    let _ = writeln!(std::io::stdout(), "{}", x);
}

impl Builtin for RustBuiltin {
    open spec fn log(&self) -> Seq<i32> {
        self.history@
    }

    fn println(&mut self, x: i32) {
        print_line(x);
        self.history = Ghost(self.history@.push(x));
    }
}

/// A program counter: a function index and an instruction index within it.
#[derive(Debug, Clone, Copy, PartialEq, Eq, Structural)]
pub struct PC {
    pub func: usize,
    pub instr: usize,
}

/// One call frame: where to resume on `Return`, and the value-stack index
/// of the callee's slot 0.
#[derive(Debug, Clone, Copy, PartialEq, Eq, Structural)]
pub struct StackFrame {
    pub pc: PC,
    pub base: usize,
}

/// The mathematical state of the machine: program counter, value stack and
/// call stack.
pub struct State {
    pub pc: PC,
    pub stack: Seq<i32>,
    pub frames: Seq<StackFrame>,
}

/// A sequence of `n` zero slots.
pub open spec fn zero_slots(n: nat) -> Seq<i32> {
    Seq::new(n, |i: int| 0i32)
}

/// The result of a two-operand operator on `x` (deeper) and `y` (top).
///
/// Arithmetic wraps around; comparisons and logical operators push 1 or 0.
/// `Div` rejects division by zero and the one overflowing division
/// (`i32::MIN / -1`); `Mod` rejects a zero divisor and yields 0 for
/// `i32::MIN % -1`, matching WebAssembly's `div_s`/`rem_s` traps so that the
/// two back ends agree.
pub open spec fn eval_binop(i: Instr, x: i32, y: i32) -> Option<i32> {
    match i {
        Instr::Add => Some(x.wrapping_add(y)),
        Instr::Sub => Some(x.wrapping_sub(y)),
        Instr::Mul => Some(x.wrapping_mul(y)),
        Instr::Div => x.checked_div(y),
        Instr::Mod => match x.checked_rem(y) {
            Some(r) => Some(r),
            None => if y == 0 {
                None
            } else {
                Some(0)
            },
        },
        Instr::Lt => Some(if x < y { 1 } else { 0 }),
        Instr::Gt => Some(if x > y { 1 } else { 0 }),
        Instr::Le => Some(if x <= y { 1 } else { 0 }),
        Instr::Ge => Some(if x >= y { 1 } else { 0 }),
        Instr::Eq => Some(if x == y { 1 } else { 0 }),
        Instr::Ne => Some(if x != y { 1 } else { 0 }),
        Instr::And => Some(if x != 0 && y != 0 { 1 } else { 0 }),
        Instr::Or => Some(if x != 0 || y != 0 { 1 } else { 0 }),
        _ => None,
    }
}

/// One step of the machine: `None` is a trap (a configuration the language
/// leaves undefined, such as division by zero), `Some((s2, out))` the
/// successor state and the value printed by this step, if any.
pub open spec fn step_spec(m: Module, s: State) -> Option<(State, Option<i32>)> {
    if s.pc.func >= m.funcs@.len() || s.frames.len() == 0 {
        None
    } else {
        let f = m.funcs@[s.pc.func as int];
        if s.pc.instr >= f.instrs@.len() {
            None
        } else {
            let frame = s.frames.last();
            let i = f.instrs@[s.pc.instr as int];
            let next = PC { func: s.pc.func, instr: (s.pc.instr + 1) as usize };
            match i {
                Instr::IntConst(x) => Some(
                    (State { pc: next, stack: s.stack.push(x), frames: s.frames }, None),
                ),
                Instr::VarRef(idx) => if frame.base + idx < s.stack.len() {
                    Some(
                        (
                            State {
                                pc: next,
                                stack: s.stack.push(s.stack[frame.base + idx]),
                                frames: s.frames,
                            },
                            None,
                        ),
                    )
                } else {
                    None
                },
                Instr::Assign(idx) => if s.stack.len() >= 1 && frame.base + idx < s.stack.len()
                    - 1 {
                    Some(
                        (
                            State {
                                pc: next,
                                stack: s.stack.drop_last().update(
                                    frame.base + idx,
                                    s.stack.last(),
                                ),
                                frames: s.frames,
                            },
                            None,
                        ),
                    )
                } else {
                    None
                },
                Instr::Call { func, args_count } => if func < m.funcs@.len() && args_count
                    <= s.stack.len() {
                    let callee = m.funcs@[func as int];
                    let extra: nat = if callee.locals_count > args_count {
                        (callee.locals_count - args_count) as nat
                    } else {
                        0
                    };
                    Some(
                        (
                            State {
                                pc: PC { func, instr: 0 },
                                stack: s.stack + zero_slots(extra),
                                frames: s.frames.push(
                                    StackFrame {
                                        pc: next,
                                        base: (s.stack.len() - args_count) as usize,
                                    },
                                ),
                            },
                            None,
                        ),
                    )
                } else {
                    None
                },
                Instr::If(id) => if s.stack.len() >= 1 {
                    if s.stack.last() != 0 {
                        Some((State { pc: next, stack: s.stack.drop_last(), frames: s.frames }, None))
                    } else if id < f.if_infos@.len() && f.if_infos@[id as int].else_ < usize::MAX {
                        Some(
                            (
                                State {
                                    pc: PC {
                                        func: s.pc.func,
                                        instr: (f.if_infos@[id as int].else_ + 1) as usize,
                                    },
                                    stack: s.stack.drop_last(),
                                    frames: s.frames,
                                },
                                None,
                            ),
                        )
                    } else {
                        None
                    }
                } else {
                    None
                },
                Instr::Else(id) => if id < f.if_infos@.len() && f.if_infos@[id as int].if_end
                    < usize::MAX {
                    Some(
                        (
                            State {
                                pc: PC {
                                    func: s.pc.func,
                                    instr: (f.if_infos@[id as int].if_end + 1) as usize,
                                },
                                stack: s.stack,
                                frames: s.frames,
                            },
                            None,
                        ),
                    )
                } else {
                    None
                },
                Instr::IfEnd(_) => Some(
                    (State { pc: next, stack: s.stack, frames: s.frames }, None),
                ),
                Instr::Loop(_) => Some((State { pc: next, stack: s.stack, frames: s.frames }, None)),
                Instr::LoopThen(id) => if s.stack.len() >= 1 {
                    if s.stack.last() != 0 {
                        Some((State { pc: next, stack: s.stack.drop_last(), frames: s.frames }, None))
                    } else if id < f.loop_infos@.len() && f.loop_infos@[id as int].loop_end
                        < usize::MAX {
                        Some(
                            (
                                State {
                                    pc: PC {
                                        func: s.pc.func,
                                        instr: (f.loop_infos@[id as int].loop_end + 1) as usize,
                                    },
                                    stack: s.stack.drop_last(),
                                    frames: s.frames,
                                },
                                None,
                            ),
                        )
                    } else {
                        None
                    }
                } else {
                    None
                },
                Instr::LoopEnd(id) => if id < f.loop_infos@.len() {
                    Some(
                        (
                            State {
                                pc: PC { func: s.pc.func, instr: f.loop_infos@[id as int].loop_ },
                                stack: s.stack,
                                frames: s.frames,
                            },
                            None,
                        ),
                    )
                } else {
                    None
                },
                Instr::Return => if s.stack.len() >= 1 {
                    let ret = s.stack.last();
                    let popped = s.stack.drop_last();
                    let truncated = if frame.base <= popped.len() {
                        popped.take(frame.base as int)
                    } else {
                        popped
                    };
                    Some(
                        (
                            State {
                                pc: frame.pc,
                                stack: truncated.push(ret),
                                frames: s.frames.drop_last(),
                            },
                            None,
                        ),
                    )
                } else {
                    None
                },
                Instr::Println => if s.stack.len() >= 1 {
                    Some(
                        (
                            State {
                                pc: next,
                                stack: s.stack.drop_last().push(0),
                                frames: s.frames,
                            },
                            Some(s.stack.last()),
                        ),
                    )
                } else {
                    None
                },
                Instr::Not => if s.stack.len() >= 1 {
                    Some(
                        (
                            State {
                                pc: next,
                                stack: s.stack.drop_last().push(
                                    if s.stack.last() == 0 {
                                        1
                                    } else {
                                        0
                                    },
                                ),
                                frames: s.frames,
                            },
                            None,
                        ),
                    )
                } else {
                    None
                },
                Instr::Minus => if s.stack.len() >= 1 {
                    Some(
                        (
                            State {
                                pc: next,
                                stack: s.stack.drop_last().push(0i32.wrapping_sub(s.stack.last())),
                                frames: s.frames,
                            },
                            None,
                        ),
                    )
                } else {
                    None
                },
                Instr::Drop => if s.stack.len() >= 1 {
                    Some((State { pc: next, stack: s.stack.drop_last(), frames: s.frames }, None))
                } else {
                    None
                },
                _ => if s.stack.len() >= 2 {
                    let y = s.stack.last();
                    let x = s.stack[s.stack.len() - 2];
                    match eval_binop(i, x, y) {
                        Some(r) => Some(
                            (
                                State {
                                    pc: next,
                                    stack: s.stack.drop_last().drop_last().push(r),
                                    frames: s.frames,
                                },
                                None,
                            ),
                        ),
                        None => None,
                    }
                } else {
                    None
                },
            }
        }
    }
}

/// A step that lands on the sentinel function index (or beyond) is a
/// `Return`, so it leaves at least the returned value on the stack.
pub proof fn lemma_step_done_nonempty(m: Module, s: State, s2: State, out: Option<i32>)
    requires
        step_spec(m, s) == Some((s2, out)),
        s2.pc.func >= m.funcs@.len(),
    ensures
        s2.stack.len() > 0,
{
}

/// The call-stack shape an entry call sets up and every step keeps: the
/// sentinel frame at the bottom (resuming at the module's length, base 0)
/// and only real return addresses above it.
pub open spec fn frames_ok(m: Module, s: State) -> bool {
    &&& s.frames.len() >= 1
    &&& s.frames[0] == (StackFrame {
        pc: PC { func: m.funcs@.len() as usize, instr: 0 },
        base: 0,
    })
    &&& forall|i: int| 1 <= i < s.frames.len() ==> (#[trigger] s.frames[i]).pc.func
        < m.funcs@.len()
}

/// A step from a state with a well-shaped call stack either keeps the shape
/// (while execution continues), or — on the `Return` through the bottom
/// sentinel — ends with exactly the returned value on the value stack and
/// an empty call stack.
pub proof fn lemma_step_frames_ok(m: Module, s: State, s2: State, out: Option<i32>)
    requires
        step_spec(m, s) == Some((s2, out)),
        frames_ok(m, s),
        m.funcs@.len() <= usize::MAX,
    ensures
        s2.pc.func >= m.funcs@.len() ==> s2.stack =~= seq![s2.stack.last()] && s2.frames.len()
            == 0,
        s2.pc.func < m.funcs@.len() ==> frames_ok(m, s2),
{
    let f = m.funcs@[s.pc.func as int];
    let i = f.instrs@[s.pc.instr as int];
    match i {
        Instr::Return => {
            let frame = s.frames.last();
            if frame.pc.func >= m.funcs@.len() {
                assert(s.frames.len() == 1) by {
                    if s.frames.len() > 1 {
                        assert(s.frames[s.frames.len() - 1].pc.func < m.funcs@.len());
                    }
                }
                assert(frame == s.frames[0]);
            } else {
                assert(s.frames.len() >= 2) by {
                    if s.frames.len() == 1 {
                        assert(s.frames.last() == s.frames[0]);
                    }
                }
            }
        },
        _ => {},
    }
}

/// A runtime failure of the virtual machine.
#[derive(Debug, Clone, Copy, PartialEq, Eq, Structural)]
pub enum VmError {
    /// An undefined configuration: stack underflow, a bad index, division
    /// by zero or the overflowing division.
    Trap,
    /// The step budget given to `call` ran out.
    OutOfFuel,
}

/// The outcome of running the machine for at most `fuel` steps, with the
/// trace of printed values.
pub enum RunResult {
    Done(i32, Seq<i32>),
    Trap(Seq<i32>),
    OutOfFuel(Seq<i32>),
}

/// Prepend an already-printed trace to a run outcome.
pub open spec fn prepend_trace(tr: Seq<i32>, r: RunResult) -> RunResult {
    match r {
        RunResult::Done(v, t) => RunResult::Done(v, tr + t),
        RunResult::Trap(t) => RunResult::Trap(tr + t),
        RunResult::OutOfFuel(t) => RunResult::OutOfFuel(tr + t),
    }
}

/// Prepending traces one after the other is prepending their concatenation.
pub proof fn lemma_prepend_prepend(a: Seq<i32>, b: Seq<i32>, r: RunResult)
    ensures
        prepend_trace(a, prepend_trace(b, r)) == prepend_trace(a + b, r),
{
    match r {
        RunResult::Done(v, t) => {
            assert(a + (b + t) =~= (a + b) + t);
        },
        RunResult::Trap(t) => {
            assert(a + (b + t) =~= (a + b) + t);
        },
        RunResult::OutOfFuel(t) => {
            assert(a + (b + t) =~= (a + b) + t);
        },
    }
}

/// Iterate `step_spec` until the program counter reaches the sentinel
/// function index (one past the module's functions), a trap occurs, or the
/// fuel runs out.  On completion the result value is the single value the
/// final `Return` left on top of the stack.
pub open spec fn run_vm(m: Module, s: State, fuel: nat) -> RunResult
    decreases fuel,
{
    if fuel == 0 {
        RunResult::OutOfFuel(Seq::empty())
    } else {
        match step_spec(m, s) {
            None => RunResult::Trap(Seq::empty()),
            Some((s2, out)) => {
                let tr0 = match out {
                    Some(x) => seq![x],
                    None => Seq::<i32>::empty(),
                };
                if s2.pc.func == m.funcs@.len() {
                    RunResult::Done(s2.stack.last(), tr0)
                } else {
                    prepend_trace(tr0, run_vm(m, s2, (fuel - 1) as nat))
                }
            },
        }
    }
}

/// The machine state `call_prepare` sets up: a sentinel frame, the
/// arguments in slots `0..k`, zeroed slots for the locals, and the program
/// counter at the entry of the called function.
pub open spec fn prepared_state(old_state: State, m: Module, func: usize, args: Seq<i32>) -> State {
    let callee = m.funcs@[func as int];
    let extra: nat = if callee.locals_count > args.len() {
        (callee.locals_count - args.len()) as nat
    } else {
        0
    };
    State {
        pc: PC { func, instr: 0 },
        stack: old_state.stack + args + zero_slots(extra),
        frames: old_state.frames.push(
            StackFrame { pc: PC { func: m.funcs@.len() as usize, instr: 0 }, base: 0 },
        ),
    }
}

/// The interpreter: a lowered module, the machine stacks, and the `println`
/// capability.
pub struct Interpreter<B: Builtin> {
    pub pc: PC,
    pub stack: Vec<i32>,
    pub call_stack: Vec<StackFrame>,
    pub module: Module,
    pub builtin: B,
}

impl<B: Builtin> Interpreter<B> {
    /// The mathematical state of the machine.
    pub open spec fn st(&self) -> State {
        State { pc: self.pc, stack: self.stack@, frames: self.call_stack@ }
    }

    pub fn new(module: Module, builtin: B) -> (r: Self)
        ensures
            r.module == module,
            r.builtin == builtin,
            r.st() == (State {
                pc: PC { func: 0, instr: 0 },
                stack: Seq::<i32>::empty(),
                frames: Seq::<StackFrame>::empty(),
            }),
    {
        Interpreter {
            pc: PC { func: 0, instr: 0 },
            stack: Vec::new(),
            call_stack: Vec::new(),
            module,
            builtin,
        }
    }

    /// The sentinel function index used by entry frames: one past the last
    /// function of the module.
    pub fn dummy_func(&self) -> (r: usize)
        ensures
            r == self.module.funcs@.len(),
    {
        self.module.funcs.len()
    }

    /// Execute one instruction: exactly the transition of [`step_spec`],
    /// with an error (and no state change) on the configurations it
    /// rejects.
    pub fn step(&mut self) -> (r: Result<(), VmError>)
        ensures
            final(self).module == old(self).module,
            match step_spec(old(self).module, old(self).st()) {
                Some((s2, out)) => {
                    &&& r == Ok::<(), VmError>(())
                    &&& final(self).st() == s2
                    &&& final(self).builtin.log() == match out {
                        Some(x) => old(self).builtin.log().push(x),
                        None => old(self).builtin.log(),
                    }
                },
                None => {
                    &&& r == Err::<(), VmError>(VmError::Trap)
                    &&& final(self).st() == old(self).st()
                    &&& final(self).builtin == old(self).builtin
                },
            },
    {
        if self.pc.func >= self.module.funcs.len() {
            return Err(VmError::Trap);
        }
        if self.call_stack.len() == 0 {
            return Err(VmError::Trap);
        }
        if self.pc.instr >= self.module.funcs[self.pc.func].instrs.len() {
            return Err(VmError::Trap);
        }
        let frame = self.call_stack[self.call_stack.len() - 1];
        let instr = self.module.funcs[self.pc.func].instrs[self.pc.instr];
        let next_instr = self.pc.instr + 1;

        match instr {
            Instr::IntConst(x) => {
                self.stack.push(x);
                self.pc.instr = next_instr;
            },
            Instr::VarRef(idx) => {
                if !(frame.base <= self.stack.len() && idx < self.stack.len() - frame.base) {
                    return Err(VmError::Trap);
                }
                let v = self.stack[frame.base + idx];
                self.stack.push(v);
                self.pc.instr = next_instr;
            },
            Instr::Assign(idx) => {
                if self.stack.len() == 0 {
                    return Err(VmError::Trap);
                }
                if !(frame.base <= self.stack.len() - 1 && idx < (self.stack.len() - 1)
                    - frame.base) {
                    return Err(VmError::Trap);
                }
                let x = match self.stack.pop() {
                    Some(x) => x,
                    None => {
                        return Err(VmError::Trap);
                    },
                };
                self.stack.set(frame.base + idx, x);
                self.pc.instr = next_instr;
            },
            Instr::Call { func, args_count } => {
                if !(func < self.module.funcs.len() && args_count <= self.stack.len()) {
                    return Err(VmError::Trap);
                }
                let locals_count = self.module.funcs[func].locals_count;
                let base = self.stack.len() - args_count;
                self.call_stack.push(
                    StackFrame { pc: PC { func: self.pc.func, instr: next_instr }, base },
                );
                let extra: usize = if locals_count > args_count {
                    locals_count - args_count
                } else {
                    0
                };
                let mut zs: Vec<i32> = Vec::new();
                while zs.len() < extra
                    invariant
                        zs@.len() <= extra,
                        forall|j: int| 0 <= j < zs@.len() ==> zs@[j] == 0i32,
                    decreases extra - zs.len(),
                {
                    zs.push(0);
                }
                proof {
                    assert(zs@ =~= zero_slots(extra as nat));
                }
                self.stack.append(&mut zs);
                self.pc = PC { func, instr: 0 };
            },
            Instr::If(id) => {
                if self.stack.len() == 0 {
                    return Err(VmError::Trap);
                }
                let c = self.stack[self.stack.len() - 1];
                if c != 0 {
                    let _ = self.stack.pop();
                    self.pc.instr = next_instr;
                } else {
                    if !(id < self.module.funcs[self.pc.func].if_infos.len()) {
                        return Err(VmError::Trap);
                    }
                    let info = self.module.funcs[self.pc.func].if_infos[id];
                    if !(info.else_ < usize::MAX) {
                        return Err(VmError::Trap);
                    }
                    let _ = self.stack.pop();
                    self.pc.instr = info.else_ + 1;
                }
            },
            Instr::Else(id) => {
                if !(id < self.module.funcs[self.pc.func].if_infos.len()) {
                    return Err(VmError::Trap);
                }
                let info = self.module.funcs[self.pc.func].if_infos[id];
                if !(info.if_end < usize::MAX) {
                    return Err(VmError::Trap);
                }
                self.pc.instr = info.if_end + 1;
            },
            Instr::IfEnd(_) => {
                self.pc.instr = next_instr;
            },
            Instr::Loop(_) => {
                self.pc.instr = next_instr;
            },
            Instr::LoopThen(id) => {
                if self.stack.len() == 0 {
                    return Err(VmError::Trap);
                }
                let c = self.stack[self.stack.len() - 1];
                if c != 0 {
                    let _ = self.stack.pop();
                    self.pc.instr = next_instr;
                } else {
                    if !(id < self.module.funcs[self.pc.func].loop_infos.len()) {
                        return Err(VmError::Trap);
                    }
                    let info = self.module.funcs[self.pc.func].loop_infos[id];
                    if !(info.loop_end < usize::MAX) {
                        return Err(VmError::Trap);
                    }
                    let _ = self.stack.pop();
                    self.pc.instr = info.loop_end + 1;
                }
            },
            Instr::LoopEnd(id) => {
                if !(id < self.module.funcs[self.pc.func].loop_infos.len()) {
                    return Err(VmError::Trap);
                }
                let info = self.module.funcs[self.pc.func].loop_infos[id];
                self.pc.instr = info.loop_;
            },
            Instr::Return => {
                let ret = match self.stack.pop() {
                    Some(x) => x,
                    None => {
                        return Err(VmError::Trap);
                    },
                };
                self.pc = frame.pc;
                self.stack.truncate(frame.base);
                let _ = self.call_stack.pop();
                self.stack.push(ret);
            },
            Instr::Println => {
                let x = match self.stack.pop() {
                    Some(x) => x,
                    None => {
                        return Err(VmError::Trap);
                    },
                };
                self.builtin.println(x);
                self.stack.push(0);
                self.pc.instr = next_instr;
            },
            Instr::Not => {
                let x = match self.stack.pop() {
                    Some(x) => x,
                    None => {
                        return Err(VmError::Trap);
                    },
                };
                self.stack.push(if x == 0 { 1 } else { 0 });
                self.pc.instr = next_instr;
            },
            Instr::Minus => {
                let x = match self.stack.pop() {
                    Some(x) => x,
                    None => {
                        return Err(VmError::Trap);
                    },
                };
                self.stack.push(0i32.wrapping_sub(x));
                self.pc.instr = next_instr;
            },
            Instr::Drop => {
                if self.stack.len() == 0 {
                    return Err(VmError::Trap);
                }
                let _ = self.stack.pop();
                self.pc.instr = next_instr;
            },
            _ => {
                if self.stack.len() < 2 {
                    return Err(VmError::Trap);
                }
                let y = self.stack[self.stack.len() - 1];
                let x = self.stack[self.stack.len() - 2];
                let r: i32 = match instr {
                    Instr::Add => x.wrapping_add(y),
                    Instr::Sub => x.wrapping_sub(y),
                    Instr::Mul => x.wrapping_mul(y),
                    Instr::Div => {
                        match x.checked_div(y) {
                            Some(r) => r,
                            None => {
                                return Err(VmError::Trap);
                            },
                        }
                    },
                    Instr::Mod => {
                        match x.checked_rem(y) {
                            Some(r) => r,
                            None => {
                                if y == 0 {
                                    return Err(VmError::Trap);
                                } else {
                                    0
                                }
                            },
                        }
                    },
                    Instr::Lt => if x < y { 1 } else { 0 },
                    Instr::Gt => if x > y { 1 } else { 0 },
                    Instr::Le => if x <= y { 1 } else { 0 },
                    Instr::Ge => if x >= y { 1 } else { 0 },
                    Instr::Eq => if x == y { 1 } else { 0 },
                    Instr::Ne => if x != y { 1 } else { 0 },
                    Instr::And => if x != 0 && y != 0 { 1 } else { 0 },
                    Instr::Or => if x != 0 || y != 0 { 1 } else { 0 },
                    _ => 0,
                };
                let _ = self.stack.pop();
                let _ = self.stack.pop();
                proof {
                    assert(self.stack@ =~= old(self).stack@.drop_last().drop_last());
                }
                self.stack.push(r);
                self.pc.instr = next_instr;
            },
        }
        Ok(())
    }

    /// Push the sentinel entry frame, the arguments, and zeroed local slots,
    /// and point the program counter at the entry of `func`.
    pub fn call_prepare(&mut self, func: usize, args: &[i32])
        requires
            func < old(self).module.funcs@.len(),
        ensures
            final(self).module == old(self).module,
            final(self).builtin == old(self).builtin,
            final(self).st() == prepared_state(old(self).st(), old(self).module, func, args@),
    {
        let dummy = self.dummy_func();
        self.call_stack.push(StackFrame { pc: PC { func: dummy, instr: 0 }, base: 0 });
        self.pc = PC { func, instr: 0 };
        let mut i: usize = 0;
        while i < args.len()
            invariant
                i <= args@.len(),
                func < self.module.funcs@.len(),
                self.module == old(self).module,
                self.builtin == old(self).builtin,
                self.pc == (PC { func, instr: 0 }),
                self.call_stack@ == old(self).call_stack@.push(
                    StackFrame {
                        pc: PC { func: old(self).module.funcs@.len() as usize, instr: 0 },
                        base: 0,
                    },
                ),
                self.stack@ == old(self).stack@ + args@.subrange(0, i as int),
            decreases args@.len() - i,
        {
            let v = args[i];
            self.stack.push(v);
            proof {
                assert(self.stack@ =~= old(self).stack@ + args@.subrange(0, i + 1));
            }
            i = i + 1;
        }
        proof {
            assert(args@.subrange(0, args@.len() as int) =~= args@);
        }
        let locals_count = self.module.funcs[func].locals_count;
        let extra: usize = if locals_count > args.len() {
            locals_count - args.len()
        } else {
            0
        };
        let mut zs: Vec<i32> = Vec::new();
        while zs.len() < extra
            invariant
                zs@.len() <= extra,
                forall|j: int| 0 <= j < zs@.len() ==> zs@[j] == 0i32,
            decreases extra - zs.len(),
        {
            zs.push(0);
        }
        proof {
            assert(zs@ =~= zero_slots(extra as nat));
        }
        self.stack.append(&mut zs);
        proof {
            assert(self.st() =~= prepared_state(old(self).st(), old(self).module, func, args@));
        }
    }

    /// Once the program counter has reached the sentinel function index, the
    /// sole stacked value is the program result; until then, `None`.
    pub fn call_result(&mut self) -> (r: Option<i32>)
        ensures
            final(self).module == old(self).module,
            final(self).builtin == old(self).builtin,
            if old(self).pc.func == old(self).module.funcs@.len() && old(self).stack@.len() > 0 {
                &&& r == Some(old(self).stack@.last())
                &&& final(self).st() == (State {
                    pc: old(self).pc,
                    stack: old(self).stack@.drop_last(),
                    frames: old(self).call_stack@,
                })
            } else {
                r == None::<i32> && final(self).st() == old(self).st()
            },
    {
        if self.pc.func == self.dummy_func() {
            match self.stack.pop() {
                Some(v) => Some(v),
                None => None,
            }
        } else {
            None
        }
    }

    /// Run `func` on `args` for at most `fuel` steps.  The result and the
    /// printed trace are exactly those of [`run_vm`] from the prepared
    /// state.
    pub fn call(&mut self, func: usize, args: &[i32], fuel: usize) -> (r: Result<i32, VmError>)
        requires
            func < old(self).module.funcs@.len(),
        ensures
            final(self).module == old(self).module,
            old(self).stack@.len() == 0 && old(self).call_stack@.len() == 0 && r is Ok
                ==> final(self).stack@.len() == 0 && final(self).call_stack@.len() == 0,
            match run_vm(
                old(self).module,
                prepared_state(old(self).st(), old(self).module, func, args@),
                fuel as nat,
            ) {
                RunResult::Done(v, tr) => r == Ok::<i32, VmError>(v) && final(self).builtin.log()
                    == old(self).builtin.log() + tr,
                RunResult::Trap(tr) => r == Err::<i32, VmError>(VmError::Trap) && final(self).builtin.log() == old(self).builtin.log() + tr,
                RunResult::OutOfFuel(tr) => r == Err::<i32, VmError>(VmError::OutOfFuel) && final(self).builtin.log() == old(self).builtin.log() + tr,
            },
    {
        self.call_prepare(func, args);
        let _n_funcs = self.module.funcs.len();
        let ghost m = self.module;
        let ghost s0 = self.st();
        let ghost log0 = self.builtin.log();
        let mut remaining: usize = fuel;
        loop
            invariant
                remaining <= fuel,
                self.module == m,
                m == old(self).module,
                s0 == prepared_state(old(self).st(), old(self).module, func, args@),
                log0 == old(self).builtin.log(),
                m.funcs@.len() <= usize::MAX,
                old(self).stack@.len() == 0 && old(self).call_stack@.len() == 0 ==> frames_ok(
                    m,
                    self.st(),
                ) && self.st().pc.func < m.funcs@.len(),
                log0.len() <= self.builtin.log().len(),
                log0 == self.builtin.log().subrange(0, log0.len() as int),
                run_vm(m, s0, fuel as nat) == prepend_trace(
                    self.builtin.log().subrange(log0.len() as int, self.builtin.log().len() as int),
                    run_vm(m, self.st(), remaining as nat),
                ),
            decreases remaining,
        {
            if remaining == 0 {
                proof {
                    assert(self.builtin.log() =~= log0 + self.builtin.log().subrange(
                        log0.len() as int,
                        self.builtin.log().len() as int,
                    ));
                }
                return Err(VmError::OutOfFuel);
            }
            let ghost pre = self.st();
            let ghost log_pre = self.builtin.log();
            let step_result = self.step();
            proof {
                match step_spec(m, pre) {
                    Some((s2, out)) => {
                        let tr0 = match out {
                            Some(x) => seq![x],
                            None => Seq::<i32>::empty(),
                        };
                        assert(self.builtin.log() =~= log_pre + tr0);
                        assert(log0 =~= self.builtin.log().subrange(0, log0.len() as int));
                        assert(self.builtin.log().subrange(
                            log0.len() as int,
                            self.builtin.log().len() as int,
                        ) =~= log_pre.subrange(log0.len() as int, log_pre.len() as int) + tr0);
                    },
                    None => {},
                }
            }
            match step_result {
                Ok(_) => {},
                Err(_) => {
                    proof {
                        assert(self.builtin.log() =~= log0 + self.builtin.log().subrange(
                            log0.len() as int,
                            self.builtin.log().len() as int,
                        ));
                        assert(prepend_trace(
                            self.builtin.log().subrange(
                                log0.len() as int,
                                self.builtin.log().len() as int,
                            ),
                            RunResult::Trap(Seq::<i32>::empty()),
                        ) == RunResult::Trap(
                            self.builtin.log().subrange(
                                log0.len() as int,
                                self.builtin.log().len() as int,
                            ) + Seq::<i32>::empty(),
                        ));
                        assert(self.builtin.log().subrange(
                            log0.len() as int,
                            self.builtin.log().len() as int,
                        ) + Seq::<i32>::empty() =~= self.builtin.log().subrange(
                            log0.len() as int,
                            self.builtin.log().len() as int,
                        ));
                    }
                    return Err(VmError::Trap);
                },
            }
            proof {
                if self.st().pc.func >= m.funcs@.len() {
                    lemma_step_done_nonempty(
                        m,
                        pre,
                        self.st(),
                        match step_spec(m, pre) {
                            Some((_, out)) => out,
                            None => None,
                        },
                    );
                }
                if old(self).stack@.len() == 0 && old(self).call_stack@.len() == 0 {
                    lemma_step_frames_ok(
                        m,
                        pre,
                        self.st(),
                        match step_spec(m, pre) {
                            Some((_, out)) => out,
                            None => None,
                        },
                    );
                }
            }
            match self.call_result() {
                Some(v) => {
                    proof {
                        assert(self.builtin.log() =~= log0 + self.builtin.log().subrange(
                            log0.len() as int,
                            self.builtin.log().len() as int,
                        ));
                    }
                    return Ok(v);
                },
                None => {},
            }
            remaining = remaining - 1;
            proof {
                let log_now = self.builtin.log();
                let diff_head = log_pre.subrange(log0.len() as int, log_pre.len() as int);
                let diff_new = log_now.subrange(log0.len() as int, log_now.len() as int);
                match step_spec(m, pre) {
                    Some((s2, out)) => {
                        let tr0 = match out {
                            Some(x) => seq![x],
                            None => Seq::<i32>::empty(),
                        };
                        assert(s2 == self.st());
                        assert(s2.pc.func != m.funcs@.len());
                        assert(run_vm(m, pre, (remaining + 1) as nat) == prepend_trace(
                            tr0,
                            run_vm(m, s2, remaining as nat),
                        ));
                        assert(diff_new =~= diff_head + tr0);
                        lemma_prepend_prepend(diff_head, tr0, run_vm(m, s2, remaining as nat));
                    },
                    None => {
                        assert(false);
                    },
                }
            }
        }
    }
}

} // verus!
