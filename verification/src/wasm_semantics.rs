//! The meaning of straight-line WebAssembly code, and the agreement between
//! the two back ends.
//!
//! [`lemma_data_op_backend_agreement`] proves that for every data
//! instruction — every instruction except the control markers, calls,
//! `Println` and `Return` — one interpreter step and the instruction's
//! WebAssembly translation compute the same operand stack and locals, and
//! trap on exactly the same inputs (division by zero and the overflowing
//! division).  This includes the multi-instruction translations: negation
//! as multiplication by -1, and the logical `And`/`Or`, whose operands the
//! emitted code normalises to 0/1 so that any nonzero value counts as
//! true, exactly as the interpreter treats them.  The instruction's value
//! stack is split as the interpreter lays it out: the caller's values,
//! then the frame's locals, then the operands, the latter two being
//! WebAssembly's locals and operand stack.

use vstd::prelude::*;

use crate::interpreter::{step_spec, State, PC};
use crate::ir;
use crate::wasm;
use crate::wasm_generator::{wasm_of_instr, InstrsGenerator};

verus! {

/// One step of straight-line WebAssembly: `None` is a trap.
pub open spec fn wasm_step(i: wasm::Instr, ops: Seq<i32>, locals: Seq<i32>) -> Option<
    (Seq<i32>, Seq<i32>),
> {
    match i {
        wasm::Instr::I32Const(x) => Some((ops.push(x), locals)),
        wasm::Instr::GetLocal(k) => if k < locals.len() {
            Some((ops.push(locals[k as int]), locals))
        } else {
            None
        },
        wasm::Instr::SetLocal(k) => if ops.len() >= 1 && k < locals.len() {
            Some((ops.drop_last(), locals.update(k as int, ops.last())))
        } else {
            None
        },
        wasm::Instr::I32Eqz => if ops.len() >= 1 {
            Some(
                (
                    ops.drop_last().push(
                        if ops.last() == 0 {
                            1
                        } else {
                            0
                        },
                    ),
                    locals,
                ),
            )
        } else {
            None
        },
        wasm::Instr::Drop => if ops.len() >= 1 {
            Some((ops.drop_last(), locals))
        } else {
            None
        },
        wasm::Instr::I32Add | wasm::Instr::I32Sub | wasm::Instr::I32Mul | wasm::Instr::I32DivS
            | wasm::Instr::I32RemS | wasm::Instr::I32LtS | wasm::Instr::I32GtS
            | wasm::Instr::I32LeS | wasm::Instr::I32GeS | wasm::Instr::I32Eq
            | wasm::Instr::I32Ne | wasm::Instr::I32And | wasm::Instr::I32Or => if ops.len()
            >= 2 {
            let y = ops.last();
            let x = ops.drop_last().last();
            match wasm_binop(i, x, y) {
                Some(r) => Some((ops.drop_last().drop_last().push(r), locals)),
                None => None,
            }
        } else {
            None
        },
        _ => None,
    }
}

/// A two-operand WebAssembly arithmetic or comparison result; `None` is a
/// trap.
pub open spec fn wasm_binop(i: wasm::Instr, x: i32, y: i32) -> Option<i32> {
    match i {
        wasm::Instr::I32Add => Some(x.wrapping_add(y)),
        wasm::Instr::I32Sub => Some(x.wrapping_sub(y)),
        wasm::Instr::I32Mul => Some(x.wrapping_mul(y)),
        wasm::Instr::I32DivS => x.checked_div(y),
        wasm::Instr::I32RemS => match x.checked_rem(y) {
            Some(r) => Some(r),
            None => if y == 0 {
                None
            } else {
                Some(0)
            },
        },
        wasm::Instr::I32LtS => Some(if x < y { 1 } else { 0 }),
        wasm::Instr::I32GtS => Some(if x > y { 1 } else { 0 }),
        wasm::Instr::I32LeS => Some(if x <= y { 1 } else { 0 }),
        wasm::Instr::I32GeS => Some(if x >= y { 1 } else { 0 }),
        wasm::Instr::I32Eq => Some(if x == y { 1 } else { 0 }),
        wasm::Instr::I32Ne => Some(if x != y { 1 } else { 0 }),
        wasm::Instr::I32And => Some(x & y),
        wasm::Instr::I32Or => Some(x | y),
        _ => None,
    }
}

/// Run a straight-line instruction sequence to completion.
pub open spec fn wasm_exec(instrs: Seq<wasm::Instr>, ops: Seq<i32>, locals: Seq<i32>) -> Option<
    (Seq<i32>, Seq<i32>),
>
    decreases instrs.len(),
{
    if instrs.len() == 0 {
        Some((ops, locals))
    } else {
        match wasm_step(instrs[0], ops, locals) {
            Some((ops2, locals2)) => wasm_exec(instrs.drop_first(), ops2, locals2),
            None => None,
        }
    }
}

/// How many operands a data instruction consumes; `None` for the control
/// markers, calls, `Println` and `Return`, which are outside this module's
/// straight-line semantics.
pub open spec fn data_op_arity(i: ir::Instr) -> Option<nat> {
    match i {
        ir::Instr::IntConst(_) => Some(0),
        ir::Instr::VarRef(_) => Some(0),
        ir::Instr::Assign(_) => Some(1),
        ir::Instr::Not => Some(1),
        ir::Instr::Minus => Some(1),
        ir::Instr::Drop => Some(1),
        ir::Instr::Add | ir::Instr::Sub | ir::Instr::Mul | ir::Instr::Div | ir::Instr::Mod
            | ir::Instr::Lt | ir::Instr::Gt | ir::Instr::Le | ir::Instr::Ge | ir::Instr::Eq
            | ir::Instr::Ne | ir::Instr::And | ir::Instr::Or => Some(2),
        _ => None,
    }
}

/// Multiplication by one, zero and minus one under wrapping semantics:
/// the identities the negation and logical translations rest on.
pub proof fn lemma_wrapping_mul_units(x: i32)
    ensures
        x.wrapping_mul(1i32) == x,
        x.wrapping_mul(0i32) == 0i32,
        x.wrapping_mul(-1i32) == (0i32).wrapping_sub(x),
{
    assert(x as int * 1 == x as int) by (nonlinear_arith);
    assert(x as int * 0 == 0) by (nonlinear_arith);
    assert(x as int * (-1) == 0 - x as int) by (nonlinear_arith);
    if x >= 0 {
        assert((x as int) % 0x1_0000_0000 == x as int);
        if x > 0 {
            assert((0 - x as int) % 0x1_0000_0000 == 0x1_0000_0000 - x as int);
        }
    } else {
        assert((x as int) % 0x1_0000_0000 == x as int + 0x1_0000_0000);
        assert((0 - x as int) % 0x1_0000_0000 == 0 - x as int);
    }
}

/// Backend agreement on data instructions.
///
/// Let the machine sit on a data instruction of its current function, with
/// its value stack laid out as `below + locals + ops`: the caller's values
/// up to the frame base, then this frame's `locals_count` slots, then at
/// least as many operands as the instruction consumes, every slot the
/// instruction touches being a real local.  Then one interpreter step and
/// the WebAssembly translation of that instruction agree exactly: both
/// trap, or both succeed with the same operands and locals (and the same
/// stack layout), the interpreter printing nothing and moving to the next
/// instruction.
#[verifier::rlimit(100)]
#[verifier::spinoff_prover]
pub proof fn lemma_data_op_backend_agreement(
    g: InstrsGenerator,
    m: ir::Module,
    s: State,
    below: Seq<i32>,
    locals: Seq<i32>,
    ops: Seq<i32>,
)
    requires
        s.pc.func < m.funcs@.len(),
        s.frames.len() > 0,
        s.pc.instr < m.funcs@[s.pc.func as int].instrs@.len(),
        data_op_arity(m.funcs@[s.pc.func as int].instrs@[s.pc.instr as int]) matches Some(a)
            && ops.len() >= a,
        match m.funcs@[s.pc.func as int].instrs@[s.pc.instr as int] {
            ir::Instr::VarRef(k) => k < locals.len() && k <= u32::MAX,
            ir::Instr::Assign(k) => k < locals.len() && k <= u32::MAX,
            _ => true,
        },
        s.stack == below + locals + ops,
        s.frames.last().base == below.len(),
    ensures
        ({
            let instr = m.funcs@[s.pc.func as int].instrs@[s.pc.instr as int];
            match step_spec(m, s) {
                Some((s2, out)) => {
                    &&& out is None
                    &&& s2.pc == (PC { func: s.pc.func, instr: (s.pc.instr + 1) as usize })
                    &&& s2.frames == s.frames
                    &&& exists|ops2: Seq<i32>, locals2: Seq<i32>|
                        s2.stack == below + locals2 + ops2 && #[trigger] wasm_exec(
                            wasm_of_instr(g, instr),
                            ops,
                            locals,
                        ) == Some::<(Seq<i32>, Seq<i32>)>((ops2, locals2))
                },
                None => wasm_exec(wasm_of_instr(g, instr), ops, locals) == None::<
                    (Seq<i32>, Seq<i32>),
                >,
            }
        }),
{
    let instr = m.funcs@[s.pc.func as int].instrs@[s.pc.instr as int];
    let n = s.stack.len();
    assert(n == below.len() + locals.len() + ops.len());
    let code = wasm_of_instr(g, instr);
    match instr {
        ir::Instr::IntConst(x) => {
            let ops2 = ops.push(x);
            assert(s.stack.push(x) =~= below + locals + ops2);
            assert(code =~= seq![wasm::Instr::I32Const(x)]);
            assert(code.drop_first() =~= Seq::<wasm::Instr>::empty());
            assert(code[0] == wasm::Instr::I32Const(x));
            assert(wasm_step(code[0], ops, locals) == Some::<(Seq<i32>, Seq<i32>)>(
                (ops2, locals),
            ));
            assert(wasm_exec(code.drop_first(), ops2, locals) == Some::<(Seq<i32>, Seq<i32>)>(
                (ops2, locals),
            ));
            assert(wasm_exec(code, ops, locals) == Some::<(Seq<i32>, Seq<i32>)>((ops2, locals)));
        },
        ir::Instr::VarRef(k) => {
            assert(s.stack[below.len() + k] == locals[k as int]);
            let ops2 = ops.push(locals[k as int]);
            assert(s.stack.push(locals[k as int]) =~= below + locals + ops2);
            assert(code =~= seq![wasm::Instr::GetLocal(k as u32)]);
            assert(code.drop_first() =~= Seq::<wasm::Instr>::empty());
            assert(code[0] == wasm::Instr::GetLocal(k as u32));
            assert(k as u32 as int == k as int);
            assert(wasm_step(code[0], ops, locals) == Some::<(Seq<i32>, Seq<i32>)>(
                (ops2, locals),
            ));
            assert(wasm_exec(code.drop_first(), ops2, locals) == Some::<(Seq<i32>, Seq<i32>)>(
                (ops2, locals),
            ));
            assert(wasm_exec(code, ops, locals) == Some::<(Seq<i32>, Seq<i32>)>((ops2, locals)));
        },
        ir::Instr::Assign(k) => {
            let x = s.stack.last();
            assert(x == ops.last());
            let locals2 = locals.update(k as int, x);
            let ops2 = ops.drop_last();
            assert(below.len() + k < n - 1);
            assert(s.stack.drop_last().update(below.len() + k, x) =~= below + locals2 + ops2);
            assert(code =~= seq![wasm::Instr::SetLocal(k as u32)]);
            assert(code.drop_first() =~= Seq::<wasm::Instr>::empty());
            assert(k as u32 as int == k as int);
            assert(wasm_step(code[0], ops, locals) == Some::<(Seq<i32>, Seq<i32>)>(
                (ops2, locals2),
            ));
            assert(wasm_exec(code.drop_first(), ops2, locals2) == Some::<(Seq<i32>, Seq<i32>)>(
                (ops2, locals2),
            ));
            assert(wasm_exec(code, ops, locals) == Some::<(Seq<i32>, Seq<i32>)>((ops2, locals2)));
        },
        ir::Instr::Not => {
            let x = s.stack.last();
            assert(x == ops.last());
            let r: i32 = if x == 0 {
                1
            } else {
                0
            };
            let ops2 = ops.drop_last().push(r);
            assert(s.stack.drop_last() =~= below + locals + ops.drop_last());
            assert(s.stack.drop_last().push(r) =~= below + locals + ops2);
            assert(code =~= seq![wasm::Instr::I32Eqz]);
            assert(code.drop_first() =~= Seq::<wasm::Instr>::empty());
            assert(code[0] == wasm::Instr::I32Eqz);
            assert(wasm_step(code[0], ops, locals) == Some::<(Seq<i32>, Seq<i32>)>(
                (ops2, locals),
            ));
            assert(wasm_exec(code.drop_first(), ops2, locals) == Some::<(Seq<i32>, Seq<i32>)>(
                (ops2, locals),
            ));
            assert(wasm_exec(code, ops, locals) == Some::<(Seq<i32>, Seq<i32>)>((ops2, locals)));
        },
        ir::Instr::Drop => {
            let ops2 = ops.drop_last();
            assert(s.stack.drop_last() =~= below + locals + ops2);
            assert(code =~= seq![wasm::Instr::Drop]);
            assert(code.drop_first() =~= Seq::<wasm::Instr>::empty());
            assert(code[0] == wasm::Instr::Drop);
            assert(wasm_step(code[0], ops, locals) == Some::<(Seq<i32>, Seq<i32>)>(
                (ops2, locals),
            ));
            assert(wasm_exec(code.drop_first(), ops2, locals) == Some::<(Seq<i32>, Seq<i32>)>(
                (ops2, locals),
            ));
            assert(wasm_exec(code, ops, locals) == Some::<(Seq<i32>, Seq<i32>)>((ops2, locals)));
        },
        ir::Instr::Minus => {
            let x = s.stack.last();
            assert(x == ops.last());
            let r = 0i32.wrapping_sub(x);
            let o1 = ops.push(-1i32);
            let ops2 = ops.drop_last().push(r);
            lemma_wrapping_mul_units(x);
            assert(code =~= seq![wasm::Instr::I32Const(-1i32), wasm::Instr::I32Mul]);
            let c1 = code.drop_first();
            assert(c1 =~= seq![wasm::Instr::I32Mul]);
            assert(c1.drop_first() =~= Seq::<wasm::Instr>::empty());
            assert(wasm_step(code[0], ops, locals) == Some::<(Seq<i32>, Seq<i32>)>((o1, locals)));
            assert(o1.last() == -1i32);
            assert(o1.drop_last() =~= ops);
            assert(o1.drop_last().drop_last().push(x.wrapping_mul(-1i32)) =~= ops2);
            assert(wasm_step(c1[0], o1, locals) == Some::<(Seq<i32>, Seq<i32>)>((ops2, locals)));
            assert(wasm_exec(c1.drop_first(), ops2, locals) == Some::<(Seq<i32>, Seq<i32>)>(
                (ops2, locals),
            ));
            assert(wasm_exec(c1, o1, locals) == Some::<(Seq<i32>, Seq<i32>)>((ops2, locals)));
            assert(wasm_exec(code, ops, locals) == Some::<(Seq<i32>, Seq<i32>)>((ops2, locals)));
            assert(s.stack.drop_last().push(r) =~= below + locals + ops2);
        },
        ir::Instr::And => {
            let y = s.stack.last();
            let x = s.stack[n - 2];
            assert(y == ops.last());
            assert(x == ops.drop_last().last());
            let r: i32 = if x != 0 && y != 0 {
                1
            } else {
                0
            };
            let e1: i32 = if y == 0 {
                1
            } else {
                0
            };
            let yp: i32 = if y != 0 {
                1
            } else {
                0
            };
            let m: i32 = x.wrapping_mul(yp);
            lemma_wrapping_mul_units(x);
            assert(m == if y != 0 { x } else { 0i32 });
            let o1 = ops.drop_last().push(e1);
            let o2 = ops.drop_last().push(yp);
            let o3 = ops.drop_last().drop_last().push(m);
            let o4 = o3.drop_last().push(
                if m == 0 {
                    1i32
                } else {
                    0i32
                },
            );
            let ops2 = ops.drop_last().drop_last().push(r);
            assert(code =~= seq![
                wasm::Instr::I32Eqz,
                wasm::Instr::I32Eqz,
                wasm::Instr::I32Mul,
                wasm::Instr::I32Eqz,
                wasm::Instr::I32Eqz,
            ]);
            let c1 = code.drop_first();
            let c2 = c1.drop_first();
            let c3 = c2.drop_first();
            let c4 = c3.drop_first();
            assert(c1 =~= seq![
                wasm::Instr::I32Eqz,
                wasm::Instr::I32Mul,
                wasm::Instr::I32Eqz,
                wasm::Instr::I32Eqz,
            ]);
            assert(c2 =~= seq![wasm::Instr::I32Mul, wasm::Instr::I32Eqz, wasm::Instr::I32Eqz]);
            assert(c3 =~= seq![wasm::Instr::I32Eqz, wasm::Instr::I32Eqz]);
            assert(c4 =~= seq![wasm::Instr::I32Eqz]);
            assert(c4.drop_first() =~= Seq::<wasm::Instr>::empty());
            assert(wasm_step(code[0], ops, locals) == Some::<(Seq<i32>, Seq<i32>)>((o1, locals)));
            assert(o1.last() == e1);
            assert(o1.drop_last() =~= ops.drop_last());
            assert(o1.drop_last().push(yp) =~= o2);
            assert(wasm_step(c1[0], o1, locals) == Some::<(Seq<i32>, Seq<i32>)>((o2, locals)));
            assert(o2.last() == yp);
            assert(o2.drop_last() =~= ops.drop_last());
            assert(o2.drop_last().last() == x);
            assert(o2.drop_last().drop_last().push(m) =~= o3);
            assert(wasm_step(c2[0], o2, locals) == Some::<(Seq<i32>, Seq<i32>)>((o3, locals)));
            assert(o3.last() == m);
            assert(wasm_step(c3[0], o3, locals) == Some::<(Seq<i32>, Seq<i32>)>((o4, locals)));
            assert(o4.last() == (if m == 0 { 1i32 } else { 0i32 }));
            assert(o4.drop_last() =~= o3.drop_last());
            assert(o4.drop_last().push(r) =~= ops2) by {
                assert(m != 0 <==> x != 0 && y != 0);
                assert(o3.drop_last() =~= ops.drop_last().drop_last());
            }
            assert(wasm_step(c4[0], o4, locals) == Some::<(Seq<i32>, Seq<i32>)>((ops2, locals)));
            assert(wasm_exec(c4.drop_first(), ops2, locals) == Some::<(Seq<i32>, Seq<i32>)>(
                (ops2, locals),
            ));
            assert(wasm_exec(c4, o4, locals) == Some::<(Seq<i32>, Seq<i32>)>((ops2, locals)));
            assert(wasm_exec(c3, o3, locals) == Some::<(Seq<i32>, Seq<i32>)>((ops2, locals)));
            assert(wasm_exec(c2, o2, locals) == Some::<(Seq<i32>, Seq<i32>)>((ops2, locals)));
            assert(wasm_exec(c1, o1, locals) == Some::<(Seq<i32>, Seq<i32>)>((ops2, locals)));
            assert(wasm_exec(code, ops, locals) == Some::<(Seq<i32>, Seq<i32>)>((ops2, locals)));
            assert(s.stack.drop_last().drop_last() =~= below + locals
                + ops.drop_last().drop_last());
            assert(s.stack.drop_last().drop_last().push(r) =~= below + locals + ops2);
        },
        ir::Instr::Or => {
            let y = s.stack.last();
            let x = s.stack[n - 2];
            assert(y == ops.last());
            assert(x == ops.drop_last().last());
            let r: i32 = if x != 0 || y != 0 {
                1
            } else {
                0
            };
            let b: i32 = x | y;
            assert(((x | y) == 0) == (x == 0 && y == 0)) by (bit_vector);
            let o1 = ops.drop_last().drop_last().push(b);
            let o2 = o1.drop_last().push(
                if b == 0 {
                    1i32
                } else {
                    0i32
                },
            );
            let ops2 = ops.drop_last().drop_last().push(r);
            assert(code =~= seq![wasm::Instr::I32Or, wasm::Instr::I32Eqz, wasm::Instr::I32Eqz]);
            let c1 = code.drop_first();
            let c2 = c1.drop_first();
            assert(c1 =~= seq![wasm::Instr::I32Eqz, wasm::Instr::I32Eqz]);
            assert(c2 =~= seq![wasm::Instr::I32Eqz]);
            assert(c2.drop_first() =~= Seq::<wasm::Instr>::empty());
            assert(wasm_step(code[0], ops, locals) == Some::<(Seq<i32>, Seq<i32>)>((o1, locals)));
            assert(o1.last() == b);
            assert(wasm_step(c1[0], o1, locals) == Some::<(Seq<i32>, Seq<i32>)>((o2, locals)));
            assert(o2.last() == (if b == 0 { 1i32 } else { 0i32 }));
            assert(o2.drop_last() =~= o1.drop_last());
            assert(o2.drop_last().push(r) =~= ops2) by {
                assert(o1.drop_last() =~= ops.drop_last().drop_last());
            }
            assert(wasm_step(c2[0], o2, locals) == Some::<(Seq<i32>, Seq<i32>)>((ops2, locals)));
            assert(wasm_exec(c2.drop_first(), ops2, locals) == Some::<(Seq<i32>, Seq<i32>)>(
                (ops2, locals),
            ));
            assert(wasm_exec(c2, o2, locals) == Some::<(Seq<i32>, Seq<i32>)>((ops2, locals)));
            assert(wasm_exec(c1, o1, locals) == Some::<(Seq<i32>, Seq<i32>)>((ops2, locals)));
            assert(wasm_exec(code, ops, locals) == Some::<(Seq<i32>, Seq<i32>)>((ops2, locals)));
            assert(s.stack.drop_last().drop_last() =~= below + locals
                + ops.drop_last().drop_last());
            assert(s.stack.drop_last().drop_last().push(r) =~= below + locals + ops2);
        },
        _ => {
            // the two-operand arithmetic and comparison instructions
            let y = s.stack.last();
            let x = s.stack[n - 2];
            assert(y == ops.last());
            assert(x == ops.drop_last().last());
            let w = code[0];
            assert(code.drop_first() =~= Seq::<wasm::Instr>::empty());
            assert(crate::interpreter::eval_binop(instr, x, y) == wasm_binop(w, x, y));
            match crate::interpreter::eval_binop(instr, x, y) {
                Some(r) => {
                    let ops2 = ops.drop_last().drop_last().push(r);
                    assert(s.stack.drop_last().drop_last() =~= below + locals
                        + ops.drop_last().drop_last());
                    assert(s.stack.drop_last().drop_last().push(r) =~= below + locals + ops2);
                    assert(wasm_step(w, ops, locals) == Some::<(Seq<i32>, Seq<i32>)>(
                        (ops2, locals),
                    ));
                    assert(wasm_exec(code.drop_first(), ops2, locals) == Some::<
                        (Seq<i32>, Seq<i32>),
                    >((ops2, locals)));
                    assert(wasm_exec(code, ops, locals) == Some::<(Seq<i32>, Seq<i32>)>(
                        (ops2, locals),
                    ));
                },
                None => {
                    assert(wasm_step(w, ops, locals) == None::<(Seq<i32>, Seq<i32>)>);
                    assert(wasm_exec(code, ops, locals) == None::<(Seq<i32>, Seq<i32>)>);
                },
            }
        },
    }
}

} // verus!
