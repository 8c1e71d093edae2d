//! Lowering from the abstract syntax tree to the intermediate
//! representation.
//!
//! Each function body is flattened into a linear instruction list with net
//! value-stack effect +1 ([`gen_expr`]'s contract states this through
//! [`crate::ir::seq_delta`]), identifiers are resolved to flat slot indices,
//! and the positions of the control marker triples are recorded in the side
//! tables as they are emitted, so a lowered function always satisfies
//! [`crate::ir::func_wf`].

use vstd::prelude::*;

use crate::ast;
use crate::ir::{
    func_wf, if_complete, instr_refs_ok, lemma_if_complete_mono, lemma_loop_complete_mono,
    lemma_seq_delta_push, instr_delta, loop_complete, seq_delta, controls_at_recorded_positions, IfInfo, Instr,
    LoopInfo,
};

verus! {

use vstd::pervasive::VecAdditionalExecFns;

broadcast use vstd::std_specs::vec::group_vec_axioms, vstd::seq::group_seq_axioms;

/// Why lowering rejected a program.
#[derive(Debug, Clone, Copy, PartialEq, Eq, Structural)]
pub enum GenError {
    /// Two functions share a name, or a function is named like the builtin.
    DuplicateFuncName,
    /// An expression mentions a variable or function that is not in scope.
    UnresolvedName,
    /// A `var` binding would exceed the machine's slot index range.
    TooManyLocals,
}

/// The builtin functions a call can resolve to.
#[derive(Debug, Clone, Copy, PartialEq, Eq, Structural)]
pub enum BuiltinFunc {
    Println,
}

/// What a function name denotes: a user function (by index) or a builtin.
#[derive(Debug, Clone, Copy, PartialEq, Eq, Structural)]
pub enum FuncRef {
    UserDefined { idx: usize },
    Builtin { kind: BuiltinFunc },
}

/// The names a sequence of locals bindings defines.
pub open spec fn locals_names(locals: Seq<(String, usize)>) -> Set<Seq<char>> {
    Set::new(|n: Seq<char>| exists|i: int| 0 <= i < locals.len() && (#[trigger] locals[i]).0@ == n)
}

/// The names a sequence of argument declarations defines.
pub open spec fn names_of(args: Seq<String>) -> Set<Seq<char>> {
    Set::new(|n: Seq<char>| exists|i: int| 0 <= i < args.len() && (#[trigger] args[i])@ == n)
}

/// The names a function symbol table defines.
pub open spec fn ref_names(refs: Seq<(String, FuncRef)>) -> Set<Seq<char>> {
    Set::new(|n: Seq<char>| exists|i: int| 0 <= i < refs.len() && (#[trigger] refs[i]).0@ == n)
}

/// The function names callable inside a module: the builtin plus every
/// user-defined function.
pub open spec fn module_fnames(m: ast::Module) -> Set<Seq<char>> {
    Set::new(
        |n: Seq<char>|
            n == "println"@ || exists|i: int|
                0 <= i < m.funcs@.len() && (#[trigger] m.funcs@[i]).name@ == n,
    )
}

/// Two functions of the module share a name, or a function shadows the
/// builtin `println`.
pub open spec fn has_duplicate(m: ast::Module) -> bool {
    ||| exists|i: int, j: int|
        0 <= i < j < m.funcs@.len() && (#[trigger] m.funcs@[i]).name@ == (
        #[trigger] m.funcs@[j]).name@
    ||| exists|i: int| 0 <= i < m.funcs@.len() && (#[trigger] m.funcs@[i]).name@ == "println"@
}

/// Every variable and function an expression mentions is in scope: `env`
/// holds the variable names, `fenv` the callable names.  A `var` binding
/// extends `env` for its body only.
pub open spec fn resolves(e: ast::Expr, env: Set<Seq<char>>, fenv: Set<Seq<char>>) -> bool
    decreases e,
{
    match e {
        ast::Expr::IntLiteral(_) => true,
        ast::Expr::Ident(n) => env.contains(n@),
        ast::Expr::BinaryOp(l, _, r) => resolves(*l, env, fenv) && resolves(*r, env, fenv),
        ast::Expr::PrefixOp(_, a) => resolves(*a, env, fenv),
        ast::Expr::Assign(n, rhs) => env.contains(n@) && resolves(*rhs, env, fenv),
        ast::Expr::Call(f, args) => fenv.contains(f@) && resolves_upto(
            args@,
            args@.len() as int,
            env,
            fenv,
        ),
        ast::Expr::While(c, b) => resolves(*c, env, fenv) && resolves(*b, env, fenv),
        ast::Expr::If(c, t, e2) => resolves(*c, env, fenv) && resolves(*t, env, fenv) && resolves(
            *e2,
            env,
            fenv,
        ),
        ast::Expr::Block(es) => resolves_upto(es@, es@.len() as int, env, fenv),
        ast::Expr::Var(n, init, body) => resolves(*init, env, fenv) && resolves(
            *body,
            env.insert(n@),
            fenv,
        ),
    }
}

/// The first `n` expressions of `es` all resolve.
pub open spec fn resolves_upto(
    es: Seq<ast::Expr>,
    n: int,
    env: Set<Seq<char>>,
    fenv: Set<Seq<char>>,
) -> bool
    decreases es, n,
{
    n <= 0 || (resolves_upto(es, n - 1, env, fenv) && (0 <= n - 1 < es.len() ==> resolves(
        es[n - 1],
        env,
        fenv,
    )))
}

/// The number of `var` bindings an expression contains: exactly how many
/// slots lowering it allocates.
pub open spec fn var_count(e: ast::Expr) -> nat
    decreases e,
{
    match e {
        ast::Expr::IntLiteral(_) => 0,
        ast::Expr::Ident(_) => 0,
        ast::Expr::BinaryOp(l, _, r) => var_count(*l) + var_count(*r),
        ast::Expr::PrefixOp(_, a) => var_count(*a),
        ast::Expr::Assign(_, rhs) => var_count(*rhs),
        ast::Expr::Call(_, args) => var_count_upto(args@, args@.len() as int),
        ast::Expr::While(c, b) => var_count(*c) + var_count(*b),
        ast::Expr::If(c, t, e2) => var_count(*c) + var_count(*t) + var_count(*e2),
        ast::Expr::Block(es) => var_count_upto(es@, es@.len() as int),
        ast::Expr::Var(_, init, body) => 1 + var_count(*init) + var_count(*body),
    }
}

/// The `var` bindings of the first `n` expressions of `es`.
pub open spec fn var_count_upto(es: Seq<ast::Expr>, n: int) -> nat
    decreases es, n,
{
    if n <= 0 {
        0
    } else {
        var_count_upto(es, n - 1) + if n - 1 < es.len() {
            var_count(es[n - 1])
        } else {
            0
        }
    }
}

/// Every call of the builtin `println` passes exactly one argument.  The
/// lowerer does not reject other arities (they surface at runtime, like a
/// user-function arity mismatch), but only under this condition does every
/// lowered expression have net stack effect +1: `Println` always pops one
/// value, whatever the call pushed.
pub open spec fn println_calls_unary(e: ast::Expr) -> bool
    decreases e,
{
    match e {
        ast::Expr::IntLiteral(_) => true,
        ast::Expr::Ident(_) => true,
        ast::Expr::BinaryOp(l, _, r) => println_calls_unary(*l) && println_calls_unary(*r),
        ast::Expr::PrefixOp(_, a) => println_calls_unary(*a),
        ast::Expr::Assign(_, rhs) => println_calls_unary(*rhs),
        ast::Expr::Call(f, args) => (f@ == "println"@ ==> args@.len() == 1)
            && println_calls_unary_upto(args@, args@.len() as int),
        ast::Expr::While(c, b) => println_calls_unary(*c) && println_calls_unary(*b),
        ast::Expr::If(c, t, e2) => println_calls_unary(*c) && println_calls_unary(*t)
            && println_calls_unary(*e2),
        ast::Expr::Block(es) => println_calls_unary_upto(es@, es@.len() as int),
        ast::Expr::Var(_, init, body) => println_calls_unary(*init) && println_calls_unary(*body),
    }
}

/// [`println_calls_unary`] over the first `n` expressions of `es`.
pub open spec fn println_calls_unary_upto(es: Seq<ast::Expr>, n: int) -> bool
    decreases es, n,
{
    n <= 0 || (println_calls_unary_upto(es, n - 1) && (0 <= n - 1 < es.len()
        ==> println_calls_unary(es[n - 1])))
}

/// An element of a resolving prefix resolves.
pub proof fn lemma_resolves_upto_element(
    es: Seq<ast::Expr>,
    k: int,
    n: int,
    env: Set<Seq<char>>,
    fenv: Set<Seq<char>>,
)
    requires
        resolves_upto(es, n, env, fenv),
        0 <= k < n,
        k < es.len(),
    ensures
        resolves(es[k], env, fenv),
    decreases n,
{
    if k < n - 1 {
        lemma_resolves_upto_element(es, k, n - 1, env, fenv);
    }
}

/// An element of a prefix with unary `println` calls has unary calls.
pub proof fn lemma_println_unary_upto_element(es: Seq<ast::Expr>, k: int, n: int)
    requires
        println_calls_unary_upto(es, n),
        0 <= k < n,
        k < es.len(),
    ensures
        println_calls_unary(es[k]),
    decreases n,
{
    if k < n - 1 {
        lemma_println_unary_upto_element(es, k, n - 1);
    }
}

/// The `var` count of a prefix is monotone in its length.
pub proof fn lemma_var_count_upto_le(es: Seq<ast::Expr>, i: int, n: int)
    requires
        0 <= i <= n,
    ensures
        var_count_upto(es, i) <= var_count_upto(es, n),
    decreases n,
{
    if i < n {
        lemma_var_count_upto_le(es, i, n - 1);
    }
}

/// Pushing a binding adds exactly its name to the scope.
pub proof fn lemma_locals_names_push(l: Seq<(String, usize)>, p: (String, usize))
    ensures
        locals_names(l.push(p)) == locals_names(l).insert(p.0@),
{
    assert forall|x: Seq<char>| locals_names(l.push(p)).contains(x) implies locals_names(
        l,
    ).insert(p.0@).contains(x) by {
        let i = choose|i: int| 0 <= i < l.push(p).len() && (#[trigger] l.push(p)[i]).0@ == x;
        if i < l.len() {
            assert(l[i].0@ == x);
        }
    }
    assert forall|x: Seq<char>| locals_names(l).insert(p.0@).contains(x) implies locals_names(
        l.push(p),
    ).contains(x) by {
        if x == p.0@ {
            assert(l.push(p)[l.len() as int].0@ == x);
        } else {
            let i = choose|i: int| 0 <= i < l.len() && (#[trigger] l[i]).0@ == x;
            assert(l.push(p)[i].0@ == x);
        }
    }
    assert(locals_names(l.push(p)) =~= locals_names(l).insert(p.0@));
}

/// The innermost binding of `n` in the scope: the last entry wins, so a
/// `var` shadowing an argument or an outer binding resolves to the newer
/// slot.
pub open spec fn lookup_slot(locals: Seq<(String, usize)>, n: Seq<char>) -> Option<usize>
    decreases locals.len(),
{
    if locals.len() == 0 {
        None
    } else if locals.last().0@ == n {
        Some(locals.last().1)
    } else {
        lookup_slot(locals.drop_last(), n)
    }
}

/// The first table entry for a callable name.
pub open spec fn lookup_ref_name(refs: Seq<(String, FuncRef)>, n: Seq<char>) -> Option<FuncRef>
    decreases refs.len(),
{
    if refs.len() == 0 {
        None
    } else if refs[0].0@ == n {
        Some(refs[0].1)
    } else {
        lookup_ref_name(refs.drop_first(), n)
    }
}

/// The IR instruction of a binary operator.
pub open spec fn binop_instr(op: ast::BinaryOp) -> Instr {
    match op {
        ast::BinaryOp::Add => Instr::Add,
        ast::BinaryOp::Sub => Instr::Sub,
        ast::BinaryOp::Mul => Instr::Mul,
        ast::BinaryOp::Div => Instr::Div,
        ast::BinaryOp::Mod => Instr::Mod,
        ast::BinaryOp::Lt => Instr::Lt,
        ast::BinaryOp::Gt => Instr::Gt,
        ast::BinaryOp::Le => Instr::Le,
        ast::BinaryOp::Ge => Instr::Ge,
        ast::BinaryOp::Eq => Instr::Eq,
        ast::BinaryOp::Ne => Instr::Ne,
        ast::BinaryOp::And => Instr::And,
        ast::BinaryOp::Or => Instr::Or,
    }
}

/// The IR instruction of a prefix operator.
pub open spec fn prefix_instr(op: ast::PrefixOp) -> Instr {
    match op {
        ast::PrefixOp::Not => Instr::Not,
        ast::PrefixOp::Minus => Instr::Minus,
    }
}

/// The scope-relevant part of the lowering state: the bindings in force,
/// the slot counter, and the two side-table counters.  The emitted
/// instructions are a function of exactly these, so [`lower_expr`] can give
/// the lowering's meaning without carrying the instruction list itself.
pub struct LowerState {
    pub locals: Seq<(String, usize)>,
    pub locals_count: int,
    pub n_if: int,
    pub n_loop: int,
}

/// The scope-relevant view of a lowering state.
pub open spec fn lstate(s: GenFuncState) -> LowerState {
    LowerState {
        locals: s.locals@,
        locals_count: s.locals_count as int,
        n_if: s.if_infos@.len() as int,
        n_loop: s.loop_infos@.len() as int,
    }
}

/// The exact instruction sequence lowering one expression emits, with the
/// scope state it leaves behind — the lowering rules form by form: a
/// literal is its constant; a name reads its innermost slot; a binary form
/// lowers its left operand, then its right, then its operator; an
/// assignment lowers its value, writes the slot and leaves the sentinel 0;
/// a call lowers its arguments left to right and calls the resolved index
/// (or the `Println` builtin); a loop brackets its condition and dropped
/// body between fresh `Loop`/`LoopThen`/`LoopEnd` markers and leaves 0; a
/// conditional brackets its arms between fresh `If`/`Else`/`IfEnd`
/// markers; a block drops every value but its last; a binding lowers its
/// initialiser, writes a fresh slot, lowers its body under the new name
/// and restores the scope.  Failures are the first unresolved name or slot
/// overflow, in emission order.
pub open spec fn lower_expr(
    refs: Seq<(String, FuncRef)>,
    st: LowerState,
    e: ast::Expr,
) -> Result<(Seq<Instr>, LowerState), GenError>
    decreases e, 0int,
{
    match e {
        ast::Expr::IntLiteral(x) => Ok((seq![Instr::IntConst(x)], st)),
        ast::Expr::Ident(n) => match lookup_slot(st.locals, n@) {
            Some(sl) => Ok((seq![Instr::VarRef(sl)], st)),
            None => Err(GenError::UnresolvedName),
        },
        ast::Expr::BinaryOp(l, op, r) => match lower_expr(refs, st, *l) {
            Err(er) => Err(er),
            Ok((d1, st1)) => match lower_expr(refs, st1, *r) {
                Err(er) => Err(er),
                Ok((d2, st2)) => Ok((d1 + d2 + seq![binop_instr(op)], st2)),
            },
        },
        ast::Expr::PrefixOp(op, a) => match lower_expr(refs, st, *a) {
            Err(er) => Err(er),
            Ok((d1, st1)) => Ok((d1.push(prefix_instr(op)), st1)),
        },
        ast::Expr::Assign(n, rhs) => match lower_expr(refs, st, *rhs) {
            Err(er) => Err(er),
            Ok((d1, st1)) => match lookup_slot(st1.locals, n@) {
                Some(sl) => Ok((d1 + seq![Instr::Assign(sl), Instr::IntConst(0)], st1)),
                None => Err(GenError::UnresolvedName),
            },
        },
        ast::Expr::Call(f, args) => match lower_args(refs, st, args@, args@.len() as int) {
            Err(er) => Err(er),
            Ok((d1, st1)) => match lookup_ref_name(refs, f@) {
                Some(FuncRef::UserDefined { idx }) => Ok(
                    (
                        d1.push(Instr::Call { func: idx, args_count: args@.len() as usize }),
                        st1,
                    ),
                ),
                Some(FuncRef::Builtin { .. }) => Ok((d1.push(Instr::Println), st1)),
                None => Err(GenError::UnresolvedName),
            },
        },
        ast::Expr::While(c, b) => {
            let id = st.n_loop as usize;
            let sta = LowerState {
                locals: st.locals,
                locals_count: st.locals_count,
                n_if: st.n_if,
                n_loop: st.n_loop + 1,
            };
            match lower_expr(refs, sta, *c) {
                Err(er) => Err(er),
                Ok((dc, st1)) => match lower_expr(refs, st1, *b) {
                    Err(er) => Err(er),
                    Ok((db, st2)) => Ok(
                        (
                            seq![Instr::Loop(id)] + dc + seq![Instr::LoopThen(id)] + db + seq![
                                Instr::Drop,
                                Instr::LoopEnd(id),
                                Instr::IntConst(0),
                            ],
                            st2,
                        ),
                    ),
                },
            }
        },
        ast::Expr::If(c, t, el) => {
            let id = st.n_if as usize;
            let sta = LowerState {
                locals: st.locals,
                locals_count: st.locals_count,
                n_if: st.n_if + 1,
                n_loop: st.n_loop,
            };
            match lower_expr(refs, sta, *c) {
                Err(er) => Err(er),
                Ok((dc, st1)) => match lower_expr(refs, st1, *t) {
                    Err(er) => Err(er),
                    Ok((dt, st2)) => match lower_expr(refs, st2, *el) {
                        Err(er) => Err(er),
                        Ok((de, st3)) => Ok(
                            (
                                dc + seq![Instr::If(id)] + dt + seq![Instr::Else(id)] + de + seq![
                                    Instr::IfEnd(id),
                                ],
                                st3,
                            ),
                        ),
                    },
                },
            }
        },
        ast::Expr::Block(es) => if es@.len() == 0 {
            Ok((seq![Instr::IntConst(0)], st))
        } else {
            match lower_dropped(refs, st, es@, es@.len() as int - 1) {
                Err(er) => Err(er),
                Ok((d1, st1)) => match lower_expr(refs, st1, es@[es@.len() - 1]) {
                    Err(er) => Err(er),
                    Ok((d2, st2)) => Ok((d1 + d2, st2)),
                },
            }
        },
        ast::Expr::Var(n, init, body) => match lower_expr(refs, st, *init) {
            Err(er) => Err(er),
            Ok((d1, st1)) => if st1.locals_count == usize::MAX {
                Err(GenError::TooManyLocals)
            } else {
                let slot = st1.locals_count as usize;
                let st2 = LowerState {
                    locals: st1.locals.push((n, slot)),
                    locals_count: st1.locals_count + 1,
                    n_if: st1.n_if,
                    n_loop: st1.n_loop,
                };
                match lower_expr(refs, st2, *body) {
                    Err(er) => Err(er),
                    Ok((d2, st3)) => Ok(
                        (
                            d1 + seq![Instr::Assign(slot)] + d2,
                            LowerState {
                                locals: st1.locals,
                                locals_count: st3.locals_count,
                                n_if: st3.n_if,
                                n_loop: st3.n_loop,
                            },
                        ),
                    ),
                }
            },
        },
    }
}

/// The lowering of the first `n` call arguments, left to right.
pub open spec fn lower_args(
    refs: Seq<(String, FuncRef)>,
    st: LowerState,
    es: Seq<ast::Expr>,
    n: int,
) -> Result<(Seq<Instr>, LowerState), GenError>
    decreases es, n,
{
    if n <= 0 {
        Ok((Seq::empty(), st))
    } else if n - 1 < es.len() {
        match lower_args(refs, st, es, n - 1) {
            Err(er) => Err(er),
            Ok((d1, st1)) => match lower_expr(refs, st1, es[n - 1]) {
                Err(er) => Err(er),
                Ok((d2, st2)) => Ok((d1 + d2, st2)),
            },
        }
    } else {
        lower_args(refs, st, es, n - 1)
    }
}

/// The lowering of the first `n` block elements, each followed by `Drop`.
pub open spec fn lower_dropped(
    refs: Seq<(String, FuncRef)>,
    st: LowerState,
    es: Seq<ast::Expr>,
    n: int,
) -> Result<(Seq<Instr>, LowerState), GenError>
    decreases es, n,
{
    if n <= 0 {
        Ok((Seq::empty(), st))
    } else if n - 1 < es.len() {
        match lower_dropped(refs, st, es, n - 1) {
            Err(er) => Err(er),
            Ok((d1, st1)) => match lower_expr(refs, st1, es[n - 1]) {
                Err(er) => Err(er),
                Ok((d2, st2)) => Ok((d1 + d2.push(Instr::Drop), st2)),
            },
        }
    } else {
        lower_dropped(refs, st, es, n - 1)
    }
}

/// The lowering contract of one expression: on success, exactly the
/// instructions [`lower_expr`] prescribes were appended and the scope state
/// is the one it computes; on failure, exactly its error.
pub open spec fn lowering_of(
    refs: Seq<(String, FuncRef)>,
    s1: GenFuncState,
    s2: GenFuncState,
    e: ast::Expr,
    r: Result<(), GenError>,
) -> bool {
    match r {
        Ok(_) => lower_expr(refs, lstate(s1), e) == Ok::<(Seq<Instr>, LowerState), GenError>(
            (s2.instrs@.skip(s1.instrs@.len() as int), lstate(s2)),
        ),
        Err(er) => lower_expr(refs, lstate(s1), e) == Err::<(Seq<Instr>, LowerState), GenError>(er),
    }
}

/// The working state while one function body is lowered.
pub struct GenFuncState {
    /// The scope: later entries shadow earlier ones of the same name.
    pub locals: Vec<(String, usize)>,
    pub locals_count: usize,
    pub instrs: Vec<Instr>,
    pub if_infos: Vec<IfInfo>,
    pub loop_infos: Vec<LoopInfo>,
}

/// The invariant the lowering state keeps at every expression boundary:
/// scope entries point at allocated slots, instructions reference only
/// allocated slots and known functions, and every control marker sits at
/// the position its table entry records.
pub open spec fn st_inv(s: GenFuncState, n_funcs: int) -> bool {
    &&& forall|i: int| 0 <= i < s.locals@.len() ==> (#[trigger] s.locals@[i]).1 < s.locals_count
    &&& forall|k: int|
        0 <= k < s.instrs@.len() ==> instr_refs_ok(
            #[trigger] s.instrs@[k],
            s.locals_count as int,
            n_funcs,
        )
    &&& controls_at_recorded_positions(s.instrs@, s.if_infos@, s.loop_infos@)
}

/// Lowering only appends: the instruction list and both side tables grow,
/// their existing entries unchanged, every new control marker uses a new
/// id, and the slot counter never decreases.
pub open spec fn st_extends(s2: GenFuncState, s1: GenFuncState) -> bool {
    &&& s1.instrs@.len() <= s2.instrs@.len()
    &&& s2.instrs@.subrange(0, s1.instrs@.len() as int) == s1.instrs@
    &&& s1.if_infos@.len() <= s2.if_infos@.len()
    &&& s2.if_infos@.subrange(0, s1.if_infos@.len() as int) == s1.if_infos@
    &&& s1.loop_infos@.len() <= s2.loop_infos@.len()
    &&& s2.loop_infos@.subrange(0, s1.loop_infos@.len() as int) == s1.loop_infos@
    &&& s1.locals_count <= s2.locals_count
    &&& forall|k: int|
        s1.instrs@.len() <= k < s2.instrs@.len() ==> match #[trigger] s2.instrs@[k] {
            Instr::If(id) => id >= s1.if_infos@.len(),
            Instr::Else(id) => id >= s1.if_infos@.len(),
            Instr::IfEnd(id) => id >= s1.if_infos@.len(),
            Instr::Loop(id) => id >= s1.loop_infos@.len(),
            Instr::LoopThen(id) => id >= s1.loop_infos@.len(),
            Instr::LoopEnd(id) => id >= s1.loop_infos@.len(),
            _ => true,
        }
}

/// Every side-table entry allocated after `s1` is fully recorded in `s2`.
pub open spec fn new_ids_complete(s2: GenFuncState, s1: GenFuncState) -> bool {
    &&& forall|id: int|
        s1.if_infos@.len() <= id < s2.if_infos@.len() ==> if_complete(
            s2.instrs@,
            #[trigger] s2.if_infos@[id],
            id,
        )
    &&& forall|id: int|
        s1.loop_infos@.len() <= id < s2.loop_infos@.len() ==> loop_complete(
            s2.instrs@,
            #[trigger] s2.loop_infos@[id],
            id,
        )
}

/// What successful lowering of one expression guarantees on top of
/// [`st_extends`]: at least one instruction was emitted, every newly
/// allocated control triple is fully recorded, and the scope is restored.
pub open spec fn gen_ok(s2: GenFuncState, s1: GenFuncState) -> bool {
    &&& s2.instrs@.len() > s1.instrs@.len()
    &&& new_ids_complete(s2, s1)
    &&& s2.locals@ == s1.locals@
}

/// `st_extends` composes.
pub proof fn lemma_extends_trans(s3: GenFuncState, s2: GenFuncState, s1: GenFuncState)
    requires
        st_extends(s2, s1),
        st_extends(s3, s2),
    ensures
        st_extends(s3, s1),
{
    assert forall|k: int| 0 <= k < s1.instrs@.len() implies s3.instrs@[k] == s1.instrs@[k] by {
        assert(s2.instrs@[k] == s2.instrs@.subrange(0, s1.instrs@.len() as int)[k]);
        assert(s3.instrs@[k] == s3.instrs@.subrange(0, s2.instrs@.len() as int)[k]);
    }
    assert(s3.instrs@.subrange(0, s1.instrs@.len() as int) =~= s1.instrs@);
    assert forall|k: int| 0 <= k < s1.if_infos@.len() implies s3.if_infos@[k] == s1.if_infos@[k] by {
        assert(s2.if_infos@[k] == s2.if_infos@.subrange(0, s1.if_infos@.len() as int)[k]);
        assert(s3.if_infos@[k] == s3.if_infos@.subrange(0, s2.if_infos@.len() as int)[k]);
    }
    assert(s3.if_infos@.subrange(0, s1.if_infos@.len() as int) =~= s1.if_infos@);
    assert forall|k: int|
        0 <= k < s1.loop_infos@.len() implies s3.loop_infos@[k] == s1.loop_infos@[k] by {
        assert(s2.loop_infos@[k] == s2.loop_infos@.subrange(0, s1.loop_infos@.len() as int)[k]);
        assert(s3.loop_infos@[k] == s3.loop_infos@.subrange(0, s2.loop_infos@.len() as int)[k]);
    }
    assert(s3.loop_infos@.subrange(0, s1.loop_infos@.len() as int) =~= s1.loop_infos@);
    assert forall|k: int|
        s1.instrs@.len() <= k < s3.instrs@.len() implies match #[trigger] s3.instrs@[k] {
        Instr::If(id) => id >= s1.if_infos@.len(),
        Instr::Else(id) => id >= s1.if_infos@.len(),
        Instr::IfEnd(id) => id >= s1.if_infos@.len(),
        Instr::Loop(id) => id >= s1.loop_infos@.len(),
        Instr::LoopThen(id) => id >= s1.loop_infos@.len(),
        Instr::LoopEnd(id) => id >= s1.loop_infos@.len(),
        _ => true,
    } by {
        if k < s2.instrs@.len() {
            assert(s3.instrs@[k] == s3.instrs@.subrange(0, s2.instrs@.len() as int)[k]);
            assert(s3.instrs@[k] == s2.instrs@[k]);
        }
    }
}

/// `st_extends` is reflexive.
pub proof fn lemma_extends_refl(s: GenFuncState)
    ensures
        st_extends(s, s),
{
    assert(s.instrs@.subrange(0, s.instrs@.len() as int) =~= s.instrs@);
    assert(s.if_infos@.subrange(0, s.if_infos@.len() as int) =~= s.if_infos@);
    assert(s.loop_infos@.subrange(0, s.loop_infos@.len() as int) =~= s.loop_infos@);
}

/// Whether an instruction is one of the six control markers.
pub open spec fn is_marker(i: Instr) -> bool {
    match i {
        Instr::If(_) | Instr::Else(_) | Instr::IfEnd(_) | Instr::Loop(_) | Instr::LoopThen(_)
            | Instr::LoopEnd(_) => true,
        _ => false,
    }
}

/// Concatenating successively appended suffixes: with `a` a prefix of `b`
/// and `b` a prefix of `c`, what `c` appends over `a` is what `b` appended
/// followed by what `c` appended.
pub proof fn lemma_skip_compose(a: Seq<Instr>, b: Seq<Instr>, c: Seq<Instr>)
    requires
        a.len() <= b.len() <= c.len(),
        b.subrange(0, a.len() as int) == a,
        c.subrange(0, b.len() as int) == b,
    ensures
        c.skip(a.len() as int) == b.skip(a.len() as int) + c.skip(b.len() as int),
{
    assert forall|i: int|
        0 <= i < c.len() - a.len() implies c.skip(a.len() as int)[i] == (b.skip(a.len() as int)
        + c.skip(b.len() as int))[i] by {
        if i < b.len() - a.len() {
            assert(c[a.len() + i] == c.subrange(0, b.len() as int)[a.len() + i]);
        }
    }
    assert(c.skip(a.len() as int) =~= b.skip(a.len() as int) + c.skip(b.len() as int));
}

/// A failed argument lowering stays failed as the prefix grows.
pub proof fn lemma_lower_args_err(
    refs: Seq<(String, FuncRef)>,
    st: LowerState,
    es: Seq<ast::Expr>,
    n: int,
    m: int,
)
    requires
        n <= m,
        lower_args(refs, st, es, n) is Err,
    ensures
        lower_args(refs, st, es, m) == lower_args(refs, st, es, n),
    decreases m,
{
    if m > n {
        lemma_lower_args_err(refs, st, es, n, m - 1);
    }
}

/// A failed block-element lowering stays failed as the prefix grows.
pub proof fn lemma_lower_dropped_err(
    refs: Seq<(String, FuncRef)>,
    st: LowerState,
    es: Seq<ast::Expr>,
    n: int,
    m: int,
)
    requires
        n <= m,
        lower_dropped(refs, st, es, n) is Err,
    ensures
        lower_dropped(refs, st, es, m) == lower_dropped(refs, st, es, n),
    decreases m,
{
    if m > n {
        lemma_lower_dropped_err(refs, st, es, n, m - 1);
    }
}

/// Appending one non-marker instruction preserves the lowering invariant
/// and the bookkeeping of [`st_extends`].
pub proof fn lemma_push_plain(s2: GenFuncState, s1: GenFuncState, i: Instr, n_funcs: int)
    requires
        st_inv(s1, n_funcs),
        instr_refs_ok(i, s1.locals_count as int, n_funcs),
        !is_marker(i),
        s2.instrs@ == s1.instrs@.push(i),
        s2.if_infos@ == s1.if_infos@,
        s2.loop_infos@ == s1.loop_infos@,
        s2.locals@ == s1.locals@,
        s2.locals_count == s1.locals_count,
    ensures
        st_inv(s2, n_funcs),
        st_extends(s2, s1),
        new_ids_complete(s2, s1),
        seq_delta(s2.instrs@) == seq_delta(s1.instrs@) + instr_delta(i),
{
    lemma_seq_delta_push(s1.instrs@, i);
    assert(s2.instrs@.subrange(0, s1.instrs@.len() as int) =~= s1.instrs@);
    assert(s2.if_infos@.subrange(0, s1.if_infos@.len() as int) =~= s1.if_infos@);
    assert(s2.loop_infos@.subrange(0, s1.loop_infos@.len() as int) =~= s1.loop_infos@);
}

/// New side-table entries recorded across two successive lowering stages
/// are all recorded at the end of the second.
pub proof fn lemma_ok_compose(s3: GenFuncState, s2: GenFuncState, s1: GenFuncState)
    requires
        st_extends(s2, s1),
        st_extends(s3, s2),
        new_ids_complete(s2, s1),
        new_ids_complete(s3, s2),
    ensures
        new_ids_complete(s3, s1),
{
    assert forall|id: int|
        s1.if_infos@.len() <= id < s3.if_infos@.len() implies if_complete(
        s3.instrs@,
        #[trigger] s3.if_infos@[id],
        id,
    ) by {
        if id < s2.if_infos@.len() {
            assert(s3.if_infos@[id] == s3.if_infos@.subrange(0, s2.if_infos@.len() as int)[id]);
            lemma_if_complete_mono(s2.instrs@, s3.instrs@, s2.if_infos@[id], id);
        }
    }
    assert forall|id: int|
        s1.loop_infos@.len() <= id < s3.loop_infos@.len() implies loop_complete(
        s3.instrs@,
        #[trigger] s3.loop_infos@[id],
        id,
    ) by {
        if id < s2.loop_infos@.len() {
            assert(s3.loop_infos@[id] == s3.loop_infos@.subrange(
                0,
                s2.loop_infos@.len() as int,
            )[id]);
            lemma_loop_complete_mono(s2.instrs@, s3.instrs@, s2.loop_infos@[id], id);
        }
    }
}

/// Recording one control marker: push the marker, and update its table
/// entry so that the just-pushed position is recorded while every position
/// of a marker already in the list is kept.  `s0` is the state at which the
/// entry `id` was allocated, so `st_extends` over it survives the update.
pub proof fn lemma_loop_marker_step(
    s2: GenFuncState,
    s1: GenFuncState,
    s0: GenFuncState,
    id: int,
    info: LoopInfo,
    marker: Instr,
    n_funcs: int,
)
    requires
        st_inv(s1, n_funcs),
        st_extends(s1, s0),
        s0.loop_infos@.len() <= id < s1.loop_infos@.len(),
        s2.instrs@ == s1.instrs@.push(marker),
        s2.loop_infos@ == s1.loop_infos@.update(id, info),
        s2.if_infos@ == s1.if_infos@,
        s2.locals@ == s1.locals@,
        s2.locals_count == s1.locals_count,
        forall|k: int|
            0 <= k < s1.instrs@.len() ==> match #[trigger] s1.instrs@[k] {
                Instr::Loop(id2) => id2 == id ==> info.loop_ == s1.loop_infos@[id as int].loop_,
                Instr::LoopThen(id2) => id2 == id ==> info.loop_then == s1.loop_infos@[
                    id as int].loop_then,
                Instr::LoopEnd(id2) => id2 == id ==> info.loop_end == s1.loop_infos@[
                    id as int].loop_end,
                _ => true,
            },
        match marker {
            Instr::Loop(id2) => id2 == id && info.loop_ == s1.instrs@.len(),
            Instr::LoopThen(id2) => id2 == id && info.loop_then == s1.instrs@.len(),
            Instr::LoopEnd(id2) => id2 == id && info.loop_end == s1.instrs@.len(),
            _ => false,
        },
    ensures
        st_inv(s2, n_funcs),
        st_extends(s2, s0),
        seq_delta(s2.instrs@) == seq_delta(s1.instrs@) + instr_delta(marker),
{
    lemma_seq_delta_push(s1.instrs@, marker);
    assert(s2.instrs@.subrange(0, s0.instrs@.len() as int) =~= s1.instrs@.subrange(
        0,
        s0.instrs@.len() as int,
    ));
    assert(s2.loop_infos@.subrange(0, s0.loop_infos@.len() as int) =~= s1.loop_infos@.subrange(
        0,
        s0.loop_infos@.len() as int,
    ));
    assert(s2.if_infos@.subrange(0, s0.if_infos@.len() as int) =~= s1.if_infos@.subrange(
        0,
        s0.if_infos@.len() as int,
    ));
}

/// The `If` counterpart of [`lemma_loop_marker_step`].
pub proof fn lemma_if_marker_step(
    s2: GenFuncState,
    s1: GenFuncState,
    s0: GenFuncState,
    id: int,
    info: IfInfo,
    marker: Instr,
    n_funcs: int,
)
    requires
        st_inv(s1, n_funcs),
        st_extends(s1, s0),
        s0.if_infos@.len() <= id < s1.if_infos@.len(),
        s2.instrs@ == s1.instrs@.push(marker),
        s2.if_infos@ == s1.if_infos@.update(id, info),
        s2.loop_infos@ == s1.loop_infos@,
        s2.locals@ == s1.locals@,
        s2.locals_count == s1.locals_count,
        forall|k: int|
            0 <= k < s1.instrs@.len() ==> match #[trigger] s1.instrs@[k] {
                Instr::If(id2) => id2 == id ==> info.if_ == s1.if_infos@[id as int].if_,
                Instr::Else(id2) => id2 == id ==> info.else_ == s1.if_infos@[id as int].else_,
                Instr::IfEnd(id2) => id2 == id ==> info.if_end == s1.if_infos@[id as int].if_end,
                _ => true,
            },
        match marker {
            Instr::If(id2) => id2 == id && info.if_ == s1.instrs@.len(),
            Instr::Else(id2) => id2 == id && info.else_ == s1.instrs@.len(),
            Instr::IfEnd(id2) => id2 == id && info.if_end == s1.instrs@.len(),
            _ => false,
        },
    ensures
        st_inv(s2, n_funcs),
        st_extends(s2, s0),
        seq_delta(s2.instrs@) == seq_delta(s1.instrs@) + instr_delta(marker),
{
    lemma_seq_delta_push(s1.instrs@, marker);
    assert(s2.instrs@.subrange(0, s0.instrs@.len() as int) =~= s1.instrs@.subrange(
        0,
        s0.instrs@.len() as int,
    ));
    assert(s2.loop_infos@.subrange(0, s0.loop_infos@.len() as int) =~= s1.loop_infos@.subrange(
        0,
        s0.loop_infos@.len() as int,
    ));
    assert(s2.if_infos@.subrange(0, s0.if_infos@.len() as int) =~= s1.if_infos@.subrange(
        0,
        s0.if_infos@.len() as int,
    ));
}

/// Instruction-list prefixes compose.
pub proof fn lemma_instr_prefix_trans(i3: Seq<Instr>, i2: Seq<Instr>, i1: Seq<Instr>)
    requires
        i2.len() <= i3.len(),
        i3.subrange(0, i2.len() as int) == i2,
        i1.len() <= i2.len(),
        i2.subrange(0, i1.len() as int) == i1,
    ensures
        i3.subrange(0, i1.len() as int) == i1,
{
    assert forall|k: int| 0 <= k < i1.len() implies i3[k] == i1[k] by {
        assert(i2[k] == i2.subrange(0, i1.len() as int)[k]);
        assert(i3[k] == i3.subrange(0, i2.len() as int)[k]);
    }
    assert(i3.subrange(0, i1.len() as int) =~= i1);
}

/// Copy the scope so it can be restored after a `var` body.
fn clone_locals(locals: &Vec<(String, usize)>) -> (r: Vec<(String, usize)>)
    ensures
        r@ == locals@,
{
    let mut r: Vec<(String, usize)> = Vec::new();
    let mut i: usize = 0;
    while i < locals.len()
        invariant
            i <= locals@.len(),
            r@ == locals@.subrange(0, i as int),
        decreases locals@.len() - i,
    {
        let name = locals[i].0.clone();
        let idx = locals[i].1;
        r.push((name, idx));
        proof {
            assert(r@ =~= locals@.subrange(0, i + 1));
        }
        i = i + 1;
    }
    proof {
        assert(locals@.subrange(0, locals@.len() as int) =~= locals@);
    }
    r
}

/// Find the innermost binding of `name`: the scope is searched from its
/// most recent entry so that shadowing bindings win.
fn lookup_local(locals: &Vec<(String, usize)>, name: &String) -> (r: Option<usize>)
    ensures
        r is Some <==> locals_names(locals@).contains(name@),
        r matches Some(idx) ==> exists|i: int|
            0 <= i < locals@.len() && (#[trigger] locals@[i]).0@ == name@ && locals@[i].1 == idx,
        r == lookup_slot(locals@, name@),
{
    let mut j: usize = locals.len();
    proof {
        assert(locals@.take(locals@.len() as int) =~= locals@);
    }
    while j > 0
        invariant
            j <= locals@.len(),
            forall|i: int| j <= i < locals@.len() ==> (#[trigger] locals@[i]).0@ != name@,
            lookup_slot(locals@, name@) == lookup_slot(locals@.take(j as int), name@),
        decreases j,
    {
        j = j - 1;
        proof {
            assert(locals@.take(j as int + 1).last() == locals@[j as int]);
            assert(locals@.take(j as int + 1).drop_last() =~= locals@.take(j as int));
        }
        if locals[j].0 == *name {
            return Some(locals[j].1);
        }
    }
    None
}

impl GenFuncState {
    pub fn new() -> (r: Self)
        ensures
            r.locals@ == Seq::<(String, usize)>::empty(),
            r.locals_count == 0,
            r.instrs@ == Seq::<Instr>::empty(),
            r.if_infos@ == Seq::<IfInfo>::empty(),
            r.loop_infos@ == Seq::<LoopInfo>::empty(),
    {
        GenFuncState {
            locals: Vec::new(),
            locals_count: 0,
            instrs: Vec::new(),
            if_infos: Vec::new(),
            loop_infos: Vec::new(),
        }
    }

    /// Allocate the next slot and bind `name` to it.
    pub fn add_local(&mut self, name: String) -> (idx: usize)
        requires
            old(self).locals_count < usize::MAX,
        ensures
            idx == old(self).locals_count,
            final(self).locals@ == old(self).locals@.push((name, idx)),
            final(self).locals_count == old(self).locals_count + 1,
            final(self).instrs == old(self).instrs,
            final(self).if_infos == old(self).if_infos,
            final(self).loop_infos == old(self).loop_infos,
    {
        let idx = self.locals_count;
        self.locals_count = self.locals_count + 1;
        self.locals.push((name, idx));
        idx
    }
}

/// The symbol table for lowering: each function name of the module mapped
/// to its index, plus the builtin `println`.
pub struct IrGenerator {
    pub func_refs: Vec<(String, FuncRef)>,
}

impl IrGenerator {
    /// One past the largest user-function index the table may mention.
    pub open spec fn funcs_bound(&self) -> int {
        self.func_refs@.len() - 1
    }

    /// Every user-function reference stays under the bound.
    pub open spec fn wf(&self) -> bool {
        forall|i: int|
            0 <= i < self.func_refs@.len() ==> match (#[trigger] self.func_refs@[i]).1 {
                FuncRef::UserDefined { idx } => idx < self.funcs_bound(),
                FuncRef::Builtin { .. } => true,
            }
    }

    /// The exact table `new` builds for `m`: the builtin first, then every
    /// function of the module in order.
    pub open spec fn wf_for(&self, m: ast::Module) -> bool {
        &&& self.func_refs@.len() == m.funcs@.len() + 1
        &&& self.func_refs@[0].0@ == "println"@
        &&& self.func_refs@[0].1 == (FuncRef::Builtin { kind: BuiltinFunc::Println })
        &&& forall|j: int|
            1 <= j < self.func_refs@.len() ==> (#[trigger] self.func_refs@[j]).0
                == m.funcs@[j - 1].name && self.func_refs@[j].1 == (FuncRef::UserDefined {
                idx: (j - 1) as usize,
            })
    }

    /// Build the symbol table; `None` exactly when two functions share a
    /// name or one is named `println`.
    pub fn new(module: &ast::Module) -> (r: Option<IrGenerator>)
        ensures
            r is Some <==> !has_duplicate(*module),
            r matches Some(g) ==> g.wf_for(*module) && g.wf(),
    {
        let mut func_refs: Vec<(String, FuncRef)> = Vec::new();
        let builtin_name: String = "println".to_owned();
        func_refs.push((builtin_name, FuncRef::Builtin { kind: BuiltinFunc::Println }));

        let mut i: usize = 0;
        while i < module.funcs.len()
            invariant
                i <= module.funcs@.len(),
                func_refs@.len() == i + 1,
                func_refs@[0].0@ == "println"@,
                func_refs@[0].1 == (FuncRef::Builtin { kind: BuiltinFunc::Println }),
                forall|j: int|
                    1 <= j < func_refs@.len() ==> (#[trigger] func_refs@[j]).0 == module.funcs@[j
                        - 1].name && func_refs@[j].1 == (FuncRef::UserDefined {
                        idx: (j - 1) as usize,
                    }),
                forall|a: int, b: int|
                    0 <= a < b < i ==> (#[trigger] module.funcs@[a]).name@ != (
                    #[trigger] module.funcs@[b]).name@,
                forall|a: int| 0 <= a < i ==> (#[trigger] module.funcs@[a]).name@ != "println"@,
            decreases module.funcs@.len() - i,
        {
            let name = &module.funcs[i].name;
            let mut j: usize = 0;
            while j < func_refs.len()
                invariant
                    j <= func_refs@.len(),
                    i < module.funcs@.len(),
                    func_refs@.len() == i + 1,
                    func_refs@[0].0@ == "println"@,
                    forall|a: int|
                        1 <= a < func_refs@.len() ==> (#[trigger] func_refs@[a]).0
                            == module.funcs@[a - 1].name,
                    name == module.funcs@[i as int].name,
                    forall|a: int|
                        0 <= a < j ==> (#[trigger] func_refs@[a]).0@ != module.funcs@[
                        i as int].name@,
                decreases func_refs@.len() - j,
            {
                if func_refs[j].0 == *name {
                    proof {
                        if j == 0 {
                            assert(module.funcs@[i as int].name@ == "println"@);
                        } else {
                            assert(module.funcs@[j - 1].name@ == module.funcs@[i as int].name@);
                        }
                        assert(has_duplicate(*module));
                    }
                    return None;
                }
                j = j + 1;
            }
            proof {
                assert forall|a: int|
                    0 <= a < i implies (#[trigger] module.funcs@[a]).name@ != module.funcs@[
                    i as int].name@ by {
                    assert(func_refs@[a + 1].0 == module.funcs@[a].name);
                    assert(func_refs@[a + 1].0@ != module.funcs@[i as int].name@);
                }
                assert(func_refs@[0].0@ != module.funcs@[i as int].name@);
            }
            func_refs.push((name.clone(), FuncRef::UserDefined { idx: i }));
            i = i + 1;
        }
        let g = IrGenerator { func_refs };
        proof {
            assert(!has_duplicate(*module));
            assert forall|a: int|
                0 <= a < g.func_refs@.len() implies match (#[trigger] g.func_refs@[a]).1 {
                FuncRef::UserDefined { idx } => idx < g.funcs_bound(),
                FuncRef::Builtin { .. } => true,
            } by {
                if a >= 1 {
                    assert(g.func_refs@[a].1 == (FuncRef::UserDefined { idx: (a - 1) as usize }));
                }
            }
        }
        return Some(g);
    }

    /// Every builtin entry of the table is named `println`.
    pub open spec fn builtins_named(&self) -> bool {
        forall|i: int|
            0 <= i < self.func_refs@.len() ==> match (#[trigger] self.func_refs@[i]).1 {
                FuncRef::Builtin { .. } => self.func_refs@[i].0@ == "println"@,
                FuncRef::UserDefined { .. } => true,
            }
    }

    /// Resolve a callable name in the symbol table.
    fn lookup_ref(&self, name: &String) -> (r: Option<FuncRef>)
        ensures
            r is Some <==> ref_names(self.func_refs@).contains(name@),
            r matches Some(fr) ==> exists|i: int|
                0 <= i < self.func_refs@.len() && (#[trigger] self.func_refs@[i]).1 == fr
                    && self.func_refs@[i].0@ == name@,
            r == lookup_ref_name(self.func_refs@, name@),
    {
        let mut j: usize = 0;
        proof {
            assert(self.func_refs@.skip(0) =~= self.func_refs@);
        }
        while j < self.func_refs.len()
            invariant
                j <= self.func_refs@.len(),
                forall|i: int| 0 <= i < j ==> (#[trigger] self.func_refs@[i]).0@ != name@,
                lookup_ref_name(self.func_refs@, name@) == lookup_ref_name(
                    self.func_refs@.skip(j as int),
                    name@,
                ),
            decreases self.func_refs@.len() - j,
        {
            proof {
                assert(self.func_refs@.skip(j as int)[0] == self.func_refs@[j as int]);
                assert(self.func_refs@.skip(j as int).drop_first() =~= self.func_refs@.skip(
                    j as int + 1,
                ));
            }
            if self.func_refs[j].0 == *name {
                return Some(self.func_refs[j].1);
            }
            j = j + 1;
        }
        None
    }

    /// Lower one expression onto the end of `state`, leaving the scope as it
    /// was.  On success exactly the instructions [`lower_expr`] prescribes
    /// were appended; their net stack effect is +1 whenever every `println`
    /// call is unary.  Lowering succeeds if and only if every name resolves
    /// and the slot counter does not overflow the machine's index range.
    /// On failure the state is left for its caller to discard: `st_extends`
    /// still pins everything below the entry point, but a side-table entry
    /// allocated by the failed lowering may stay unfinalised — `gen_func`
    /// and `generate` return no module on failure, so an unfinalised entry
    /// is never published.
    #[verifier::rlimit(100)]
    #[verifier::spinoff_prover]
    pub fn gen_expr(&self, state: &mut GenFuncState, expr: &ast::Expr) -> (r: Result<
        (),
        GenError,
    >)
        requires
            self.wf(),
            self.builtins_named(),
            st_inv(*old(state), self.funcs_bound()),
        ensures
            st_inv(*final(state), self.funcs_bound()),
            st_extends(*final(state), *old(state)),
            r is Ok ==> gen_ok(*final(state), *old(state)),
            r is Ok ==> final(state).locals_count == old(state).locals_count + var_count(*expr),
            lowering_of(self.func_refs@, *old(state), *final(state), *expr, r),
            r is Ok && println_calls_unary(*expr) ==> seq_delta(final(state).instrs@) == seq_delta(
                old(state).instrs@,
            ) + 1,
            r is Ok ==> resolves(
                *expr,
                locals_names(old(state).locals@),
                ref_names(self.func_refs@),
            ) && old(state).locals_count + var_count(*expr) <= usize::MAX,
            resolves(*expr, locals_names(old(state).locals@), ref_names(self.func_refs@)) && old(
                state,
            ).locals_count + var_count(*expr) <= usize::MAX ==> r is Ok,
            r matches Err(GenError::UnresolvedName) ==> !resolves(
                *expr,
                locals_names(old(state).locals@),
                ref_names(self.func_refs@),
            ),
            r matches Err(GenError::TooManyLocals) ==> old(state).locals_count + var_count(*expr)
                > usize::MAX,
            !(r matches Err(GenError::DuplicateFuncName)),
        decreases *expr, 1int,
    {
        let ghost st0 = *state;
        let ghost env = locals_names(st0.locals@);
        let ghost fenv = ref_names(self.func_refs@);
        match expr {
            ast::Expr::IntLiteral(x) => {
                state.instrs.push(Instr::IntConst(*x));
                proof {
                    lemma_push_plain(*state, st0, Instr::IntConst(*x), self.funcs_bound());
                    assert(state.instrs@.skip(st0.instrs@.len() as int) =~= seq![
                        Instr::IntConst(*x),
                    ]);
                }
                Ok(())
            },
            ast::Expr::Ident(name) => {
                match lookup_local(&state.locals, name) {
                    Some(idx) => {
                        proof {
                            let i = choose|i: int|
                                0 <= i < st0.locals@.len() && (#[trigger] st0.locals@[i]).0@
                                    == name@ && st0.locals@[i].1 == idx;
                            assert(idx < st0.locals_count);
                        }
                        state.instrs.push(Instr::VarRef(idx));
                        proof {
                            lemma_push_plain(*state, st0, Instr::VarRef(idx), self.funcs_bound());
                            assert(state.instrs@.skip(st0.instrs@.len() as int) =~= seq![
                                Instr::VarRef(idx),
                            ]);
                        }
                        Ok(())
                    },
                    None => {
                        proof {
                            lemma_extends_refl(st0);
                        }
                        Err(GenError::UnresolvedName)
                    },
                }
            },
            ast::Expr::BinaryOp(lhs, op, rhs) => {
                match self.gen_expr(state, lhs) {
                    Ok(_) => {},
                    Err(e) => {
                        return Err(e);
                    },
                }
                let ghost st1 = *state;
                match self.gen_expr(state, rhs) {
                    Ok(_) => {},
                    Err(e) => {
                        proof {
                            lemma_extends_trans(*state, st1, st0);
                        }
                        return Err(e);
                    },
                }
                let ghost st2 = *state;
                let op_instr = match op {
                    ast::BinaryOp::Add => Instr::Add,
                    ast::BinaryOp::Sub => Instr::Sub,
                    ast::BinaryOp::Mul => Instr::Mul,
                    ast::BinaryOp::Div => Instr::Div,
                    ast::BinaryOp::Mod => Instr::Mod,
                    ast::BinaryOp::Lt => Instr::Lt,
                    ast::BinaryOp::Gt => Instr::Gt,
                    ast::BinaryOp::Le => Instr::Le,
                    ast::BinaryOp::Ge => Instr::Ge,
                    ast::BinaryOp::Eq => Instr::Eq,
                    ast::BinaryOp::Ne => Instr::Ne,
                    ast::BinaryOp::And => Instr::And,
                    ast::BinaryOp::Or => Instr::Or,
                };
                state.instrs.push(op_instr);
                proof {
                    lemma_push_plain(*state, st2, op_instr, self.funcs_bound());
                    lemma_extends_trans(st2, st1, st0);
                    lemma_extends_trans(*state, st2, st0);
                    lemma_ok_compose(st2, st1, st0);
                    lemma_ok_compose(*state, st2, st0);
                    assert(op_instr == binop_instr(*op));
                    lemma_skip_compose(st0.instrs@, st1.instrs@, st2.instrs@);
                    assert(state.instrs@.skip(st0.instrs@.len() as int)
                        =~= st1.instrs@.skip(st0.instrs@.len() as int) + st2.instrs@.skip(
                        st1.instrs@.len() as int,
                    ) + seq![op_instr]);
                }
                Ok(())
            },
            ast::Expr::PrefixOp(op, arg) => {
                match self.gen_expr(state, arg) {
                    Ok(_) => {},
                    Err(e) => {
                        return Err(e);
                    },
                }
                let ghost st1 = *state;
                let op_instr = match op {
                    ast::PrefixOp::Not => Instr::Not,
                    ast::PrefixOp::Minus => Instr::Minus,
                };
                state.instrs.push(op_instr);
                proof {
                    lemma_push_plain(*state, st1, op_instr, self.funcs_bound());
                    lemma_extends_trans(*state, st1, st0);
                    lemma_ok_compose(*state, st1, st0);
                    assert(op_instr == prefix_instr(*op));
                    assert(state.instrs@.skip(st0.instrs@.len() as int)
                        =~= st1.instrs@.skip(st0.instrs@.len() as int).push(op_instr));
                }
                Ok(())
            },
            ast::Expr::Assign(name, rhs) => {
                match self.gen_expr(state, rhs) {
                    Ok(_) => {},
                    Err(e) => {
                        return Err(e);
                    },
                }
                let ghost st1 = *state;
                match lookup_local(&state.locals, name) {
                    Some(idx) => {
                        proof {
                            let i = choose|i: int|
                                0 <= i < st1.locals@.len() && (#[trigger] st1.locals@[i]).0@
                                    == name@ && st1.locals@[i].1 == idx;
                            assert(idx < st1.locals_count);
                        }
                        state.instrs.push(Instr::Assign(idx));
                        let ghost st2 = *state;
                        state.instrs.push(Instr::IntConst(0));
                        proof {
                            lemma_push_plain(st2, st1, Instr::Assign(idx), self.funcs_bound());
                            lemma_push_plain(*state, st2, Instr::IntConst(0), self.funcs_bound());
                            lemma_extends_trans(st2, st1, st0);
                            lemma_extends_trans(*state, st2, st0);
                            lemma_ok_compose(st2, st1, st0);
                            lemma_ok_compose(*state, st2, st0);
                            assert(state.instrs@.skip(st0.instrs@.len() as int)
                                =~= st1.instrs@.skip(st0.instrs@.len() as int) + seq![
                                Instr::Assign(idx),
                                Instr::IntConst(0),
                            ]);
                        }
                        Ok(())
                    },
                    None => {
                        proof {
                            assert(st1.locals@ == st0.locals@);
                        }
                        Err(GenError::UnresolvedName)
                    },
                }
            },
            ast::Expr::Call(fname, args) => {
                self.gen_call(state, expr, fname, args)
            },
            ast::Expr::Block(exprs) => {
                self.gen_block(state, expr, exprs)
            },
            ast::Expr::Var(name, init, body) => {
                match self.gen_expr(state, init) {
                    Ok(_) => {},
                    Err(e) => {
                        return Err(e);
                    },
                }
                let ghost st1 = *state;
                if state.locals_count == usize::MAX {
                    proof {
                        assert(st1.locals_count == st0.locals_count + var_count(**init));
                    }
                    return Err(GenError::TooManyLocals);
                }
                let prev_locals = clone_locals(&state.locals);
                let idx = state.add_local(name.clone());
                let ghost st2 = *state;
                state.instrs.push(Instr::Assign(idx));
                let ghost st3 = *state;
                proof {
                    lemma_push_plain(st3, st2, Instr::Assign(idx), self.funcs_bound());
                    lemma_locals_names_push(st1.locals@, (*name, idx));
                    assert(locals_names(st3.locals@) == env.insert(name@));
                }
                match self.gen_expr(state, body) {
                    Ok(_) => {},
                    Err(e) => {
                        let ghost stb = *state;
                        state.locals = prev_locals;
                        proof {
                            assert(lstate(st3).locals =~= lstate(st1).locals.push((*name, idx)));
                            assert(st_extends(st3, st1)) by {
                                assert(st3.instrs@.subrange(0, st1.instrs@.len() as int)
                                    =~= st1.instrs@);
                                assert(st3.if_infos@.subrange(0, st1.if_infos@.len() as int)
                                    =~= st1.if_infos@);
                                assert(st3.loop_infos@.subrange(0, st1.loop_infos@.len() as int)
                                    =~= st1.loop_infos@);
                            }
                            lemma_extends_trans(stb, st3, st1);
                            lemma_extends_refl(stb);
                            assert(st_extends(*state, stb));
                            lemma_extends_trans(*state, stb, st1);
                            lemma_extends_trans(*state, st1, st0);
                        }
                        return Err(e);
                    },
                }
                let ghost st4 = *state;
                state.locals = prev_locals;
                proof {
                    assert(lstate(st3).locals =~= lstate(st1).locals.push((*name, idx)));
                    assert(st3.instrs@.skip(st0.instrs@.len() as int)
                        =~= st1.instrs@.skip(st0.instrs@.len() as int).push(Instr::Assign(idx)));
                    assert(st3.instrs@.subrange(0, st1.instrs@.len() as int) =~= st1.instrs@);
                    lemma_instr_prefix_trans(st3.instrs@, st1.instrs@, st0.instrs@);
                    lemma_skip_compose(st0.instrs@, st3.instrs@, st4.instrs@);
                    assert(state.instrs@.skip(st0.instrs@.len() as int)
                        =~= st1.instrs@.skip(st0.instrs@.len() as int) + seq![Instr::Assign(idx)]
                        + st4.instrs@.skip(st3.instrs@.len() as int));
                    assert(st_extends(st3, st1)) by {
                        assert(st3.instrs@.subrange(0, st1.instrs@.len() as int) =~= st1.instrs@);
                        assert(st3.if_infos@.subrange(0, st1.if_infos@.len() as int)
                            =~= st1.if_infos@);
                        assert(st3.loop_infos@.subrange(0, st1.loop_infos@.len() as int)
                            =~= st1.loop_infos@);
                    }
                    lemma_extends_trans(st3, st1, st0);
                    lemma_extends_trans(st4, st3, st0);
                    lemma_extends_refl(st4);
                    assert(st_extends(*state, st4));
                    lemma_extends_trans(*state, st4, st0);
                    assert(new_ids_complete(st3, st0)) by {
                        lemma_ok_compose(st3, st1, st0);
                    }
                    lemma_ok_compose(st4, st3, st0);
                    lemma_ok_compose(*state, st4, st0);
                }
                Ok(())
            },
            ast::Expr::While(cond, body) => {
                self.gen_while(state, expr, cond, body)
            },
            ast::Expr::If(cond, then_e, else_e) => {
                self.gen_if(state, expr, cond, then_e, else_e)
            },
        }
    }


    /// Lower a call: the arguments left to right, then the call of the
    /// resolved user function, or `Println` for the builtin.
    #[verifier::rlimit(100)]
    #[verifier::spinoff_prover]
    fn gen_call(
        &self,
        state: &mut GenFuncState,
        expr: &ast::Expr,
        fname: &String,
        args: &Vec<ast::Expr>,
    ) -> (r: Result<(), GenError>)
        requires
            self.wf(),
            self.builtins_named(),
            st_inv(*old(state), self.funcs_bound()),
            *expr matches ast::Expr::Call(f2, a2) && f2 == *fname && a2 == *args,
        ensures
            st_inv(*final(state), self.funcs_bound()),
            st_extends(*final(state), *old(state)),
            r is Ok ==> gen_ok(*final(state), *old(state)),
            r is Ok ==> final(state).locals_count == old(state).locals_count + var_count(*expr),
            lowering_of(self.func_refs@, *old(state), *final(state), *expr, r),
            r is Ok && println_calls_unary(*expr) ==> seq_delta(final(state).instrs@) == seq_delta(
                old(state).instrs@,
            ) + 1,
            r is Ok <==> resolves(
                *expr,
                locals_names(old(state).locals@),
                ref_names(self.func_refs@),
            ) && old(state).locals_count + var_count(*expr) <= usize::MAX,
            r matches Err(GenError::UnresolvedName) ==> !resolves(
                *expr,
                locals_names(old(state).locals@),
                ref_names(self.func_refs@),
            ),
            r matches Err(GenError::TooManyLocals) ==> old(state).locals_count + var_count(*expr)
                > usize::MAX,
            !(r matches Err(GenError::DuplicateFuncName)),
        decreases *expr, 0int,
    {
        let ghost st0 = *state;
        let ghost env = locals_names(st0.locals@);
        let ghost fenv = ref_names(self.func_refs@);

        proof {
            lemma_extends_refl(st0);
            assert(state.instrs@.skip(st0.instrs@.len() as int) =~= Seq::<Instr>::empty());
        }
        let mut k: usize = 0;
        while k < args.len()
            invariant
                st0 == *old(state),
                *expr == ast::Expr::Call(*fname, *args),
                k <= args@.len(),
                lower_args(self.func_refs@, lstate(st0), args@, k as int) == Ok::<
                    (Seq<Instr>, LowerState),
                    GenError,
                >((state.instrs@.skip(st0.instrs@.len() as int), lstate(*state))),
                self.wf(),
                self.builtins_named(),
                st_inv(*state, self.funcs_bound()),
                st_extends(*state, st0),
                new_ids_complete(*state, st0),
                state.locals@ == st0.locals@,
                state.instrs@.len() >= st0.instrs@.len() + k,
                state.locals_count == st0.locals_count + var_count_upto(args@, k as int),
                resolves_upto(args@, k as int, env, fenv),
                env == locals_names(st0.locals@),
                fenv == ref_names(self.func_refs@),
                println_calls_unary_upto(args@, args@.len() as int) ==> seq_delta(
                    state.instrs@,
                ) == seq_delta(st0.instrs@) + k,
            decreases args@.len() - k,
        {
            let ghost stk = *state;
            let arg_k: &ast::Expr = match expr {
                ast::Expr::Call(_, args2) => {
                    proof {
                        assert(decreases_to!(*args2 => args2[k as int]));
                    }
                    &args2[k]
                },
                _ => {
                    proof {
                        assert(false);
                    }
                    expr
                },
            };
            match self.gen_expr(state, arg_k) {
                Ok(_) => {
                    proof {
                        lemma_extends_trans(*state, stk, st0);
                        lemma_ok_compose(*state, stk, st0);
                        if println_calls_unary_upto(args@, args@.len() as int) {
                            lemma_println_unary_upto_element(
                                args@,
                                k as int,
                                args@.len() as int,
                            );
                        }
                        lemma_skip_compose(st0.instrs@, stk.instrs@, state.instrs@);
                        assert(lower_args(
                            self.func_refs@,
                            lstate(st0),
                            args@,
                            k as int + 1,
                        ) == Ok::<(Seq<Instr>, LowerState), GenError>(
                            (state.instrs@.skip(st0.instrs@.len() as int), lstate(*state)),
                        ));
                    }
                    k = k + 1;
                },
                Err(e) => {
                    proof {
                        lemma_extends_trans(*state, stk, st0);
                        if resolves(*expr, env, fenv) {
                            lemma_resolves_upto_element(
                                args@,
                                k as int,
                                args@.len() as int,
                                env,
                                fenv,
                            );
                        }
                        if st0.locals_count + var_count(*expr) <= usize::MAX {
                            lemma_var_count_upto_le(args@, k as int + 1, args@.len() as int);
                        }
                        assert(lower_args(
                            self.func_refs@,
                            lstate(st0),
                            args@,
                            k as int + 1,
                        ) == Err::<(Seq<Instr>, LowerState), GenError>(e));
                        lemma_lower_args_err(
                            self.func_refs@,
                            lstate(st0),
                            args@,
                            k as int + 1,
                            args@.len() as int,
                        );
                    }
                    return Err(e);
                },
            }
        }
        let ghost stargs = *state;
        match self.lookup_ref(fname) {
            Some(FuncRef::UserDefined { idx }) => {
                proof {
                    let i = choose|i: int|
                        0 <= i < self.func_refs@.len() && (#[trigger] self.func_refs@[i]).1
                            == (FuncRef::UserDefined { idx }) && self.func_refs@[i].0@
                            == fname@;
                    assert(idx < self.funcs_bound());
                }
                let call_instr = Instr::Call { func: idx, args_count: args.len() };
                state.instrs.push(call_instr);
                proof {
                    lemma_push_plain(*state, stargs, call_instr, self.funcs_bound());
                    lemma_extends_trans(*state, stargs, st0);
                    lemma_ok_compose(*state, stargs, st0);
                    assert(resolves(*expr, env, fenv));
                    assert(state.locals_count == st0.locals_count + var_count(*expr));
                    assert(call_instr == (Instr::Call {
                        func: idx,
                        args_count: args@.len() as usize,
                    }));
                    assert(state.instrs@.skip(st0.instrs@.len() as int)
                        =~= stargs.instrs@.skip(st0.instrs@.len() as int).push(call_instr));
                }
                Ok(())
            },
            Some(FuncRef::Builtin { kind: BuiltinFunc::Println }) => {
                proof {
                    let i = choose|i: int|
                        0 <= i < self.func_refs@.len() && (#[trigger] self.func_refs@[i]).1
                            == (FuncRef::Builtin { kind: BuiltinFunc::Println })
                            && self.func_refs@[i].0@ == fname@;
                    assert(fname@ == "println"@);
                }
                state.instrs.push(Instr::Println);
                proof {
                    lemma_push_plain(*state, stargs, Instr::Println, self.funcs_bound());
                    lemma_extends_trans(*state, stargs, st0);
                    lemma_ok_compose(*state, stargs, st0);
                    assert(resolves(*expr, env, fenv));
                    assert(state.locals_count == st0.locals_count + var_count(*expr));
                    assert(state.instrs@.skip(st0.instrs@.len() as int)
                        =~= stargs.instrs@.skip(st0.instrs@.len() as int).push(
                        Instr::Println,
                    ));
                }
                Ok(())
            },
            None => Err(GenError::UnresolvedName),
        }
    }

    /// Lower a block: every inner expression dropped but the last, which
    /// supplies the block's value; an empty block is the constant 0.
    #[verifier::rlimit(100)]
    #[verifier::spinoff_prover]
    fn gen_block(
        &self,
        state: &mut GenFuncState,
        expr: &ast::Expr,
        exprs: &Vec<ast::Expr>,
    ) -> (r: Result<(), GenError>)
        requires
            self.wf(),
            self.builtins_named(),
            st_inv(*old(state), self.funcs_bound()),
            *expr matches ast::Expr::Block(a2) && a2 == *exprs,
        ensures
            st_inv(*final(state), self.funcs_bound()),
            st_extends(*final(state), *old(state)),
            r is Ok ==> gen_ok(*final(state), *old(state)),
            r is Ok ==> final(state).locals_count == old(state).locals_count + var_count(*expr),
            lowering_of(self.func_refs@, *old(state), *final(state), *expr, r),
            r is Ok && println_calls_unary(*expr) ==> seq_delta(final(state).instrs@) == seq_delta(
                old(state).instrs@,
            ) + 1,
            r is Ok <==> resolves(
                *expr,
                locals_names(old(state).locals@),
                ref_names(self.func_refs@),
            ) && old(state).locals_count + var_count(*expr) <= usize::MAX,
            r matches Err(GenError::UnresolvedName) ==> !resolves(
                *expr,
                locals_names(old(state).locals@),
                ref_names(self.func_refs@),
            ),
            r matches Err(GenError::TooManyLocals) ==> old(state).locals_count + var_count(*expr)
                > usize::MAX,
            !(r matches Err(GenError::DuplicateFuncName)),
        decreases *expr, 0int,
    {
        let ghost st0 = *state;
        let ghost env = locals_names(st0.locals@);
        let ghost fenv = ref_names(self.func_refs@);

        if exprs.len() == 0 {
            state.instrs.push(Instr::IntConst(0));
            proof {
                lemma_push_plain(*state, st0, Instr::IntConst(0), self.funcs_bound());
                assert(state.instrs@.skip(st0.instrs@.len() as int) =~= seq![
                    Instr::IntConst(0),
                ]);
                assert(var_count(*expr) == var_count_upto(exprs@, exprs@.len() as int));
                assert(var_count(*expr) == 0);
                assert(resolves_upto(exprs@, 0, env, fenv));
                assert(resolves(*expr, env, fenv) == resolves_upto(
                    exprs@,
                    exprs@.len() as int,
                    env,
                    fenv,
                ));
                assert(resolves(*expr, env, fenv));
            }
            return Ok(());
        }
        let n_minus_1 = exprs.len() - 1;
        proof {
            lemma_extends_refl(st0);
            assert(state.instrs@.skip(st0.instrs@.len() as int) =~= Seq::<Instr>::empty());
        }
        let mut k: usize = 0;
        while k < n_minus_1
            invariant
                st0 == *old(state),
                *expr == ast::Expr::Block(*exprs),
                k <= n_minus_1,
                lower_dropped(self.func_refs@, lstate(st0), exprs@, k as int) == Ok::<
                    (Seq<Instr>, LowerState),
                    GenError,
                >((state.instrs@.skip(st0.instrs@.len() as int), lstate(*state))),
                n_minus_1 == exprs@.len() - 1,
                self.wf(),
                self.builtins_named(),
                st_inv(*state, self.funcs_bound()),
                st_extends(*state, st0),
                new_ids_complete(*state, st0),
                state.locals@ == st0.locals@,
                state.instrs@.len() >= st0.instrs@.len() + k,
                state.locals_count == st0.locals_count + var_count_upto(exprs@, k as int),
                resolves_upto(exprs@, k as int, env, fenv),
                env == locals_names(st0.locals@),
                fenv == ref_names(self.func_refs@),
                println_calls_unary_upto(exprs@, exprs@.len() as int) ==> seq_delta(
                    state.instrs@,
                ) == seq_delta(st0.instrs@),
            decreases n_minus_1 - k,
        {
            let ghost stk = *state;
            let expr_k: &ast::Expr = match expr {
                ast::Expr::Block(exprs2) => {
                    proof {
                        assert(decreases_to!(*exprs2 => exprs2[k as int]));
                    }
                    &exprs2[k]
                },
                _ => {
                    proof {
                        assert(false);
                    }
                    expr
                },
            };
            match self.gen_expr(state, expr_k) {
                Ok(_) => {},
                Err(e) => {
                    proof {
                        lemma_extends_trans(*state, stk, st0);
                        if resolves(*expr, env, fenv) {
                            lemma_resolves_upto_element(
                                exprs@,
                                k as int,
                                exprs@.len() as int,
                                env,
                                fenv,
                            );
                        }
                        if st0.locals_count + var_count(*expr) <= usize::MAX {
                            lemma_var_count_upto_le(
                                exprs@,
                                k as int + 1,
                                exprs@.len() as int,
                            );
                        }
                        assert(lower_dropped(
                            self.func_refs@,
                            lstate(st0),
                            exprs@,
                            k as int + 1,
                        ) == Err::<(Seq<Instr>, LowerState), GenError>(e));
                        lemma_lower_dropped_err(
                            self.func_refs@,
                            lstate(st0),
                            exprs@,
                            k as int + 1,
                            exprs@.len() as int - 1,
                        );
                    }
                    return Err(e);
                },
            }
            let ghost stg = *state;
            state.instrs.push(Instr::Drop);
            proof {
                lemma_push_plain(*state, stg, Instr::Drop, self.funcs_bound());
                lemma_extends_trans(stg, stk, st0);
                lemma_extends_trans(*state, stg, st0);
                lemma_ok_compose(stg, stk, st0);
                lemma_ok_compose(*state, stg, st0);
                if println_calls_unary_upto(exprs@, exprs@.len() as int) {
                    lemma_println_unary_upto_element(exprs@, k as int, exprs@.len() as int);
                }
                lemma_skip_compose(st0.instrs@, stk.instrs@, stg.instrs@);
                assert(state.instrs@.skip(st0.instrs@.len() as int)
                    =~= stk.instrs@.skip(st0.instrs@.len() as int) + stg.instrs@.skip(
                    stk.instrs@.len() as int,
                ).push(Instr::Drop));
                assert(lower_dropped(
                    self.func_refs@,
                    lstate(st0),
                    exprs@,
                    k as int + 1,
                ) == Ok::<(Seq<Instr>, LowerState), GenError>(
                    (state.instrs@.skip(st0.instrs@.len() as int), lstate(*state)),
                ));
            }
            k = k + 1;
        }
        let ghost stlast = *state;
        proof {
            assert(decreases_to!(*exprs => exprs[n_minus_1 as int]));
        }
        match self.gen_expr(state, &exprs[n_minus_1]) {
            Ok(_) => {
                proof {
                    lemma_extends_trans(*state, stlast, st0);
                    lemma_ok_compose(*state, stlast, st0);
                    if println_calls_unary(*expr) {
                        lemma_println_unary_upto_element(
                            exprs@,
                            n_minus_1 as int,
                            exprs@.len() as int,
                        );
                    }
                    assert(var_count_upto(exprs@, exprs@.len() as int) == var_count_upto(
                        exprs@,
                        n_minus_1 as int,
                    ) + var_count(exprs@[n_minus_1 as int]));
                    assert(resolves_upto(exprs@, exprs@.len() as int, env, fenv));
                    assert(resolves(*expr, env, fenv));
                    assert(state.locals_count == st0.locals_count + var_count(*expr));
                    lemma_skip_compose(st0.instrs@, stlast.instrs@, state.instrs@);
                }
                Ok(())
            },
            Err(e) => {
                proof {
                    lemma_extends_trans(*state, stlast, st0);
                    assert(var_count(*expr) == var_count_upto(exprs@, exprs@.len() as int));
                    assert(var_count_upto(exprs@, exprs@.len() as int) == var_count_upto(
                        exprs@,
                        n_minus_1 as int,
                    ) + var_count(exprs@[n_minus_1 as int]));
                    if resolves(*expr, env, fenv) {
                        assert(resolves_upto(exprs@, exprs@.len() as int, env, fenv));
                        lemma_resolves_upto_element(
                            exprs@,
                            n_minus_1 as int,
                            exprs@.len() as int,
                            env,
                            fenv,
                        );
                        assert(resolves(exprs@[n_minus_1 as int], env, fenv));
                    }
                    assert(stlast.locals@ == st0.locals@);
                    assert(locals_names(stlast.locals@) == env);
                }
                Err(e)
            },
        }
    }

    /// Lower `while (cond) body`: a `Loop`/`LoopThen`/`LoopEnd` triple whose
    /// positions are recorded in a fresh `loop_infos` entry, the body's value
    /// dropped each iteration, and a final constant 0 as the loop's value.
    #[verifier::rlimit(100)]
    #[verifier::spinoff_prover]
    fn gen_while(
        &self,
        state: &mut GenFuncState,
        expr: &ast::Expr,
        cond: &ast::Expr,
        body: &ast::Expr,
    ) -> (r: Result<(), GenError>)
        requires
            self.wf(),
            self.builtins_named(),
            st_inv(*old(state), self.funcs_bound()),
            *expr matches ast::Expr::While(c, b) && *c == *cond && *b == *body,
        ensures
            st_inv(*final(state), self.funcs_bound()),
            st_extends(*final(state), *old(state)),
            r is Ok ==> gen_ok(*final(state), *old(state)),
            r is Ok ==> final(state).locals_count == old(state).locals_count + var_count(*expr),
            lowering_of(self.func_refs@, *old(state), *final(state), *expr, r),
            r is Ok && println_calls_unary(*expr) ==> seq_delta(final(state).instrs@) == seq_delta(
                old(state).instrs@,
            ) + 1,
            r is Ok <==> resolves(
                *expr,
                locals_names(old(state).locals@),
                ref_names(self.func_refs@),
            ) && old(state).locals_count + var_count(*expr) <= usize::MAX,
            r matches Err(GenError::UnresolvedName) ==> !resolves(
                *expr,
                locals_names(old(state).locals@),
                ref_names(self.func_refs@),
            ),
            r matches Err(GenError::TooManyLocals) ==> old(state).locals_count + var_count(*expr)
                > usize::MAX,
            !(r matches Err(GenError::DuplicateFuncName)),
        decreases *expr, 0int,
    {
        let ghost st0 = *state;
        let loop_id = state.loop_infos.len();
        state.loop_infos.push(LoopInfo::dummy());
        let ghost sta = *state;
        proof {
            assert(st_inv(sta, self.funcs_bound()));
            assert(st_extends(sta, st0)) by {
                assert(sta.instrs@.subrange(0, st0.instrs@.len() as int) =~= st0.instrs@);
                assert(sta.if_infos@.subrange(0, st0.if_infos@.len() as int) =~= st0.if_infos@);
                assert(sta.loop_infos@.subrange(0, st0.loop_infos@.len() as int)
                    =~= st0.loop_infos@);
            }
        }
        let loop_pos = state.instrs.len();
        state.loop_infos.set(loop_id, LoopInfo { loop_: loop_pos, loop_then: 0, loop_end: 0 });
        state.instrs.push(Instr::Loop(loop_id));
        let ghost st1 = *state;
        proof {
            assert forall|k: int|
                0 <= k < sta.instrs@.len() implies match #[trigger] sta.instrs@[k] {
                Instr::Loop(id2) => id2 != loop_id,
                Instr::LoopThen(id2) => id2 != loop_id,
                Instr::LoopEnd(id2) => id2 != loop_id,
                _ => true,
            } by {
                assert(sta.instrs@[k] == st0.instrs@[k]);
            }
            lemma_loop_marker_step(
                st1,
                sta,
                st0,
                loop_id as int,
                LoopInfo { loop_: loop_pos, loop_then: 0, loop_end: 0 },
                Instr::Loop(loop_id),
                self.funcs_bound(),
            );
            assert(st1.instrs@[loop_pos as int] == Instr::Loop(loop_id));
        }
        match self.gen_expr(state, cond) {
            Ok(_) => {},
            Err(e) => {
                proof {
                    lemma_extends_trans(*state, st1, st0);
                    assert(lstate(st1) == (LowerState {
                        locals: lstate(st0).locals,
                        locals_count: lstate(st0).locals_count,
                        n_if: lstate(st0).n_if,
                        n_loop: lstate(st0).n_loop + 1,
                    }));
                }
                return Err(e);
            },
        }
        let ghost st2 = *state;
        proof {
            assert(st2.instrs@[loop_pos as int] == st1.instrs@[loop_pos as int]) by {
                assert(st2.instrs@.subrange(0, st1.instrs@.len() as int)[loop_pos as int]
                    == st2.instrs@[loop_pos as int]);
            }
            assert(st2.loop_infos@[loop_id as int] == st1.loop_infos@[loop_id as int]) by {
                assert(st2.loop_infos@.subrange(0, st1.loop_infos@.len() as int)[loop_id as int]
                    == st2.loop_infos@[loop_id as int]);
            }
        }
        let then_pos = state.instrs.len();
        let cur = state.loop_infos[loop_id];
        state.loop_infos.set(
            loop_id,
            LoopInfo { loop_: cur.loop_, loop_then: then_pos, loop_end: 0 },
        );
        state.instrs.push(Instr::LoopThen(loop_id));
        let ghost st3 = *state;
        proof {
            assert forall|k: int|
                0 <= k < st2.instrs@.len() implies match #[trigger] st2.instrs@[k] {
                Instr::LoopThen(id2) => id2 != loop_id,
                Instr::LoopEnd(id2) => id2 != loop_id,
                _ => true,
            } by {
                if k < st0.instrs@.len() {
                    assert(st2.instrs@[k] == st2.instrs@.subrange(
                        0,
                        st1.instrs@.len() as int,
                    )[k]);
                    assert(st1.instrs@[k] == st1.instrs@.subrange(
                        0,
                        sta.instrs@.len() as int,
                    )[k]);
                    assert(st2.instrs@[k] == st0.instrs@[k]);
                } else if k == loop_pos as int {
                    assert(st2.instrs@[k] == Instr::Loop(loop_id));
                } else {
                    assert(st2.instrs@[k] == st2.instrs@.subrange(
                        0,
                        st1.instrs@.len() as int,
                    )[k] || k >= st1.instrs@.len());
                    if k < st1.instrs@.len() {
                        assert(st2.instrs@[k] == st1.instrs@[k]);
                        assert(st1.instrs@[k] == sta.instrs@[k] || k == loop_pos as int);
                    }
                }
            }
            lemma_extends_trans(st2, st1, st0);
            lemma_loop_marker_step(
                st3,
                st2,
                st0,
                loop_id as int,
                LoopInfo { loop_: cur.loop_, loop_then: then_pos, loop_end: 0 },
                Instr::LoopThen(loop_id),
                self.funcs_bound(),
            );
            assert(st3.instrs@[loop_pos as int] == Instr::Loop(loop_id));
            assert(st3.instrs@[then_pos as int] == Instr::LoopThen(loop_id));
        }
        match self.gen_expr(state, body) {
            Ok(_) => {},
            Err(e) => {
                proof {
                    lemma_extends_trans(*state, st3, st0);
                    assert(lstate(st1) == (LowerState {
                        locals: lstate(st0).locals,
                        locals_count: lstate(st0).locals_count,
                        n_if: lstate(st0).n_if,
                        n_loop: lstate(st0).n_loop + 1,
                    }));
                    assert(lstate(st3) == lstate(st2));
                }
                return Err(e);
            },
        }
        let ghost st4 = *state;
        state.instrs.push(Instr::Drop);
        let ghost st5 = *state;
        proof {
            lemma_push_plain(st5, st4, Instr::Drop, self.funcs_bound());
            assert(st5.instrs@[loop_pos as int] == st4.instrs@[loop_pos as int]) by {
                assert(st4.instrs@[loop_pos as int] == st4.instrs@.subrange(
                    0,
                    st3.instrs@.len() as int,
                )[loop_pos as int]);
            }
            assert(st5.instrs@[then_pos as int] == st4.instrs@[then_pos as int]) by {
                assert(st4.instrs@[then_pos as int] == st4.instrs@.subrange(
                    0,
                    st3.instrs@.len() as int,
                )[then_pos as int]);
            }
            assert(st5.instrs@[loop_pos as int] == Instr::Loop(loop_id));
            assert(st5.instrs@[then_pos as int] == Instr::LoopThen(loop_id));
            assert(st5.loop_infos@[loop_id as int] == st3.loop_infos@[loop_id as int]) by {
                assert(st4.loop_infos@.subrange(0, st3.loop_infos@.len() as int)[loop_id as int]
                    == st4.loop_infos@[loop_id as int]);
            }
        }
        let end_pos = state.instrs.len();
        let cur2 = state.loop_infos[loop_id];
        state.loop_infos.set(
            loop_id,
            LoopInfo { loop_: cur2.loop_, loop_then: cur2.loop_then, loop_end: end_pos },
        );
        state.instrs.push(Instr::LoopEnd(loop_id));
        let ghost st6 = *state;
        proof {
            assert forall|k: int|
                0 <= k < st5.instrs@.len() implies match #[trigger] st5.instrs@[k] {
                Instr::LoopEnd(id2) => id2 != loop_id,
                _ => true,
            } by {
                if st5.instrs@[k] matches Instr::LoopEnd(id2) && id2 == loop_id {
                    assert(st5.loop_infos@[loop_id as int].loop_end == k);
                    assert(k == 0);
                    if 0 < st0.instrs@.len() {
                        assert(st5.instrs@[0] == st4.instrs@[0]) by {
                            assert(st4.instrs@[0] == st4.instrs@.subrange(
                                0,
                                st3.instrs@.len() as int,
                            )[0]);
                        }
                        assert(st4.instrs@[0] == st3.instrs@[0]);
                        assert(st3.instrs@[0] == st2.instrs@[0]);
                        assert(st2.instrs@[0] == st2.instrs@.subrange(
                            0,
                            st1.instrs@.len() as int,
                        )[0]);
                        assert(st1.instrs@[0] == sta.instrs@[0] || loop_pos == 0);
                        assert(false);
                    } else {
                        assert(loop_pos == 0);
                        assert(st5.instrs@[0] == Instr::Loop(loop_id));
                        assert(false);
                    }
                }
            }
            lemma_extends_trans(st4, st3, st0);
            lemma_extends_trans(st5, st4, st0);
            lemma_loop_marker_step(
                st6,
                st5,
                st0,
                loop_id as int,
                LoopInfo { loop_: cur2.loop_, loop_then: cur2.loop_then, loop_end: end_pos },
                Instr::LoopEnd(loop_id),
                self.funcs_bound(),
            );
        }
        state.instrs.push(Instr::IntConst(0));
        proof {
            lemma_push_plain(*state, st6, Instr::IntConst(0), self.funcs_bound());
            lemma_extends_trans(*state, st6, st0);
            let fin = *state;
            // the recorded triple of `loop_id` is complete in the final list
            assert(fin.instrs@[loop_pos as int] == Instr::Loop(loop_id)) by {
                assert(st6.instrs@[loop_pos as int] == st5.instrs@[loop_pos as int]);
            }
            assert(fin.instrs@[then_pos as int] == Instr::LoopThen(loop_id)) by {
                assert(st6.instrs@[then_pos as int] == st5.instrs@[then_pos as int]);
            }
            assert(fin.instrs@[end_pos as int] == Instr::LoopEnd(loop_id));
            assert(fin.loop_infos@[loop_id as int] == (LoopInfo {
                loop_: loop_pos,
                loop_then: then_pos,
                loop_end: end_pos,
            }));
            assert(loop_complete(
                fin.instrs@,
                fin.loop_infos@[loop_id as int],
                loop_id as int,
            ));
            // entries recorded by the two sub-expressions stay recorded
            assert(new_ids_complete(fin, st0)) by {
                assert(st3.instrs@.subrange(0, st2.instrs@.len() as int) =~= st2.instrs@);
                assert(st5.instrs@.subrange(0, st4.instrs@.len() as int) =~= st4.instrs@);
                assert(st6.instrs@.subrange(0, st5.instrs@.len() as int) =~= st5.instrs@);
                assert(fin.instrs@.subrange(0, st6.instrs@.len() as int) =~= st6.instrs@);
                lemma_instr_prefix_trans(st4.instrs@, st3.instrs@, st2.instrs@);
                lemma_instr_prefix_trans(st5.instrs@, st4.instrs@, st2.instrs@);
                lemma_instr_prefix_trans(st6.instrs@, st5.instrs@, st2.instrs@);
                lemma_instr_prefix_trans(fin.instrs@, st6.instrs@, st2.instrs@);
                lemma_instr_prefix_trans(st6.instrs@, st5.instrs@, st4.instrs@);
                lemma_instr_prefix_trans(fin.instrs@, st6.instrs@, st4.instrs@);
                assert forall|id: int|
                    st0.if_infos@.len() <= id < fin.if_infos@.len() implies if_complete(
                    fin.instrs@,
                    #[trigger] fin.if_infos@[id],
                    id,
                ) by {
                    if id < st2.if_infos@.len() {
                        assert(fin.if_infos@[id] == st2.if_infos@[id]) by {
                            assert(st4.if_infos@.subrange(0, st3.if_infos@.len() as int)[id]
                                == st4.if_infos@[id]);
                        }
                        assert(if_complete(st2.instrs@, st2.if_infos@[id], id));
                        lemma_if_complete_mono(st2.instrs@, fin.instrs@, st2.if_infos@[id], id);
                    } else {
                        assert(fin.if_infos@[id] == st4.if_infos@[id]);
                        assert(if_complete(st4.instrs@, st4.if_infos@[id], id));
                        lemma_if_complete_mono(st4.instrs@, fin.instrs@, st4.if_infos@[id], id);
                    }
                }
                assert forall|id: int|
                    st0.loop_infos@.len() <= id < fin.loop_infos@.len() implies loop_complete(
                    fin.instrs@,
                    #[trigger] fin.loop_infos@[id],
                    id,
                ) by {
                    if id == loop_id as int {
                        assert(loop_complete(fin.instrs@, fin.loop_infos@[id], id));
                    } else if id < st2.loop_infos@.len() {
                        assert(fin.loop_infos@[id] == st2.loop_infos@[id]) by {
                            assert(st4.loop_infos@.subrange(
                                0,
                                st3.loop_infos@.len() as int,
                            )[id] == st4.loop_infos@[id]);
                        }
                        assert(loop_complete(st2.instrs@, st2.loop_infos@[id], id));
                        lemma_loop_complete_mono(st2.instrs@, fin.instrs@, st2.loop_infos@[id], id);
                    } else {
                        assert(fin.loop_infos@[id] == st4.loop_infos@[id]);
                        assert(loop_complete(st4.instrs@, st4.loop_infos@[id], id));
                        lemma_loop_complete_mono(st4.instrs@, fin.instrs@, st4.loop_infos@[id], id);
                    }
                }
            }
            // the appended code is exactly the lowering rule's sequence
            assert(lstate(st1) == (LowerState {
                        locals: lstate(st0).locals,
                        locals_count: lstate(st0).locals_count,
                        n_if: lstate(st0).n_if,
                        n_loop: lstate(st0).n_loop + 1,
                    }));
            assert(lstate(st3) == lstate(st2));
            assert(lstate(fin) == lstate(st4));
            assert(loop_id == lstate(st0).n_loop as usize);
            assert(st1.instrs@.skip(st0.instrs@.len() as int) =~= seq![Instr::Loop(loop_id)]);
            assert(st1.instrs@.subrange(0, st0.instrs@.len() as int) =~= st0.instrs@);
            lemma_skip_compose(st0.instrs@, st1.instrs@, st2.instrs@);
            assert(st3.instrs@.skip(st0.instrs@.len() as int) =~= st2.instrs@.skip(
                st0.instrs@.len() as int,
            ).push(Instr::LoopThen(loop_id)));
            lemma_instr_prefix_trans(st2.instrs@, st1.instrs@, st0.instrs@);
            assert(st3.instrs@.subrange(0, st2.instrs@.len() as int) =~= st2.instrs@);
            lemma_instr_prefix_trans(st3.instrs@, st2.instrs@, st0.instrs@);
            lemma_skip_compose(st0.instrs@, st3.instrs@, st4.instrs@);
            assert(st5.instrs@.skip(st0.instrs@.len() as int) =~= st4.instrs@.skip(
                st0.instrs@.len() as int,
            ).push(Instr::Drop));
            assert(st6.instrs@.skip(st0.instrs@.len() as int) =~= st5.instrs@.skip(
                st0.instrs@.len() as int,
            ).push(Instr::LoopEnd(loop_id)));
            assert(fin.instrs@.skip(st0.instrs@.len() as int) =~= st6.instrs@.skip(
                st0.instrs@.len() as int,
            ).push(Instr::IntConst(0)));
            assert(fin.instrs@.skip(st0.instrs@.len() as int) =~= seq![Instr::Loop(loop_id)]
                + st2.instrs@.skip(st1.instrs@.len() as int) + seq![Instr::LoopThen(loop_id)]
                + st4.instrs@.skip(st3.instrs@.len() as int) + seq![
                Instr::Drop,
                Instr::LoopEnd(loop_id),
                Instr::IntConst(0),
            ]);
        }
        Ok(())
    }

    /// Lower `if (cond) t else e`: an `If`/`Else`/`IfEnd` triple whose
    /// positions are recorded in a fresh `if_infos` entry; both arms appear
    /// in the instruction list and each leaves the expression's value.
    #[verifier::rlimit(100)]
    #[verifier::spinoff_prover]
    fn gen_if(
        &self,
        state: &mut GenFuncState,
        expr: &ast::Expr,
        cond: &ast::Expr,
        then_e: &ast::Expr,
        else_e: &ast::Expr,
    ) -> (r: Result<(), GenError>)
        requires
            self.wf(),
            self.builtins_named(),
            st_inv(*old(state), self.funcs_bound()),
            *expr matches ast::Expr::If(c, t, e2) && *c == *cond && *t == *then_e && *e2
                == *else_e,
        ensures
            st_inv(*final(state), self.funcs_bound()),
            st_extends(*final(state), *old(state)),
            r is Ok ==> gen_ok(*final(state), *old(state)),
            r is Ok ==> final(state).locals_count == old(state).locals_count + var_count(*expr),
            lowering_of(self.func_refs@, *old(state), *final(state), *expr, r),
            r is Ok && println_calls_unary(*expr) ==> seq_delta(final(state).instrs@) == seq_delta(
                old(state).instrs@,
            ) + 1,
            r is Ok <==> resolves(
                *expr,
                locals_names(old(state).locals@),
                ref_names(self.func_refs@),
            ) && old(state).locals_count + var_count(*expr) <= usize::MAX,
            r matches Err(GenError::UnresolvedName) ==> !resolves(
                *expr,
                locals_names(old(state).locals@),
                ref_names(self.func_refs@),
            ),
            r matches Err(GenError::TooManyLocals) ==> old(state).locals_count + var_count(*expr)
                > usize::MAX,
            !(r matches Err(GenError::DuplicateFuncName)),
        decreases *expr, 0int,
    {
        let ghost st0 = *state;
        let if_id = state.if_infos.len();
        state.if_infos.push(IfInfo::dummy());
        let ghost sta = *state;
        proof {
            assert(st_inv(sta, self.funcs_bound()));
            assert(st_extends(sta, st0)) by {
                assert(sta.instrs@.subrange(0, st0.instrs@.len() as int) =~= st0.instrs@);
                assert(sta.if_infos@.subrange(0, st0.if_infos@.len() as int) =~= st0.if_infos@);
                assert(sta.loop_infos@.subrange(0, st0.loop_infos@.len() as int)
                    =~= st0.loop_infos@);
            }
        }
        match self.gen_expr(state, cond) {
            Ok(_) => {},
            Err(e) => {
                proof {
                    lemma_extends_trans(*state, sta, st0);
                    assert(lstate(sta) == (LowerState {
                        locals: lstate(st0).locals,
                        locals_count: lstate(st0).locals_count,
                        n_if: lstate(st0).n_if + 1,
                        n_loop: lstate(st0).n_loop,
                    }));
                }
                return Err(e);
            },
        }
        let ghost st1 = *state;
        let if_pos = state.instrs.len();
        state.if_infos.set(if_id, IfInfo { if_: if_pos, else_: 0, if_end: 0 });
        state.instrs.push(Instr::If(if_id));
        let ghost st2 = *state;
        proof {
            assert forall|k: int|
                0 <= k < st1.instrs@.len() implies match #[trigger] st1.instrs@[k] {
                Instr::If(id2) => id2 != if_id,
                Instr::Else(id2) => id2 != if_id,
                Instr::IfEnd(id2) => id2 != if_id,
                _ => true,
            } by {
                if k < st0.instrs@.len() {
                    assert(st1.instrs@[k] == st1.instrs@.subrange(
                        0,
                        sta.instrs@.len() as int,
                    )[k]);
                    assert(st1.instrs@[k] == st0.instrs@[k]);
                } else {
                    assert(st1.instrs@[k] == st1.instrs@[k]);
                }
            }
            lemma_extends_trans(st1, sta, st0);
            lemma_if_marker_step(
                st2,
                st1,
                st0,
                if_id as int,
                IfInfo { if_: if_pos, else_: 0, if_end: 0 },
                Instr::If(if_id),
                self.funcs_bound(),
            );
            assert(st2.instrs@[if_pos as int] == Instr::If(if_id));
        }
        match self.gen_expr(state, then_e) {
            Ok(_) => {},
            Err(e) => {
                proof {
                    lemma_extends_trans(*state, st2, st0);
                    assert(lstate(sta) == (LowerState {
                        locals: lstate(st0).locals,
                        locals_count: lstate(st0).locals_count,
                        n_if: lstate(st0).n_if + 1,
                        n_loop: lstate(st0).n_loop,
                    }));
                    assert(lstate(st2) == lstate(st1));
                }
                return Err(e);
            },
        }
        let ghost st3 = *state;
        proof {
            assert(st3.instrs@[if_pos as int] == st2.instrs@[if_pos as int]) by {
                assert(st3.instrs@.subrange(0, st2.instrs@.len() as int)[if_pos as int]
                    == st3.instrs@[if_pos as int]);
            }
            assert(st3.if_infos@[if_id as int] == st2.if_infos@[if_id as int]) by {
                assert(st3.if_infos@.subrange(0, st2.if_infos@.len() as int)[if_id as int]
                    == st3.if_infos@[if_id as int]);
            }
        }
        let else_pos = state.instrs.len();
        let cur = state.if_infos[if_id];
        state.if_infos.set(if_id, IfInfo { if_: cur.if_, else_: else_pos, if_end: 0 });
        state.instrs.push(Instr::Else(if_id));
        let ghost st4 = *state;
        proof {
            assert forall|k: int|
                0 <= k < st3.instrs@.len() implies match #[trigger] st3.instrs@[k] {
                Instr::Else(id2) => id2 != if_id,
                Instr::IfEnd(id2) => id2 != if_id,
                _ => true,
            } by {
                if (st3.instrs@[k] matches Instr::Else(id2) && id2 == if_id) || (st3.instrs@[k]
                    matches Instr::IfEnd(id2) && id2 == if_id) {
                    assert(k == 0);
                    if 0 < st0.instrs@.len() {
                        assert(st3.instrs@[0] == st2.instrs@[0]);
                        assert(st2.instrs@[0] == st1.instrs@[0] || if_pos == 0);
                        assert(st1.instrs@[0] == st1.instrs@.subrange(
                            0,
                            sta.instrs@.len() as int,
                        )[0]);
                        assert(false);
                    } else {
                        if k < st1.instrs@.len() {
                            assert(st1.instrs@[k] == st1.instrs@[k]);
                        }
                        assert(st2.instrs@[0] == st1.instrs@[0] || if_pos == 0);
                        if if_pos == 0 {
                            assert(st3.instrs@[0] == Instr::If(if_id));
                        }
                        assert(false);
                    }
                }
            }
            lemma_extends_trans(st3, st2, st0);
            lemma_if_marker_step(
                st4,
                st3,
                st0,
                if_id as int,
                IfInfo { if_: cur.if_, else_: else_pos, if_end: 0 },
                Instr::Else(if_id),
                self.funcs_bound(),
            );
            assert(st4.instrs@[if_pos as int] == Instr::If(if_id));
            assert(st4.instrs@[else_pos as int] == Instr::Else(if_id));
        }
        match self.gen_expr(state, else_e) {
            Ok(_) => {},
            Err(e) => {
                proof {
                    lemma_extends_trans(*state, st4, st0);
                    assert(lstate(sta) == (LowerState {
                        locals: lstate(st0).locals,
                        locals_count: lstate(st0).locals_count,
                        n_if: lstate(st0).n_if + 1,
                        n_loop: lstate(st0).n_loop,
                    }));
                    assert(lstate(st2) == lstate(st1));
                    assert(lstate(st4) == lstate(st3));
                }
                return Err(e);
            },
        }
        let ghost st5 = *state;
        proof {
            assert(st5.instrs@[if_pos as int] == st4.instrs@[if_pos as int]) by {
                assert(st5.instrs@.subrange(0, st4.instrs@.len() as int)[if_pos as int]
                    == st5.instrs@[if_pos as int]);
            }
            assert(st5.instrs@[else_pos as int] == st4.instrs@[else_pos as int]) by {
                assert(st5.instrs@.subrange(0, st4.instrs@.len() as int)[else_pos as int]
                    == st5.instrs@[else_pos as int]);
            }
            assert(st5.if_infos@[if_id as int] == st4.if_infos@[if_id as int]) by {
                assert(st5.if_infos@.subrange(0, st4.if_infos@.len() as int)[if_id as int]
                    == st5.if_infos@[if_id as int]);
            }
        }
        let end_pos = state.instrs.len();
        let cur2 = state.if_infos[if_id];
        state.if_infos.set(if_id, IfInfo { if_: cur2.if_, else_: cur2.else_, if_end: end_pos });
        state.instrs.push(Instr::IfEnd(if_id));
        let ghost st6 = *state;
        proof {
            assert forall|k: int|
                0 <= k < st5.instrs@.len() implies match #[trigger] st5.instrs@[k] {
                Instr::IfEnd(id2) => id2 != if_id,
                _ => true,
            } by {
                if st5.instrs@[k] matches Instr::IfEnd(id2) && id2 == if_id {
                    assert(st5.if_infos@[if_id as int].if_end == k);
                    assert(k == 0);
                    if 0 < st0.instrs@.len() {
                        assert(st5.instrs@[0] == st4.instrs@[0]);
                        assert(st4.instrs@[0] == st3.instrs@[0] || else_pos == 0);
                        assert(st3.instrs@[0] == st2.instrs@[0]);
                        assert(st2.instrs@[0] == st1.instrs@[0] || if_pos == 0);
                        assert(st1.instrs@[0] == st1.instrs@.subrange(
                            0,
                            sta.instrs@.len() as int,
                        )[0]);
                        assert(false);
                    } else {
                        assert(st5.instrs@[0] == st4.instrs@[0]);
                        assert(st4.instrs@[0] == st3.instrs@[0] || else_pos == 0);
                        if else_pos == 0 {
                            assert(st5.instrs@[0] == Instr::Else(if_id));
                        } else {
                            assert(st3.instrs@[0] == st2.instrs@[0]);
                            assert(st2.instrs@[0] == st1.instrs@[0] || if_pos == 0);
                            if if_pos == 0 {
                                assert(st5.instrs@[0] == Instr::If(if_id));
                            }
                        }
                        assert(false);
                    }
                }
            }
            lemma_extends_trans(st5, st4, st0);
            lemma_if_marker_step(
                st6,
                st5,
                st0,
                if_id as int,
                IfInfo { if_: cur2.if_, else_: cur2.else_, if_end: end_pos },
                Instr::IfEnd(if_id),
                self.funcs_bound(),
            );
            let fin = st6;
            assert(fin.instrs@[if_pos as int] == Instr::If(if_id));
            assert(fin.instrs@[else_pos as int] == Instr::Else(if_id));
            assert(fin.instrs@[end_pos as int] == Instr::IfEnd(if_id));
            assert(fin.if_infos@[if_id as int] == (IfInfo {
                if_: if_pos,
                else_: else_pos,
                if_end: end_pos,
            }));
            assert(if_complete(fin.instrs@, fin.if_infos@[if_id as int], if_id as int));
            assert(new_ids_complete(fin, st0)) by {
                assert(st2.instrs@.subrange(0, st1.instrs@.len() as int) =~= st1.instrs@);
                assert(st4.instrs@.subrange(0, st3.instrs@.len() as int) =~= st3.instrs@);
                assert(fin.instrs@.subrange(0, st5.instrs@.len() as int) =~= st5.instrs@);
                lemma_instr_prefix_trans(st3.instrs@, st2.instrs@, st1.instrs@);
                lemma_instr_prefix_trans(st4.instrs@, st3.instrs@, st1.instrs@);
                lemma_instr_prefix_trans(st5.instrs@, st4.instrs@, st1.instrs@);
                lemma_instr_prefix_trans(fin.instrs@, st5.instrs@, st1.instrs@);
                lemma_instr_prefix_trans(st5.instrs@, st4.instrs@, st3.instrs@);
                lemma_instr_prefix_trans(fin.instrs@, st5.instrs@, st3.instrs@);
                assert forall|id: int|
                    st0.if_infos@.len() <= id < fin.if_infos@.len() implies if_complete(
                    fin.instrs@,
                    #[trigger] fin.if_infos@[id],
                    id,
                ) by {
                    if id == if_id as int {
                        assert(if_complete(fin.instrs@, fin.if_infos@[id], id));
                    } else if id < st1.if_infos@.len() {
                        assert(fin.if_infos@[id] == st1.if_infos@[id]) by {
                            assert(st3.if_infos@.subrange(0, st2.if_infos@.len() as int)[id]
                                == st3.if_infos@[id]);
                            assert(st5.if_infos@.subrange(0, st4.if_infos@.len() as int)[id]
                                == st5.if_infos@[id]);
                        }
                        assert(if_complete(st1.instrs@, st1.if_infos@[id], id));
                        lemma_if_complete_mono(st1.instrs@, fin.instrs@, st1.if_infos@[id], id);
                    } else if id < st3.if_infos@.len() {
                        assert(fin.if_infos@[id] == st3.if_infos@[id]) by {
                            assert(st5.if_infos@.subrange(0, st4.if_infos@.len() as int)[id]
                                == st5.if_infos@[id]);
                        }
                        assert(if_complete(st3.instrs@, st3.if_infos@[id], id));
                        lemma_if_complete_mono(st3.instrs@, fin.instrs@, st3.if_infos@[id], id);
                    } else {
                        assert(fin.if_infos@[id] == st5.if_infos@[id]);
                        assert(if_complete(st5.instrs@, st5.if_infos@[id], id));
                        lemma_if_complete_mono(st5.instrs@, fin.instrs@, st5.if_infos@[id], id);
                    }
                }
                assert forall|id: int|
                    st0.loop_infos@.len() <= id < fin.loop_infos@.len() implies loop_complete(
                    fin.instrs@,
                    #[trigger] fin.loop_infos@[id],
                    id,
                ) by {
                    if id < st1.loop_infos@.len() {
                        assert(fin.loop_infos@[id] == st1.loop_infos@[id]);
                        assert(loop_complete(st1.instrs@, st1.loop_infos@[id], id));
                        lemma_loop_complete_mono(st1.instrs@, fin.instrs@, st1.loop_infos@[id], id);
                    } else if id < st3.loop_infos@.len() {
                        assert(fin.loop_infos@[id] == st3.loop_infos@[id]);
                        assert(loop_complete(st3.instrs@, st3.loop_infos@[id], id));
                        lemma_loop_complete_mono(st3.instrs@, fin.instrs@, st3.loop_infos@[id], id);
                    } else {
                        assert(fin.loop_infos@[id] == st5.loop_infos@[id]);
                        assert(loop_complete(st5.instrs@, st5.loop_infos@[id], id));
                        lemma_loop_complete_mono(st5.instrs@, fin.instrs@, st5.loop_infos@[id], id);
                    }
                }
            }
            // the appended code is exactly the lowering rule's sequence
            assert(lstate(sta) == (LowerState {
                        locals: lstate(st0).locals,
                        locals_count: lstate(st0).locals_count,
                        n_if: lstate(st0).n_if + 1,
                        n_loop: lstate(st0).n_loop,
                    }));
            assert(lstate(st2) == lstate(st1));
            assert(lstate(st4) == lstate(st3));
            assert(lstate(fin) == lstate(st5));
            assert(if_id == lstate(st0).n_if as usize);
            assert(sta.instrs@ == st0.instrs@);
            assert(st1.instrs@.skip(st0.instrs@.len() as int) == st1.instrs@.skip(
                sta.instrs@.len() as int,
            ));
            assert(st2.instrs@.skip(st0.instrs@.len() as int) =~= st1.instrs@.skip(
                st0.instrs@.len() as int,
            ).push(Instr::If(if_id)));
            assert(st1.instrs@.subrange(0, st0.instrs@.len() as int) =~= st0.instrs@);
            assert(st2.instrs@.subrange(0, st1.instrs@.len() as int) =~= st1.instrs@);
            lemma_instr_prefix_trans(st2.instrs@, st1.instrs@, st0.instrs@);
            lemma_skip_compose(st0.instrs@, st2.instrs@, st3.instrs@);
            assert(st4.instrs@.skip(st0.instrs@.len() as int) =~= st3.instrs@.skip(
                st0.instrs@.len() as int,
            ).push(Instr::Else(if_id)));
            assert(st4.instrs@.subrange(0, st3.instrs@.len() as int) =~= st3.instrs@);
            lemma_instr_prefix_trans(st3.instrs@, st2.instrs@, st0.instrs@);
            lemma_instr_prefix_trans(st4.instrs@, st3.instrs@, st0.instrs@);
            lemma_skip_compose(st0.instrs@, st4.instrs@, st5.instrs@);
            assert(fin.instrs@.skip(st0.instrs@.len() as int) =~= st5.instrs@.skip(
                st0.instrs@.len() as int,
            ).push(Instr::IfEnd(if_id)));
            assert(fin.instrs@.skip(st0.instrs@.len() as int) =~= st1.instrs@.skip(
                sta.instrs@.len() as int,
            ) + seq![Instr::If(if_id)] + st3.instrs@.skip(st2.instrs@.len() as int) + seq![
                Instr::Else(if_id),
            ] + st5.instrs@.skip(st4.instrs@.len() as int) + seq![Instr::IfEnd(if_id)]);
        }
        Ok(())
    }
}

/// The scope state a function body is lowered from: argument `j` bound to
/// slot `j`, exactly the arguments' slots allocated, no control entries.
pub open spec fn arg_lower_state(args: Seq<String>) -> LowerState {
    LowerState {
        locals: Seq::new(args.len(), |j: int| (args[j], j as usize)),
        locals_count: args.len() as int,
        n_if: 0,
        n_loop: 0,
    }
}

/// A function can be lowered: its body resolves against its arguments and
/// the module's callable names, and its slots fit the machine's index range.
pub open spec fn func_lowerable(f: ast::Func, fenv: Set<Seq<char>>) -> bool {
    &&& resolves(f.body, names_of(f.args@), fenv)
    &&& f.args@.len() + var_count(f.body) <= usize::MAX
}

impl IrGenerator {
    /// Lower one function: bind the arguments to slots `0..args_count`,
    /// lower the body, and end with `Return`.  The result is well formed,
    /// and when every `println` call is unary its body nets exactly the one
    /// value `Return` consumes.
    #[verifier::rlimit(60)]
    #[verifier::spinoff_prover]
    pub fn gen_func(&self, func: &ast::Func) -> (r: Result<crate::ir::Func, GenError>)
        requires
            self.wf(),
            self.builtins_named(),
        ensures
            r matches Ok(f) ==> {
                &&& func_wf(f, self.funcs_bound())
                &&& f.name == func.name
                &&& f.args_count == func.args@.len()
                &&& f.locals_count == func.args@.len() + var_count(func.body)
                &&& (println_calls_unary(func.body) ==> seq_delta(f.instrs@) == 1)
                &&& f.instrs@.last() == Instr::Return
                &&& lower_expr(self.func_refs@, arg_lower_state(func.args@), func.body) matches Ok(p)
                    && f.instrs@ == p.0.push(Instr::Return)
            },
            r is Ok <==> func_lowerable(*func, ref_names(self.func_refs@)),
            r matches Err(GenError::UnresolvedName) ==> !resolves(
                func.body,
                names_of(func.args@),
                ref_names(self.func_refs@),
            ),
            r matches Err(GenError::TooManyLocals) ==> func.args@.len() + var_count(func.body)
                > usize::MAX,
            !(r matches Err(GenError::DuplicateFuncName)),
    {
        let mut state = GenFuncState::new();
        let mut i: usize = 0;
        while i < func.args.len()
            invariant
                i <= func.args@.len(),
                state.locals_count == i,
                state.locals@.len() == i,
                forall|j: int|
                    0 <= j < i ==> #[trigger] state.locals@[j] == (func.args@[j], j as usize),
                state.instrs@ == Seq::<Instr>::empty(),
                state.if_infos@ == Seq::<IfInfo>::empty(),
                state.loop_infos@ == Seq::<LoopInfo>::empty(),
            decreases func.args@.len() - i,
        {
            let name = func.args[i].clone();
            let _ = state.add_local(name);
            i = i + 1;
        }
        proof {
            assert forall|x: Seq<char>| locals_names(state.locals@).contains(x) implies names_of(
                func.args@,
            ).contains(x) by {
                let j = choose|j: int|
                    0 <= j < state.locals@.len() && (#[trigger] state.locals@[j]).0@ == x;
                assert(func.args@[j]@ == x);
            }
            assert forall|x: Seq<char>| names_of(func.args@).contains(x) implies locals_names(
                state.locals@,
            ).contains(x) by {
                let j = choose|j: int| 0 <= j < func.args@.len() && (#[trigger] func.args@[j])@ == x;
                assert(state.locals@[j].0@ == x);
            }
            assert(locals_names(state.locals@) =~= names_of(func.args@));
            assert(st_inv(state, self.funcs_bound()));
        }
        let ghost st0 = state;
        match self.gen_expr(&mut state, &func.body) {
            Ok(_) => {},
            Err(e) => {
                return Err(e);
            },
        }
        let ghost st1 = state;
        state.instrs.push(Instr::Return);
        proof {
            lemma_push_plain(state, st1, Instr::Return, self.funcs_bound());
        }
        let GenFuncState { locals: _, locals_count, instrs, if_infos, loop_infos } = state;
        let name = func.name.clone();
        let f = crate::ir::Func {
            name,
            args_count: func.args.len(),
            locals_count,
            instrs,
            if_infos,
            loop_infos,
        };
        proof {
            let fin = state;
            lemma_extends_trans(fin, st1, st0);
            lemma_ok_compose(fin, st1, st0);
            assert(seq_delta(st0.instrs@) == 0);
            assert(fin.instrs@.last() == Instr::Return);
            assert forall|id: int|
                0 <= id < f.if_infos@.len() implies if_complete(
                f.instrs@,
                #[trigger] f.if_infos@[id],
                id,
            ) by {
                assert(if_complete(fin.instrs@, fin.if_infos@[id], id));
            }
            assert forall|id: int|
                0 <= id < f.loop_infos@.len() implies loop_complete(
                f.instrs@,
                #[trigger] f.loop_infos@[id],
                id,
            ) by {
                assert(loop_complete(fin.instrs@, fin.loop_infos@[id], id));
            }
            assert(func_wf(f, self.funcs_bound()));
            assert(lstate(st0) =~= arg_lower_state(func.args@)) by {
                assert(st0.locals@ =~= arg_lower_state(func.args@).locals);
            }
            assert(st1.instrs@.skip(st0.instrs@.len() as int) =~= st1.instrs@);
            assert(f.instrs@ =~= st1.instrs@.push(Instr::Return));
        }
        Ok(f)
    }

    /// Lower every function of the module, in order.
    pub fn generate(&self, module: &ast::Module) -> (r: Result<crate::ir::Module, GenError>)
        requires
            self.wf(),
            self.builtins_named(),
            self.funcs_bound() == module.funcs@.len(),
        ensures
            r matches Ok(m) ==> {
                &&& crate::ir::module_wf(m)
                &&& m.funcs@.len() == module.funcs@.len()
                &&& forall|i: int|
                    0 <= i < m.funcs@.len() ==> {
                        &&& (#[trigger] m.funcs@[i]).name == module.funcs@[i].name
                        &&& m.funcs@[i].args_count == module.funcs@[i].args@.len()
                        &&& (println_calls_unary(module.funcs@[i].body) ==> seq_delta(
                            m.funcs@[i].instrs@,
                        ) == 1)
                        &&& lower_expr(
                            self.func_refs@,
                            arg_lower_state(module.funcs@[i].args@),
                            module.funcs@[i].body,
                        ) matches Ok(p) && m.funcs@[i].instrs@ == p.0.push(Instr::Return)
                    }
            },
            r is Ok <==> forall|i: int|
                0 <= i < module.funcs@.len() ==> func_lowerable(
                    #[trigger] module.funcs@[i],
                    ref_names(self.func_refs@),
                ),
            r matches Err(GenError::UnresolvedName) ==> exists|i: int|
                0 <= i < module.funcs@.len() && !resolves(
                    (#[trigger] module.funcs@[i]).body,
                    names_of(module.funcs@[i].args@),
                    ref_names(self.func_refs@),
                ),
            r matches Err(GenError::TooManyLocals) ==> exists|i: int|
                0 <= i < module.funcs@.len() && (#[trigger] module.funcs@[i]).args@.len()
                    + var_count(module.funcs@[i].body) > usize::MAX,
            !(r matches Err(GenError::DuplicateFuncName)),
    {
        let mut funcs: Vec<crate::ir::Func> = Vec::new();
        let mut i: usize = 0;
        while i < module.funcs.len()
            invariant
                self.wf(),
                self.builtins_named(),
                self.funcs_bound() == module.funcs@.len(),
                i <= module.funcs@.len(),
                funcs@.len() == i,
                forall|j: int|
                    0 <= j < i ==> {
                        &&& func_wf(#[trigger] funcs@[j], self.funcs_bound())
                        &&& funcs@[j].name == module.funcs@[j].name
                        &&& funcs@[j].args_count == module.funcs@[j].args@.len()
                        &&& (println_calls_unary(module.funcs@[j].body) ==> seq_delta(
                            funcs@[j].instrs@,
                        ) == 1)
                        &&& lower_expr(
                            self.func_refs@,
                            arg_lower_state(module.funcs@[j].args@),
                            module.funcs@[j].body,
                        ) matches Ok(p) && funcs@[j].instrs@ == p.0.push(Instr::Return)
                    },
                forall|j: int|
                    0 <= j < i ==> func_lowerable(
                        #[trigger] module.funcs@[j],
                        ref_names(self.func_refs@),
                    ),
            decreases module.funcs@.len() - i,
        {
            match self.gen_func(&module.funcs[i]) {
                Ok(f) => {
                    funcs.push(f);
                    i = i + 1;
                },
                Err(e) => {
                    return Err(e);
                },
            }
        }
        let m = crate::ir::Module { funcs };
        Ok(m)
    }
}

/// The symbol table [`IrGenerator::new`] builds for a module, characterised
/// as a sequence: the builtin `println` first, then every function of the
/// module in order under its own index.
pub open spec fn refs_for(refs: Seq<(String, FuncRef)>, m: ast::Module) -> bool {
    &&& refs.len() == m.funcs@.len() + 1
    &&& refs[0].0@ == "println"@
    &&& refs[0].1 == (FuncRef::Builtin { kind: BuiltinFunc::Println })
    &&& forall|j: int|
        1 <= j < refs.len() ==> (#[trigger] refs[j]).0 == m.funcs@[j - 1].name && refs[j].1 == (
        FuncRef::UserDefined { idx: (j - 1) as usize })
}

/// Lower a whole program.  Fails with `DuplicateFuncName` exactly when two
/// functions share a name or one shadows the builtin; otherwise it succeeds
/// exactly when every function body resolves and fits the slot range, and
/// then yields a well-formed module with one lowered function per source
/// function, in order and under the same names.
pub fn generate(module: &ast::Module) -> (r: Result<crate::ir::Module, GenError>)
    ensures
        r == Err::<crate::ir::Module, GenError>(GenError::DuplicateFuncName) <==> has_duplicate(
            *module,
        ),
        r matches Ok(m) ==> {
            &&& crate::ir::module_wf(m)
            &&& m.funcs@.len() == module.funcs@.len()
            &&& forall|i: int|
                0 <= i < m.funcs@.len() ==> {
                    &&& (#[trigger] m.funcs@[i]).name == module.funcs@[i].name
                    &&& m.funcs@[i].args_count == module.funcs@[i].args@.len()
                    &&& (println_calls_unary(module.funcs@[i].body) ==> seq_delta(
                        m.funcs@[i].instrs@,
                    ) == 1)
                }
            &&& exists|refs: Seq<(String, FuncRef)>|
                #[trigger] refs_for(refs, *module) && forall|i: int|
                    0 <= i < m.funcs@.len() ==> (lower_expr(
                        refs,
                        arg_lower_state((#[trigger] module.funcs@[i]).args@),
                        module.funcs@[i].body,
                    ) matches Ok(p) && m.funcs@[i].instrs@ == p.0.push(Instr::Return))
        },
        r is Ok <==> !has_duplicate(*module) && forall|i: int|
            0 <= i < module.funcs@.len() ==> func_lowerable(
                #[trigger] module.funcs@[i],
                module_fnames(*module),
            ),
        r matches Err(GenError::UnresolvedName) ==> exists|i: int|
            0 <= i < module.funcs@.len() && !resolves(
                (#[trigger] module.funcs@[i]).body,
                names_of(module.funcs@[i].args@),
                module_fnames(*module),
            ),
        r matches Err(GenError::TooManyLocals) ==> exists|i: int|
            0 <= i < module.funcs@.len() && (#[trigger] module.funcs@[i]).args@.len() + var_count(
                module.funcs@[i].body,
            ) > usize::MAX,
{
    match IrGenerator::new(module) {
        None => Err(GenError::DuplicateFuncName),
        Some(g) => {
            proof {
                assert(g.builtins_named()) by {
                    assert forall|i: int|
                        0 <= i < g.func_refs@.len() implies match (#[trigger] g.func_refs@[i]).1 {
                        FuncRef::Builtin { .. } => g.func_refs@[i].0@ == "println"@,
                        FuncRef::UserDefined { .. } => true,
                    } by {
                        if i >= 1 {
                            assert(g.func_refs@[i].1 == (FuncRef::UserDefined {
                                idx: (i - 1) as usize,
                            }));
                        }
                    }
                }
                assert forall|x: Seq<char>|
                    ref_names(g.func_refs@).contains(x) implies module_fnames(*module).contains(
                    x,
                ) by {
                    let i = choose|i: int|
                        0 <= i < g.func_refs@.len() && (#[trigger] g.func_refs@[i]).0@ == x;
                    if i >= 1 {
                        assert(module.funcs@[i - 1].name@ == x);
                    }
                }
                assert forall|x: Seq<char>|
                    module_fnames(*module).contains(x) implies ref_names(g.func_refs@).contains(
                    x,
                ) by {
                    if x == "println"@ {
                        assert(g.func_refs@[0].0@ == x);
                    } else {
                        let i = choose|i: int|
                            0 <= i < module.funcs@.len() && (#[trigger] module.funcs@[i]).name@
                                == x;
                        assert(g.func_refs@[i + 1].0@ == x);
                    }
                }
                assert(ref_names(g.func_refs@) =~= module_fnames(*module));
            }
            let r = g.generate(module);
            match &r {
                Ok(m) => {
                    proof {
                        assert(refs_for(g.func_refs@, *module));
                        assert forall|i: int|
                            0 <= i < m.funcs@.len() implies (lower_expr(
                            g.func_refs@,
                            arg_lower_state((#[trigger] module.funcs@[i]).args@),
                            module.funcs@[i].body,
                        ) matches Ok(p) && m.funcs@[i].instrs@ == p.0.push(Instr::Return)) by {
                            assert(m.funcs@[i].args_count == module.funcs@[i].args@.len());
                        }
                    }
                },
                Err(_) => {},
            }
            r
        },
    }
}

} // verus!
