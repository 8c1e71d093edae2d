//! Emission of WebAssembly module descriptions from a lowered module.
//!
//! Two kinds of module are produced.  The *skeleton* defines one trampoline
//! per user function: it asks the host to compile the function (through the
//! imported `env.compile_func`), then dispatches into the shared function
//! table, so each function pays one host round-trip on its first call.  A
//! *per-function* module carries the real translated body and installs
//! itself into the table slot the trampoline dispatches through.

use vstd::prelude::*;

use crate::ir;
use crate::wasm;
use crate::wasm_generator::{
    assoc_builtin, assoc_func, assoc_type, encodable, wasm_of_seq, BuiltinFunc, FuncRef,
    InstrsGenerator,
};

verus! {

/// The largest call arity the fixed type table covers: one function type
/// per arity in `0..=MAX_ARITY`, each taking that many `i32` parameters and
/// returning one `i32`.
pub const MAX_ARITY: usize = 5;

/// The fixed type table: arity `a` at type index `a`, for `a` in
/// `0..=MAX_ARITY`.
pub open spec fn spec_type_table() -> Seq<wasm::FuncType> {
    Seq::new((MAX_ARITY + 1) as nat, |i: int| wasm::FuncType { params: i as usize })
}

/// The trampoline body of function `idx` in the skeleton: push the
/// arguments, ask the host to compile function `idx` (dropping the reply),
/// then call slot `idx` of the shared table.
pub open spec fn spec_trampoline(idx: int, args_count: int) -> Seq<wasm::Instr> {
    Seq::new(args_count as nat, |j: int| wasm::Instr::GetLocal(j as u32)) + seq![
        wasm::Instr::I32Const(idx as i32),
        wasm::Instr::Call(0),
        wasm::Instr::Drop,
        wasm::Instr::I32Const(idx as i32),
        wasm::Instr::CallIndirect(args_count as u32, 0),
        wasm::Instr::End,
    ]
}

/// The module fits the encoded index widths and the fixed type table:
/// function count and arities in range, and locals addressable as `u32`.
/// Together with [`ir::module_wf`] this is exactly what emission needs.
pub open spec fn compilable(m: ir::Module) -> bool {
    &&& m.funcs@.len() <= i32::MAX
    &&& forall|i: int|
        0 <= i < m.funcs@.len() ==> {
            &&& (#[trigger] m.funcs@[i]).args_count <= MAX_ARITY
            &&& m.funcs@[i].locals_count <= u32::MAX
            &&& forall|k: int|
                0 <= k < m.funcs@[i].instrs@.len() ==> match #[trigger] m.funcs@[i].instrs@[k] {
                    ir::Instr::Call { func, args_count } => args_count <= MAX_ARITY,
                    _ => true,
                }
        }
}

/// The standard translation tables for this module: the identity type table,
/// every user function reached indirectly through its own table slot, and
/// `println` as the directly-called import 0.
pub open spec fn standard_generator(g: InstrsGenerator, n_funcs: int) -> bool {
    &&& g.types@ == Seq::new((MAX_ARITY + 1) as nat, |i: int| (i as usize, i as u32))
    &&& g.func_refs@ == Seq::new(n_funcs as nat, |i: int| (i as usize, FuncRef::Indirect(i as u32)))
    &&& g.builtin_func_refs@ == seq![(BuiltinFunc::Println, FuncRef::Direct(0u32))]
}

/// The identity type table resolves exactly the arities up to `MAX_ARITY`.
proof fn lemma_assoc_type_identity(types: Seq<(usize, u32)>, k: usize, skip: int)
    requires
        0 <= skip <= MAX_ARITY + 1,
        types.len() == MAX_ARITY + 1 - skip,
        forall|i: int| 0 <= i < types.len() ==> #[trigger] types[i] == ((i + skip) as usize, (i
            + skip) as u32),
    ensures
        skip <= k < MAX_ARITY + 1 ==> assoc_type(types, k) == Some(k as u32),
        k >= MAX_ARITY + 1 ==> assoc_type(types, k) == None::<u32>,
    decreases types.len(),
{
    if types.len() > 0 {
        if types[0].0 == k {
        } else {
            lemma_assoc_type_identity(types.drop_first(), k, skip + 1);
        }
    }
}

/// The identity function table resolves index `f` to `Indirect(f)` exactly
/// under `n`.
proof fn lemma_assoc_func_identity(refs: Seq<(usize, FuncRef)>, f: usize, skip: int, n: int)
    requires
        0 <= skip <= n,
        refs.len() == n - skip,
        forall|i: int| 0 <= i < refs.len() ==> #[trigger] refs[i] == ((i + skip) as usize,
            FuncRef::Indirect((i + skip) as u32)),
        n <= u32::MAX,
    ensures
        skip <= f < n ==> assoc_func(refs, f) == Some(FuncRef::Indirect(f as u32)),
        f >= n ==> assoc_func(refs, f) == None::<FuncRef>,
    decreases refs.len(),
{
    if refs.len() > 0 {
        if refs[0].0 == f {
        } else {
            lemma_assoc_func_identity(refs.drop_first(), f, skip + 1, n);
        }
    }
}

/// The compiler: read-only over one lowered module.
pub struct Compiler {
    pub module: ir::Module,
}

impl Compiler {
    pub fn new(module: ir::Module) -> (r: Self)
        ensures
            r.module == module,
    {
        Compiler { module }
    }

    /// The fixed type table as a section.
    fn type_section() -> (r: Vec<wasm::FuncType>)
        ensures
            r@ == spec_type_table(),
    {
        let mut types: Vec<wasm::FuncType> = Vec::new();
        let mut i: usize = 0;
        while i <= MAX_ARITY
            invariant
                i <= MAX_ARITY + 1,
                types@.len() == i,
                forall|j: int| 0 <= j < i ==> #[trigger] types@[j] == (wasm::FuncType {
                    params: j as usize,
                }),
            decreases MAX_ARITY + 1 - i,
        {
            types.push(wasm::FuncType { params: i });
            i = i + 1;
        }
        proof {
            assert(types@ =~= spec_type_table());
        }
        types
    }

    /// The trampoline body of function `idx`.
    pub fn compile_skeleton_func(&self, idx: usize) -> (r: wasm::FuncBody)
        requires
            idx < self.module.funcs@.len(),
            self.module.funcs@.len() <= i32::MAX,
            self.module.funcs@[idx as int].args_count <= MAX_ARITY,
        ensures
            r.locals@ == Seq::<wasm::Local>::empty(),
            r.instrs@ == spec_trampoline(
                idx as int,
                self.module.funcs@[idx as int].args_count as int,
            ),
    {
        let func_args = self.module.funcs[idx].args_count;
        let mut instrs: Vec<wasm::Instr> = Vec::new();
        let mut j: usize = 0;
        while j < func_args
            invariant
                j <= func_args,
                func_args <= MAX_ARITY,
                instrs@.len() == j,
                forall|a: int| 0 <= a < j ==> #[trigger] instrs@[a] == wasm::Instr::GetLocal(
                    a as u32,
                ),
            decreases func_args - j,
        {
            instrs.push(wasm::Instr::GetLocal(j as u32));
            j = j + 1;
        }
        instrs.push(wasm::Instr::I32Const(idx as i32));
        instrs.push(wasm::Instr::Call(0));
        instrs.push(wasm::Instr::Drop);
        instrs.push(wasm::Instr::I32Const(idx as i32));
        instrs.push(wasm::Instr::CallIndirect(func_args as u32, 0));
        instrs.push(wasm::Instr::End);
        proof {
            assert(instrs@ =~= spec_trampoline(
                idx as int,
                self.module.funcs@[idx as int].args_count as int,
            ));
        }
        wasm::FuncBody { locals: Vec::new(), instrs }
    }

    /// The skeleton module: the fixed types, the `env.compile_func` import,
    /// one trampoline per user function, the shared table pre-filled with
    /// the trampolines, and every function exported under its source name
    /// together with the table as `_table`.
    pub fn compile_skeleton(&self) -> (r: wasm::Module)
        requires
            ir::module_wf(self.module),
            compilable(self.module),
        ensures
            r.types@ == spec_type_table(),
            r.imports@.len() == 1,
            r.imports@[0].module@ == "env"@,
            r.imports@[0].field@ == "compile_func"@,
            r.imports@[0].external == wasm::ExternalDesc::Func(1),
            r.functions@.len() == self.module.funcs@.len(),
            forall|i: int|
                0 <= i < r.functions@.len() ==> #[trigger] r.functions@[i] == self.module.funcs@[
                i].args_count as u32,
            r.tables@ == seq![self.module.funcs@.len() as u32],
            r.exports@.len() == self.module.funcs@.len() + 1,
            forall|i: int|
                0 <= i < self.module.funcs@.len() ==> (#[trigger] r.exports@[i]).field
                    == self.module.funcs@[i].name && r.exports@[i].internal
                    == wasm::InternalDesc::Func((i + 1) as u32),
            r.exports@[self.module.funcs@.len() as int].field@ == "_table"@,
            r.exports@[self.module.funcs@.len() as int].internal == wasm::InternalDesc::Table(0),
            r.elements@.len() == 1,
            r.elements@[0].index == 0,
            r.elements@[0].offset == 0,
            r.elements@[0].members@ == Seq::new(
                self.module.funcs@.len() as nat,
                |i: int| (i + 1) as u32,
            ),
            r.code@.len() == self.module.funcs@.len(),
            forall|i: int|
                0 <= i < r.code@.len() ==> (#[trigger] r.code@[i]).locals@
                    == Seq::<wasm::Local>::empty() && r.code@[i].instrs@ == spec_trampoline(
                    i,
                    self.module.funcs@[i].args_count as int,
                ),
    {
        let n = self.module.funcs.len();
        let types = Self::type_section();

        let mut imports: Vec<wasm::ImportEntry> = Vec::new();
        imports.push(
            wasm::ImportEntry {
                module: "env".to_owned(),
                field: "compile_func".to_owned(),
                external: wasm::ExternalDesc::Func(1),
            },
        );

        let mut functions: Vec<u32> = Vec::new();
        let mut i: usize = 0;
        while i < n
            invariant
                i <= n,
                n == self.module.funcs@.len(),
                compilable(self.module),
                functions@.len() == i,
                forall|j: int|
                    0 <= j < i ==> #[trigger] functions@[j] == self.module.funcs@[j].args_count
                        as u32,
            decreases n - i,
        {
            functions.push(self.module.funcs[i].args_count as u32);
            i = i + 1;
        }

        let mut tables: Vec<u32> = Vec::new();
        tables.push(n as u32);

        let mut exports: Vec<wasm::ExportEntry> = Vec::new();
        let mut i2: usize = 0;
        while i2 < n
            invariant
                i2 <= n,
                n == self.module.funcs@.len(),
                n <= i32::MAX,
                exports@.len() == i2,
                forall|j: int|
                    0 <= j < i2 ==> (#[trigger] exports@[j]).field == self.module.funcs@[j].name
                        && exports@[j].internal == wasm::InternalDesc::Func((j + 1) as u32),
            decreases n - i2,
        {
            let name = self.module.funcs[i2].name.clone();
            exports.push(
                wasm::ExportEntry { field: name, internal: wasm::InternalDesc::Func((i2 + 1) as u32) },
            );
            i2 = i2 + 1;
        }
        exports.push(
            wasm::ExportEntry { field: "_table".to_owned(), internal: wasm::InternalDesc::Table(0) },
        );

        let mut members: Vec<u32> = Vec::new();
        let mut i3: usize = 0;
        while i3 < n
            invariant
                i3 <= n,
                n <= i32::MAX,
                members@.len() == i3,
                forall|j: int| 0 <= j < i3 ==> #[trigger] members@[j] == (j + 1) as u32,
            decreases n - i3,
        {
            members.push((i3 + 1) as u32);
            i3 = i3 + 1;
        }
        proof {
            assert(members@ =~= Seq::new(
                self.module.funcs@.len() as nat,
                |i: int| (i + 1) as u32,
            ));
        }
        let mut elements: Vec<wasm::ElementSegment> = Vec::new();
        elements.push(wasm::ElementSegment { index: 0, offset: 0, members });

        let mut code: Vec<wasm::FuncBody> = Vec::new();
        let mut i4: usize = 0;
        while i4 < n
            invariant
                i4 <= n,
                n == self.module.funcs@.len(),
                n <= i32::MAX,
                compilable(self.module),
                code@.len() == i4,
                forall|j: int|
                    0 <= j < i4 ==> (#[trigger] code@[j]).locals@ == Seq::<wasm::Local>::empty()
                        && code@[j].instrs@ == spec_trampoline(
                        j,
                        self.module.funcs@[j].args_count as int,
                    ),
            decreases n - i4,
        {
            let body = self.compile_skeleton_func(i4);
            code.push(body);
            i4 = i4 + 1;
        }

        wasm::Module { types, imports, functions, tables, exports, elements, code }
    }

    /// The standard translation tables for this module.
    fn make_generator(&self) -> (r: InstrsGenerator)
        requires
            self.module.funcs@.len() <= u32::MAX,
        ensures
            standard_generator(r, self.module.funcs@.len() as int),
    {
        let mut g = InstrsGenerator::new();
        let mut i: usize = 0;
        while i <= MAX_ARITY
            invariant
                i <= MAX_ARITY + 1,
                g.types@.len() == i,
                forall|j: int| 0 <= j < i ==> #[trigger] g.types@[j] == (j as usize, j as u32),
                g.func_refs@.len() == 0,
                g.builtin_func_refs@.len() == 0,
            decreases MAX_ARITY + 1 - i,
        {
            g.types.push((i, i as u32));
            i = i + 1;
        }
        let n = self.module.funcs.len();
        let mut i2: usize = 0;
        while i2 < n
            invariant
                i2 <= n,
                n <= u32::MAX,
                g.types@.len() == MAX_ARITY + 1,
                forall|j: int|
                    0 <= j < MAX_ARITY + 1 ==> #[trigger] g.types@[j] == (j as usize, j as u32),
                g.func_refs@.len() == i2,
                forall|j: int|
                    0 <= j < i2 ==> #[trigger] g.func_refs@[j] == (j as usize, FuncRef::Indirect(
                        j as u32,
                    )),
                g.builtin_func_refs@.len() == 0,
            decreases n - i2,
        {
            g.func_refs.push((i2, FuncRef::Indirect(i2 as u32)));
            i2 = i2 + 1;
        }
        g.builtin_func_refs.push((BuiltinFunc::Println, FuncRef::Direct(0)));
        proof {
            assert(g.types@ =~= Seq::new((MAX_ARITY + 1) as nat, |i: int| (i as usize, i as u32)));
            assert(g.func_refs@ =~= Seq::new(
                self.module.funcs@.len() as nat,
                |i: int| (i as usize, FuncRef::Indirect(i as u32)),
            ));
            assert(g.builtin_func_refs@ =~= seq![(BuiltinFunc::Println, FuncRef::Direct(0u32))]);
        }
        g
    }

    /// The translated body of function `idx`: one run of
    /// `locals_count - args_count` extra `i32` locals (the arguments arrive
    /// as the first `args_count` locals) and the instruction-for-instruction
    /// translation of its IR, closed by `end`.
    pub fn compile_func(&self, idx: usize) -> (r: wasm::FuncBody)
        requires
            idx < self.module.funcs@.len(),
            ir::module_wf(self.module),
            compilable(self.module),
        ensures
            r.locals@ == seq![
                wasm::Local {
                    count: (self.module.funcs@[idx as int].locals_count - self.module.funcs@[
                        idx as int].args_count) as u32,
                },
            ],
            exists|g: InstrsGenerator|
                standard_generator(g, self.module.funcs@.len() as int) && r.instrs@ == #[trigger] wasm_of_seq(
                    g,
                    self.module.funcs@[idx as int].instrs@,
                ).push(wasm::Instr::End),
    {
        let func_instrs = &self.module.funcs[idx].instrs;
        let generator = self.make_generator();
        proof {
            let f = self.module.funcs@[idx as int];
            assert forall|k: int|
                0 <= k < f.instrs@.len() implies crate::wasm_generator::encodable_instr(
                generator,
                #[trigger] f.instrs@[k],
            ) by {
                assert(crate::ir::instr_refs_ok(
                    f.instrs@[k],
                    f.locals_count as int,
                    self.module.funcs@.len() as int,
                ));
                match f.instrs@[k] {
                    ir::Instr::Call { func, args_count } => {
                        lemma_assoc_func_identity(
                            generator.func_refs@,
                            func,
                            0,
                            self.module.funcs@.len() as int,
                        );
                        lemma_assoc_type_identity(generator.types@, args_count, 0);
                    },
                    ir::Instr::Println => {
                        lemma_assoc_type_identity(generator.types@, 1, 0);
                    },
                    _ => {},
                }
            }
        }
        let instrs = generator.gen_instrs(func_instrs);
        let extra = self.module.funcs[idx].locals_count - self.module.funcs[idx].args_count;
        let mut locals: Vec<wasm::Local> = Vec::new();
        locals.push(wasm::Local { count: extra as u32 });
        proof {
            assert(locals@ =~= seq![
                wasm::Local {
                    count: (self.module.funcs@[idx as int].locals_count - self.module.funcs@[
                        idx as int].args_count) as u32,
                },
            ]);
        }
        wasm::FuncBody { locals, instrs }
    }

    /// The per-function module for function `idx`: it imports the host's
    /// `println` and the shared `_table`, defines the one translated
    /// function, and installs it into table slot `idx` so the skeleton's
    /// indirect call resolves to it.
    pub fn compile_func_module(&self, idx: usize) -> (r: wasm::Module)
        requires
            idx < self.module.funcs@.len(),
            ir::module_wf(self.module),
            compilable(self.module),
        ensures
            r.types@ == spec_type_table(),
            r.imports@.len() == 2,
            r.imports@[0].module@ == "env"@,
            r.imports@[0].field@ == "println"@,
            r.imports@[0].external == wasm::ExternalDesc::Func(1),
            r.imports@[1].module@ == "env"@,
            r.imports@[1].field@ == "_table"@,
            r.imports@[1].external == wasm::ExternalDesc::Table(self.module.funcs@.len() as u32),
            r.functions@ == seq![self.module.funcs@[idx as int].args_count as u32],
            r.tables@ == Seq::<u32>::empty(),
            r.exports@ == Seq::<wasm::ExportEntry>::empty(),
            r.elements@.len() == 1,
            r.elements@[0].index == 0,
            r.elements@[0].offset == idx as i32,
            r.elements@[0].members@ == seq![1u32],
            r.code@.len() == 1,
            r.code@[0].locals@ == seq![
                wasm::Local {
                    count: (self.module.funcs@[idx as int].locals_count - self.module.funcs@[
                        idx as int].args_count) as u32,
                },
            ],
            exists|g: InstrsGenerator|
                standard_generator(g, self.module.funcs@.len() as int) && r.code@[0].instrs@
                    == #[trigger] wasm_of_seq(
                    g,
                    self.module.funcs@[idx as int].instrs@,
                ).push(wasm::Instr::End),
    {
        let n = self.module.funcs.len();
        let types = Self::type_section();
        let mut imports: Vec<wasm::ImportEntry> = Vec::new();
        imports.push(
            wasm::ImportEntry {
                module: "env".to_owned(),
                field: "println".to_owned(),
                external: wasm::ExternalDesc::Func(1),
            },
        );
        imports.push(
            wasm::ImportEntry {
                module: "env".to_owned(),
                field: "_table".to_owned(),
                external: wasm::ExternalDesc::Table(n as u32),
            },
        );
        let mut functions: Vec<u32> = Vec::new();
        functions.push(self.module.funcs[idx].args_count as u32);
        let mut members: Vec<u32> = Vec::new();
        members.push(1);
        let mut elements: Vec<wasm::ElementSegment> = Vec::new();
        elements.push(wasm::ElementSegment { index: 0, offset: idx as i32, members });
        let body = self.compile_func(idx);
        let mut code: Vec<wasm::FuncBody> = Vec::new();
        code.push(body);
        proof {
            assert(functions@ =~= seq![self.module.funcs@[idx as int].args_count as u32]);
            assert(elements@[0].members@ =~= seq![1u32]);
        }
        wasm::Module {
            types,
            imports,
            functions,
            tables: Vec::new(),
            exports: Vec::new(),
            elements,
            code,
        }
    }
}

} // verus!
