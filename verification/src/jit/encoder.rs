//! Modules that hold one compiled block.

use crate::jit::wasm;
use crate::jit::wasm::{
    Access, Body, Export, Import, Imported, Instruction, MemArg, Section, Signature, ValType,
};
use vstd::prelude::*;

pub mod imports;

verus! {

/// The code of a block under construction.
pub struct WasmModuleBuilder {
    instructions: Vec<Instruction>,
    num_locals: u32,
    local_types: Vec<(u32, ValType)>,
}

/// Runs of locals with one more local of the given type.
pub open spec fn with_local(runs: Seq<(u32, ValType)>, ty: ValType) -> Seq<(u32, ValType)> {
    if runs.len() > 0 && runs.last().1 == ty {
        runs.update(runs.len() - 1, ((runs.last().0 + 1) as u32, ty))
    } else {
        runs.push((1u32, ty))
    }
}

/// The shared memory that every module imports.
pub open spec fn memory_import() -> Import {
    Import { module: "env"@, field: "memory"@, what: Imported::Memory(1, true) }
}

pub open spec fn helper_import(name: Seq<char>, type_index: u32) -> Import {
    Import { module: "env"@, field: name, what: Imported::Function(type_index) }
}

/// The signature of the compiled function: from the state pointer to the exit value.
pub open spec fn run_signature() -> Signature {
    Signature { params: seq![ValType::I32], results: seq![ValType::I64] }
}

pub open spec fn read_signature(value: ValType) -> Signature {
    Signature { params: seq![ValType::I64], results: seq![value] }
}

pub open spec fn write_signature(value: ValType) -> Signature {
    Signature { params: seq![ValType::I64, value], results: seq![ValType::I32] }
}

/// The function body: the code and the end mark.
pub open spec fn run_body(locals: Seq<(u32, ValType)>, code: Seq<Instruction>) -> Section {
    Section::Code(seq![Body { locals, code: code.push(Instruction::End) }])
}

/// A module that imports the memory alone.
pub open spec fn simple_module(
    locals: Seq<(u32, ValType)>,
    code: Seq<Instruction>,
) -> Seq<Section> {
    seq![
        Section::Types(seq![run_signature()]),
        Section::Imports(seq![memory_import()]),
        Section::Functions(seq![0u32]),
        Section::Exports(seq![Export { name: "run"@, index: 0 }]),
        run_body(locals, code),
    ]
}

pub open spec fn helper_types() -> Seq<Signature> {
    seq![
        run_signature(),
        read_signature(ValType::I64),
        read_signature(ValType::I32),
        read_signature(ValType::I32),
        read_signature(ValType::I32),
        write_signature(ValType::I64),
        write_signature(ValType::I32),
        write_signature(ValType::I32),
        write_signature(ValType::I32),
    ]
}

pub open spec fn helper_imports() -> Seq<Import> {
    seq![
        memory_import(),
        helper_import("read_u64"@, 1),
        helper_import("read_u32"@, 2),
        helper_import("read_u16"@, 3),
        helper_import("read_u8"@, 4),
        helper_import("write_u64"@, 5),
        helper_import("write_u32"@, 6),
        helper_import("write_u16"@, 7),
        helper_import("write_u8"@, 8),
    ]
}

/// A module that imports the memory and the eight memory helpers.
pub open spec fn helper_module(
    locals: Seq<(u32, ValType)>,
    code: Seq<Instruction>,
) -> Seq<Section> {
    seq![
        Section::Types(helper_types()),
        Section::Imports(helper_imports()),
        Section::Functions(seq![0u32]),
        Section::Exports(seq![Export { name: "run"@, index: imports::RUN_FUNC }]),
        run_body(locals, code),
    ]
}

/// The first eight bytes of every module.
pub open spec fn module_header() -> Seq<u8> {
    seq![0u8, 0x61u8, 0x73u8, 0x6du8, 1u8, 0u8, 0u8, 0u8]
}

impl WasmModuleBuilder {
    /// The code so far.
    pub closed spec fn code(&self) -> Seq<Instruction> {
        self.instructions@
    }

    /// The locals so far, in runs of one type.
    pub closed spec fn locals(&self) -> Seq<(u32, ValType)> {
        self.local_types@
    }

    /// How many locals there are so far.
    pub closed spec fn local_count(&self) -> nat {
        self.num_locals as nat
    }

    /// No run is longer than all locals together, and there are no more runs than
    /// locals.
    pub closed spec fn wf(&self) -> bool {
        &&& forall|i: int|
            0 <= i < self.local_types@.len() ==> (#[trigger] self.local_types@[i]).0
                <= self.num_locals
        &&& self.local_types@.len() <= self.num_locals
    }

    pub fn new() -> (builder: Self)
        ensures
            builder.wf(),
            builder.code() == Seq::<Instruction>::empty(),
            builder.locals() == Seq::<(u32, ValType)>::empty(),
            builder.local_count() == 0,
    {
        Self { instructions: Vec::new(), num_locals: 0, local_types: Vec::new() }
    }

    /// Adds a local and gives its index. Index 0 is the parameter.
    pub fn add_local(&mut self, ty: ValType) -> (idx: u32)
        requires
            old(self).wf(),
            old(self).local_count() < u32::MAX,
        ensures
            final(self).wf(),
            idx == old(self).local_count() + 1,
            final(self).local_count() == old(self).local_count() + 1,
            final(self).locals() == with_local(old(self).locals(), ty),
            final(self).code() == old(self).code(),
    {
        self.num_locals = self.num_locals + 1;
        let idx: u32 = self.num_locals;
        let n: usize = self.local_types.len();
        if n > 0 && self.local_types[n - 1].1 == ty {
            let count: u32 = self.local_types[n - 1].0;
            self.local_types.set(n - 1, (count + 1, ty));
            return idx;
        }
        self.local_types.push((1, ty));
        idx
    }

    /// Appends an instruction.
    pub fn emit(&mut self, insn: Instruction)
        ensures
            final(self).code() == old(self).code() + seq![insn],
            final(self).locals() == old(self).locals(),
            final(self).local_count() == old(self).local_count(),
            old(self).wf() ==> final(self).wf(),
    {
        self.instructions.push(insn);
        assert(self.instructions@ =~= old(self).instructions@ + seq![insn]);
    }

    /// Appends instructions.
    pub fn emit_all(&mut self, insns: &[Instruction])
        ensures
            final(self).code() == old(self).code() + insns@,
            final(self).locals() == old(self).locals(),
            final(self).local_count() == old(self).local_count(),
            old(self).wf() ==> final(self).wf(),
    {
        let mut i: usize = 0;
        assert(self.instructions@ =~= old(self).instructions@ + insns@.take(0));
        while i < insns.len()
            invariant
                i <= insns.len(),
                self.instructions@ == old(self).instructions@ + insns@.take(i as int),
                self.local_types == old(self).local_types,
                self.num_locals == old(self).num_locals,
            decreases insns.len() - i,
        {
            self.instructions.push(insns[i]);
            i = i + 1;
            assert(self.instructions@ =~= old(self).instructions@ + insns@.take(i as int));
        }
        assert(insns@.take(i as int) =~= insns@);
    }

    /// A local of the given type; it is always a new one.
    pub fn get_or_create_local(&mut self, ty: ValType) -> (idx: u32)
        requires
            old(self).wf(),
            old(self).local_count() < u32::MAX,
        ensures
            final(self).wf(),
            idx == old(self).local_count() + 1,
            final(self).local_count() == old(self).local_count() + 1,
            final(self).locals() == with_local(old(self).locals(), ty),
            final(self).code() == old(self).code(),
    {
        self.add_local(ty)
    }

    /// Appends a call of the `read_u64` helper.
    pub fn emit_read_u64(&mut self)
        ensures
            final(self).code() == old(self).code() + seq![
                Instruction::Call(imports::READ_U64),
            ],
            final(self).locals() == old(self).locals(),
            final(self).local_count() == old(self).local_count(),
            old(self).wf() ==> final(self).wf(),
    {
        self.emit(Instruction::Call(imports::READ_U64));
    }

    /// Appends a call of the `read_u32` helper.
    pub fn emit_read_u32(&mut self)
        ensures
            final(self).code() == old(self).code() + seq![
                Instruction::Call(imports::READ_U32),
            ],
            final(self).locals() == old(self).locals(),
            final(self).local_count() == old(self).local_count(),
            old(self).wf() ==> final(self).wf(),
    {
        self.emit(Instruction::Call(imports::READ_U32));
    }

    /// Appends a call of the `read_u16` helper.
    pub fn emit_read_u16(&mut self)
        ensures
            final(self).code() == old(self).code() + seq![
                Instruction::Call(imports::READ_U16),
            ],
            final(self).locals() == old(self).locals(),
            final(self).local_count() == old(self).local_count(),
            old(self).wf() ==> final(self).wf(),
    {
        self.emit(Instruction::Call(imports::READ_U16));
    }

    /// Appends a call of the `read_u8` helper.
    pub fn emit_read_u8(&mut self)
        ensures
            final(self).code() == old(self).code() + seq![
                Instruction::Call(imports::READ_U8),
            ],
            final(self).locals() == old(self).locals(),
            final(self).local_count() == old(self).local_count(),
            old(self).wf() ==> final(self).wf(),
    {
        self.emit(Instruction::Call(imports::READ_U8));
    }

    /// Appends a call of the `write_u64` helper.
    pub fn emit_write_u64(&mut self)
        ensures
            final(self).code() == old(self).code() + seq![
                Instruction::Call(imports::WRITE_U64),
            ],
            final(self).locals() == old(self).locals(),
            final(self).local_count() == old(self).local_count(),
            old(self).wf() ==> final(self).wf(),
    {
        self.emit(Instruction::Call(imports::WRITE_U64));
    }

    /// Appends a call of the `write_u32` helper.
    pub fn emit_write_u32(&mut self)
        ensures
            final(self).code() == old(self).code() + seq![
                Instruction::Call(imports::WRITE_U32),
            ],
            final(self).locals() == old(self).locals(),
            final(self).local_count() == old(self).local_count(),
            old(self).wf() ==> final(self).wf(),
    {
        self.emit(Instruction::Call(imports::WRITE_U32));
    }

    /// Appends a call of the `write_u16` helper.
    pub fn emit_write_u16(&mut self)
        ensures
            final(self).code() == old(self).code() + seq![
                Instruction::Call(imports::WRITE_U16),
            ],
            final(self).locals() == old(self).locals(),
            final(self).local_count() == old(self).local_count(),
            old(self).wf() ==> final(self).wf(),
    {
        self.emit(Instruction::Call(imports::WRITE_U16));
    }

    /// Appends a call of the `write_u8` helper.
    pub fn emit_write_u8(&mut self)
        ensures
            final(self).code() == old(self).code() + seq![
                Instruction::Call(imports::WRITE_U8),
            ],
            final(self).locals() == old(self).locals(),
            final(self).local_count() == old(self).local_count(),
            old(self).wf() ==> final(self).wf(),
    {
        self.emit(Instruction::Call(imports::WRITE_U8));
    }

    /// Appends a 64-bit load from the shared memory at `offset` from a base on the stack,
    /// without address translation.
    pub fn emit_direct_load_i64(&mut self, offset: u64)
        ensures
            final(self).code() == old(self).code() + seq![
                Instruction::Memory(Access::I64Load, MemArg { offset, align: 3, memory_index: 0 }),
            ],
            final(self).locals() == old(self).locals(),
            final(self).local_count() == old(self).local_count(),
            old(self).wf() ==> final(self).wf(),
    {
        self.emit(Instruction::Memory(Access::I64Load, MemArg { offset, align: 3, memory_index: 0 }));
    }

    /// Appends a 32-bit load from the shared memory at `offset` from a base on the stack,
    /// without address translation.
    pub fn emit_direct_load_i32(&mut self, offset: u64)
        ensures
            final(self).code() == old(self).code() + seq![
                Instruction::Memory(Access::I32Load, MemArg { offset, align: 2, memory_index: 0 }),
            ],
            final(self).locals() == old(self).locals(),
            final(self).local_count() == old(self).local_count(),
            old(self).wf() ==> final(self).wf(),
    {
        self.emit(Instruction::Memory(Access::I32Load, MemArg { offset, align: 2, memory_index: 0 }));
    }

    /// Appends a 64-bit store to the shared memory at `offset` from a base on the stack,
    /// without address translation.
    pub fn emit_direct_store_i64(&mut self, offset: u64)
        ensures
            final(self).code() == old(self).code() + seq![
                Instruction::Memory(Access::I64Store, MemArg { offset, align: 3, memory_index: 0 }),
            ],
            final(self).locals() == old(self).locals(),
            final(self).local_count() == old(self).local_count(),
            old(self).wf() ==> final(self).wf(),
    {
        self.emit(Instruction::Memory(Access::I64Store, MemArg { offset, align: 3, memory_index: 0 }));
    }

    /// Appends a 32-bit store to the shared memory at `offset` from a base on the stack,
    /// without address translation.
    pub fn emit_direct_store_i32(&mut self, offset: u64)
        ensures
            final(self).code() == old(self).code() + seq![
                Instruction::Memory(Access::I32Store, MemArg { offset, align: 2, memory_index: 0 }),
            ],
            final(self).locals() == old(self).locals(),
            final(self).local_count() == old(self).local_count(),
            old(self).wf() ==> final(self).wf(),
    {
        self.emit(Instruction::Memory(Access::I32Store, MemArg { offset, align: 2, memory_index: 0 }));
    }

    /// Starts a function body with the code so far and its end mark.
    fn body(&self) -> (f: wasm_encoder::Function)
        requires
            self.wf(),
            self.code().len() < wasm::MAX_BODY,
            self.local_count() <= wasm::MAX_BODY,
        ensures
            wasm::body_locals(f) == self.locals(),
            wasm::body_code(f) == self.code().push(Instruction::End),
    {
        let mut f = wasm::new_body(self.local_types.as_slice());
        let mut i: usize = 0;
        assert(self.instructions@.take(0) =~= Seq::<Instruction>::empty());
        while i < self.instructions.len()
            invariant
                i <= self.instructions.len(),
                wasm::body_locals(f) == self.local_types@,
                wasm::body_code(f) == self.instructions@.take(i as int),
            decreases self.instructions.len() - i,
        {
            wasm::append(&mut f, self.instructions[i]);
            i = i + 1;
            assert(self.instructions@.take(i as int) =~= self.instructions@.take(i - 1).push(
                self.instructions@[i - 1],
            ));
        }
        assert(self.instructions@.take(i as int) =~= self.instructions@);
        wasm::append(&mut f, Instruction::End);
        f
    }

    /// Appends the function, export and code sections, which all modules have alike but
    /// for the index of the exported function.
    fn finish(&self, module: wasm_encoder::Module, index: u32) -> (bytes: Vec<u8>)
        requires
            self.wf(),
            self.code().len() < wasm::MAX_BODY,
            self.local_count() <= wasm::MAX_BODY,
        ensures
            bytes@ == wasm::module_bytes(
                wasm::module_sections(module) + seq![
                    Section::Functions(seq![0u32]),
                    Section::Exports(seq![Export { name: "run"@, index }]),
                    run_body(self.locals(), self.code()),
                ],
            ),
            bytes@.len() >= 8,
            bytes@.take(8) == module_header(),
    {
        proof {
            reveal_strlit("run");
        }
        let mut module = module;
        let ghost before = wasm::module_sections(module);
        let mut functions = wasm::new_functions();
        wasm::declare_function(&mut functions, 0);
        wasm::add_functions(&mut module, &functions);
        let mut exports = wasm::new_exports();
        wasm::export_function(&mut exports, "run", index);
        wasm::add_exports(&mut module, &exports);
        let f = self.body();
        let mut codes = wasm::new_code();
        wasm::add_body(&mut codes, &f);
        wasm::add_code(&mut module, &codes);
        proof {
            assert(wasm::function_entries(functions) =~= seq![0u32]);
            assert(wasm::export_entries(exports) =~= seq![Export { name: "run"@, index }]);
            assert(wasm::code_entries(codes) =~= seq![
                Body { locals: self.locals(), code: self.code().push(Instruction::End) },
            ]);
            assert(wasm::module_sections(module) =~= before + seq![
                Section::Functions(seq![0u32]),
                Section::Exports(seq![Export { name: "run"@, index }]),
                run_body(self.locals(), self.code()),
            ]);
        }
        wasm::finish_module(module)
    }

    /// The module with the memory import alone.
    pub fn build(self) -> (bytes: Vec<u8>)
        requires
            self.wf(),
            self.code().len() < wasm::MAX_BODY,
            self.local_count() <= wasm::MAX_BODY,
        ensures
            bytes@ == wasm::module_bytes(simple_module(self.locals(), self.code())),
            bytes@.len() >= 8,
            bytes@.take(8) == module_header(),
    {
        proof {
            reveal_strlit("env");
            reveal_strlit("memory");
        }
        let mut module = wasm::new_module();
        let mut types = wasm::new_types();
        wasm::add_type(&mut types, &[ValType::I32], &[ValType::I64]);
        wasm::add_types(&mut module, &types);
        let mut imported = wasm::new_imports();
        wasm::import_memory(&mut imported, "env", "memory", 1, true);
        wasm::add_imports(&mut module, &imported);
        proof {
            assert(wasm::type_entries(types) =~~= seq![run_signature()]);
            assert(wasm::import_entries(imported) =~= seq![memory_import()]);
            assert(wasm::module_sections(module) + seq![
                Section::Functions(seq![0u32]),
                Section::Exports(seq![Export { name: "run"@, index: 0 }]),
                run_body(self.locals(), self.code()),
            ] =~= simple_module(self.locals(), self.code()));
        }
        self.finish(module, 0)
    }

    /// The module with the memory import and the memory helpers.
    pub fn build_with_imports(self) -> (bytes: Vec<u8>)
        requires
            self.wf(),
            self.code().len() < wasm::MAX_BODY,
            self.local_count() <= wasm::MAX_BODY,
        ensures
            bytes@ == wasm::module_bytes(helper_module(self.locals(), self.code())),
            bytes@.len() >= 8,
            bytes@.take(8) == module_header(),
    {
        proof {
            reveal_strlit("env");
            reveal_strlit("memory");
            reveal_strlit("read_u64");
            reveal_strlit("read_u32");
            reveal_strlit("read_u16");
            reveal_strlit("read_u8");
            reveal_strlit("write_u64");
            reveal_strlit("write_u32");
            reveal_strlit("write_u16");
            reveal_strlit("write_u8");
        }
        let mut module = wasm::new_module();
        let mut types = wasm::new_types();
        wasm::add_type(&mut types, &[ValType::I32], &[ValType::I64]);
        wasm::add_type(&mut types, &[ValType::I64], &[ValType::I64]);
        wasm::add_type(&mut types, &[ValType::I64], &[ValType::I32]);
        wasm::add_type(&mut types, &[ValType::I64], &[ValType::I32]);
        wasm::add_type(&mut types, &[ValType::I64], &[ValType::I32]);
        wasm::add_type(&mut types, &[ValType::I64, ValType::I64], &[ValType::I32]);
        wasm::add_type(&mut types, &[ValType::I64, ValType::I32], &[ValType::I32]);
        wasm::add_type(&mut types, &[ValType::I64, ValType::I32], &[ValType::I32]);
        wasm::add_type(&mut types, &[ValType::I64, ValType::I32], &[ValType::I32]);
        wasm::add_types(&mut module, &types);
        let mut imported = wasm::new_imports();
        wasm::import_memory(&mut imported, "env", "memory", 1, true);
        wasm::import_function(&mut imported, "env", "read_u64", 1);
        wasm::import_function(&mut imported, "env", "read_u32", 2);
        wasm::import_function(&mut imported, "env", "read_u16", 3);
        wasm::import_function(&mut imported, "env", "read_u8", 4);
        wasm::import_function(&mut imported, "env", "write_u64", 5);
        wasm::import_function(&mut imported, "env", "write_u32", 6);
        wasm::import_function(&mut imported, "env", "write_u16", 7);
        wasm::import_function(&mut imported, "env", "write_u8", 8);
        wasm::add_imports(&mut module, &imported);
        proof {
            assert(wasm::type_entries(types) =~~= helper_types());
            assert(wasm::import_entries(imported) =~= helper_imports());
            assert(wasm::module_sections(module) + seq![
                Section::Functions(seq![0u32]),
                Section::Exports(seq![Export { name: "run"@, index: imports::RUN_FUNC }]),
                run_body(self.locals(), self.code()),
            ] =~= helper_module(self.locals(), self.code()));
        }
        self.finish(module, imports::RUN_FUNC)
    }
}

impl Default for WasmModuleBuilder {
    fn default() -> (builder: Self)
        ensures
            builder.wf(),
            builder.code() == Seq::<Instruction>::empty(),
            builder.locals() == Seq::<(u32, ValType)>::empty(),
            builder.local_count() == 0,
    {
        Self::new()
    }
}

/// A module that imports helpers gives each of them its index and its signature: an address of
/// 64 bits goes in, before the value of a store, and a value or a code comes out.
pub proof fn law_helpers_have_their_places(locals: Seq<(u32, ValType)>, code: Seq<Instruction>)
    ensures
        ({
            let names = helper_imports();
            let kind = |i: int| helper_types()[names[i].what->Function_0 as int];
            let function = |index: u32, name: Seq<char>|
                names[index + 1].field == name && names[index + 1].module == "env"@ && names[index
                    + 1].what is Function;
            &&& names.len() == 9
            &&& names[0].what is Memory && names[0].field == "memory"@ && names[0].module == "env"@
            &&& function(0, "read_u64"@) && function(1, "read_u32"@)
            &&& function(2, "read_u16"@) && function(3, "read_u8"@)
            &&& function(4, "write_u64"@) && function(5, "write_u32"@)
            &&& function(6, "write_u16"@) && function(7, "write_u8"@)
            &&& forall|i: int|
                1 <= i < 9 ==> (#[trigger] kind(i)).params[0] == ValType::I64 && kind(
                    i,
                ).results.len() == 1
            &&& forall|i: int|
                1 <= i < 5 ==> (#[trigger] kind(i)).params.len() == 1 && kind(i).results[0] == (
                if i == 1 {
                    ValType::I64
                } else {
                    ValType::I32
                })
            &&& forall|i: int|
                5 <= i < 9 ==> (#[trigger] kind(i)).params.len() == 2 && kind(i).params[1] == (
                if i == 5 {
                    ValType::I64
                } else {
                    ValType::I32
                }) && kind(i).results[0] == ValType::I32
        }),
{
}

/// Both kinds of module export one function, which takes the place of the state and returns
/// the exit value; its body is the code and an end.
pub proof fn law_modules_export_their_code(locals: Seq<(u32, ValType)>, code: Seq<Instruction>)
    ensures
        ({
            let small = simple_module(locals, code);
            let large = helper_module(locals, code);
            let body = Section::Code(seq![Body { locals, code: code.push(Instruction::End) }]);
            let signature = Signature {
                params: seq![ValType::I32],
                results: seq![ValType::I64],
            };
            &&& small.len() == 5 && large.len() == 5
            &&& small[0] == Section::Types(seq![signature])
            &&& large[0] matches Section::Types(types) && types[0] == signature
            &&& small[2] == Section::Functions(seq![0u32])
            &&& large[2] == Section::Functions(seq![0u32])
            &&& small[3] == Section::Exports(seq![Export { name: "run"@, index: 0 }])
            &&& large[3] == Section::Exports(seq![Export { name: "run"@, index: 8 }])
            &&& small[4] == body && large[4] == body
            &&& small[1] matches Section::Imports(imports) && imports.len() == 1
            &&& large[1] matches Section::Imports(imports) && imports.len() == 9
        }),
{
}

/// One local more is counted: the sum of the runs grows by one, and the last run is of its
/// type.
pub proof fn law_locals_are_counted(runs: Seq<(u32, ValType)>, ty: ValType)
    requires
        runs.len() > 0 ==> runs.last().0 < u32::MAX,
    ensures
        ({
            let t = with_local(runs, ty);
            &&& t.len() > 0
            &&& t.last().1 == ty
            &&& runs.len() > 0 && runs.last().1 == ty ==> t.len() == runs.len() && t.last().0
                == runs.last().0 + 1
            &&& runs.len() == 0 || runs.last().1 != ty ==> t == runs.push((1u32, ty))
        }),
{
}

} // verus!
