//! WebAssembly instructions, and the encoder that turns them into a module.
//!
//! The encoding itself is that of the `wasm-encoder` crate. Its sections and
//! function bodies can only be appended to; a name for each says what was appended.

use vstd::prelude::*;

verus! {

/// A value type.
#[derive(Debug, Clone, Copy, PartialEq, Eq, Structural)]
pub enum ValType {
    I32,
    I64,
}

/// The type of a structured block.
#[derive(Debug, Clone, Copy, PartialEq, Eq, Structural)]
pub enum BlockType {
    Empty,
    Result(ValType),
}

/// The immediate operand of a memory access.
#[derive(Debug, Clone, Copy, PartialEq, Eq, Structural)]
pub struct MemArg {
    pub offset: u64,
    pub align: u32,
    pub memory_index: u32,
}

/// Operations that take two `i64` and give one.
#[derive(Debug, Clone, Copy, PartialEq, Eq, Structural)]
pub enum I64Op {
    Add,
    Sub,
    Mul,
    DivS,
    DivU,
    RemS,
    RemU,
    And,
    Or,
    Xor,
    Shl,
    ShrS,
    ShrU,
}

/// Tests of `i64` that give an `i32` truth value. `Eqz` takes one operand, the
/// others two.
#[derive(Debug, Clone, Copy, PartialEq, Eq, Structural)]
pub enum I64Test {
    Eqz,
    Eq,
    Ne,
    LtS,
    LtU,
    GeS,
    GeU,
}

/// Operations on `i32` that give an `i32`. `Eqz` takes one operand, the others two.
#[derive(Debug, Clone, Copy, PartialEq, Eq, Structural)]
pub enum I32Op {
    Add,
    Mul,
    DivS,
    DivU,
    RemS,
    RemU,
    And,
    Shl,
    ShrS,
    ShrU,
    Eqz,
    Eq,
}

/// Conversions between the two widths.
#[derive(Debug, Clone, Copy, PartialEq, Eq, Structural)]
pub enum Convert {
    I32WrapI64,
    I64ExtendI32S,
    I64ExtendI32U,
}

/// The accesses to memory.
#[derive(Debug, Clone, Copy, PartialEq, Eq, Structural)]
pub enum Access {
    I64Load,
    I64Store,
    I32Load,
    I32Load8U,
    I32Store,
}

/// The instructions that the compiler emits.
#[derive(Debug, Clone, Copy, PartialEq, Eq, Structural)]
pub enum Instruction {
    I32Const(i32),
    I64Const(i64),
    LocalGet(u32),
    LocalSet(u32),
    LocalTee(u32),
    I64(I64Op),
    Test(I64Test),
    I32(I32Op),
    Convert(Convert),
    Memory(Access, MemArg),
    Block(BlockType),
    If(BlockType),
    Else,
    End,
    Br(u32),
    BrIf(u32),
    Call(u32),
    Return,
    Drop,
}

/// A function signature.
#[verifier::ext_equal]
pub struct Signature {
    pub params: Seq<ValType>,
    pub results: Seq<ValType>,
}

/// What is imported under a name.
pub enum Imported {
    /// A memory of at least that many pages, shared or not.
    Memory(u64, bool),
    /// A function of that type.
    Function(u32),
}

/// An import.
#[verifier::ext_equal]
pub struct Import {
    pub module: Seq<char>,
    pub field: Seq<char>,
    pub what: Imported,
}

/// An exported function.
#[verifier::ext_equal]
pub struct Export {
    pub name: Seq<char>,
    pub index: u32,
}

/// The body of a function: runs of locals of one type, and the code.
#[verifier::ext_equal]
pub struct Body {
    pub locals: Seq<(u32, ValType)>,
    pub code: Seq<Instruction>,
}

/// A section of a module.
#[verifier::ext_equal]
pub enum Section {
    Types(Seq<Signature>),
    Imports(Seq<Import>),
    Functions(Seq<u32>),
    Exports(Seq<Export>),
    Code(Seq<Body>),
}

/// How many entries a section may get, and how many characters a name may have,
/// so that no length in the module outgrows 32 bits.
pub const MAX_ENTRIES: usize = 1000;

/// How many instructions, or runs of locals, a function body may have, so that its
/// length does not outgrow 32 bits.
pub const MAX_BODY: usize = 0x0400_0000;

#[verifier::external_type_specification]
#[verifier::external_body]
pub struct ExModule(wasm_encoder::Module);

#[verifier::external_type_specification]
#[verifier::external_body]
pub struct ExTypeSection(wasm_encoder::TypeSection);

#[verifier::external_type_specification]
#[verifier::external_body]
pub struct ExImportSection(wasm_encoder::ImportSection);

#[verifier::external_type_specification]
#[verifier::external_body]
pub struct ExFunctionSection(wasm_encoder::FunctionSection);

#[verifier::external_type_specification]
#[verifier::external_body]
pub struct ExExportSection(wasm_encoder::ExportSection);

#[verifier::external_type_specification]
#[verifier::external_body]
pub struct ExCodeSection(wasm_encoder::CodeSection);

#[verifier::external_type_specification]
#[verifier::external_body]
pub struct ExFunction(wasm_encoder::Function);

/// The sections that were written into a module.
pub uninterp spec fn module_sections(m: wasm_encoder::Module) -> Seq<Section>;

/// The signatures that were written into a type section.
pub uninterp spec fn type_entries(s: wasm_encoder::TypeSection) -> Seq<Signature>;

/// The imports that were written into an import section.
pub uninterp spec fn import_entries(s: wasm_encoder::ImportSection) -> Seq<Import>;

/// The type indices that were written into a function section.
pub uninterp spec fn function_entries(s: wasm_encoder::FunctionSection) -> Seq<u32>;

/// The exports that were written into an export section.
pub uninterp spec fn export_entries(s: wasm_encoder::ExportSection) -> Seq<Export>;

/// The bodies that were written into a code section.
pub uninterp spec fn code_entries(s: wasm_encoder::CodeSection) -> Seq<Body>;

/// The locals of a function body.
pub uninterp spec fn body_locals(f: wasm_encoder::Function) -> Seq<(u32, ValType)>;

/// The instructions that were written into a function body.
pub uninterp spec fn body_code(f: wasm_encoder::Function) -> Seq<Instruction>;

/// The bytes of a module with the given sections.
pub uninterp spec fn module_bytes(sections: Seq<Section>) -> Seq<u8>;

/// `Module::new` begins a module without sections.
#[verifier::external_body]
pub(crate) fn new_module() -> (m: wasm_encoder::Module)
    ensures
        module_sections(m) == Seq::<Section>::empty(),
{
    wasm_encoder::Module::new()
}

/// `Module::section` appends a section; here a type section.
#[verifier::external_body]
pub(crate) fn add_types(m: &mut wasm_encoder::Module, s: &wasm_encoder::TypeSection)
    requires
        type_entries(*s).len() <= MAX_ENTRIES,
    ensures
        module_sections(*final(m)) == module_sections(*old(m)).push(
            Section::Types(type_entries(*s)),
        ),
{
    m.section(s);
}

/// `Module::section` appends a section; here an import section.
#[verifier::external_body]
pub(crate) fn add_imports(m: &mut wasm_encoder::Module, s: &wasm_encoder::ImportSection)
    requires
        import_entries(*s).len() <= MAX_ENTRIES,
    ensures
        module_sections(*final(m)) == module_sections(*old(m)).push(
            Section::Imports(import_entries(*s)),
        ),
{
    m.section(s);
}

/// `Module::section` appends a section; here a function section.
#[verifier::external_body]
pub(crate) fn add_functions(m: &mut wasm_encoder::Module, s: &wasm_encoder::FunctionSection)
    requires
        function_entries(*s).len() <= MAX_ENTRIES,
    ensures
        module_sections(*final(m)) == module_sections(*old(m)).push(
            Section::Functions(function_entries(*s)),
        ),
{
    m.section(s);
}

/// `Module::section` appends a section; here an export section.
#[verifier::external_body]
pub(crate) fn add_exports(m: &mut wasm_encoder::Module, s: &wasm_encoder::ExportSection)
    requires
        export_entries(*s).len() <= MAX_ENTRIES,
    ensures
        module_sections(*final(m)) == module_sections(*old(m)).push(
            Section::Exports(export_entries(*s)),
        ),
{
    m.section(s);
}

/// `Module::section` appends a section; here a code section of one function.
#[verifier::external_body]
pub(crate) fn add_code(m: &mut wasm_encoder::Module, s: &wasm_encoder::CodeSection)
    requires
        code_entries(*s).len() == 1,
        code_entries(*s)[0].locals.len() <= MAX_BODY,
        code_entries(*s)[0].code.len() <= MAX_BODY,
    ensures
        module_sections(*final(m)) == module_sections(*old(m)).push(
            Section::Code(code_entries(*s)),
        ),
{
    m.section(s);
}

/// `Module::finish` gives the encoded module. The bytes depend on the sections
/// alone, and begin with the magic number and the version.
#[verifier::external_body]
pub(crate) fn finish_module(m: wasm_encoder::Module) -> (bytes: Vec<u8>)
    ensures
        bytes@ == module_bytes(module_sections(m)),
        bytes@.len() >= 8,
        bytes@.take(8) == seq![0u8, 0x61u8, 0x73u8, 0x6du8, 1u8, 0u8, 0u8, 0u8],
{
    m.finish()
}

/// `TypeSection::new` begins an empty section.
#[verifier::external_body]
pub(crate) fn new_types() -> (s: wasm_encoder::TypeSection)
    ensures
        type_entries(s) == Seq::<Signature>::empty(),
{
    wasm_encoder::TypeSection::new()
}

/// `TypeSection::ty` and `CoreTypeEncoder::function` append a signature.
#[verifier::external_body]
pub(crate) fn add_type(s: &mut wasm_encoder::TypeSection, params: &[ValType], results: &[ValType])
    requires
        type_entries(*old(s)).len() < MAX_ENTRIES,
        params.len() <= MAX_ENTRIES,
        results.len() <= MAX_ENTRIES,
    ensures
        type_entries(*final(s)) == type_entries(*old(s)).push(
            Signature { params: params@, results: results@ },
        ),
{
    let convert = |t: &ValType| match t {
        ValType::I32 => wasm_encoder::ValType::I32,
        ValType::I64 => wasm_encoder::ValType::I64,
    };
    s.ty().function(params.iter().map(convert), results.iter().map(convert));
}

/// `ImportSection::new` begins an empty section.
#[verifier::external_body]
pub(crate) fn new_imports() -> (s: wasm_encoder::ImportSection)
    ensures
        import_entries(s) == Seq::<Import>::empty(),
{
    wasm_encoder::ImportSection::new()
}

/// `ImportSection::import` appends an import; here a 32-bit memory of the default
/// page size without an upper bound.
#[verifier::external_body]
pub(crate) fn import_memory(
    s: &mut wasm_encoder::ImportSection,
    module: &str,
    field: &str,
    minimum: u64,
    shared: bool,
)
    requires
        import_entries(*old(s)).len() < MAX_ENTRIES,
        module@.len() <= MAX_ENTRIES,
        field@.len() <= MAX_ENTRIES,
    ensures
        import_entries(*final(s)) == import_entries(*old(s)).push(
            Import { module: module@, field: field@, what: Imported::Memory(minimum, shared) },
        ),
{
    s.import(module, field, wasm_encoder::MemoryType {
        minimum,
        maximum: None,
        memory64: false,
        shared,
        page_size_log2: None,
    });
}

/// `ImportSection::import` appends an import; here a function.
#[verifier::external_body]
pub(crate) fn import_function(
    s: &mut wasm_encoder::ImportSection,
    module: &str,
    field: &str,
    type_index: u32,
)
    requires
        import_entries(*old(s)).len() < MAX_ENTRIES,
        module@.len() <= MAX_ENTRIES,
        field@.len() <= MAX_ENTRIES,
    ensures
        import_entries(*final(s)) == import_entries(*old(s)).push(
            Import { module: module@, field: field@, what: Imported::Function(type_index) },
        ),
{
    s.import(module, field, wasm_encoder::EntityType::Function(type_index));
}

/// `FunctionSection::new` begins an empty section.
#[verifier::external_body]
pub(crate) fn new_functions() -> (s: wasm_encoder::FunctionSection)
    ensures
        function_entries(s) == Seq::<u32>::empty(),
{
    wasm_encoder::FunctionSection::new()
}

/// `FunctionSection::function` declares a function of the given type.
#[verifier::external_body]
pub(crate) fn declare_function(s: &mut wasm_encoder::FunctionSection, type_index: u32)
    requires
        function_entries(*old(s)).len() < MAX_ENTRIES,
    ensures
        function_entries(*final(s)) == function_entries(*old(s)).push(type_index),
{
    s.function(type_index);
}

/// `ExportSection::new` begins an empty section.
#[verifier::external_body]
pub(crate) fn new_exports() -> (s: wasm_encoder::ExportSection)
    ensures
        export_entries(s) == Seq::<Export>::empty(),
{
    wasm_encoder::ExportSection::new()
}

/// `ExportSection::export` appends an export; here of a function.
#[verifier::external_body]
pub(crate) fn export_function(s: &mut wasm_encoder::ExportSection, name: &str, index: u32)
    requires
        export_entries(*old(s)).len() < MAX_ENTRIES,
        name@.len() <= MAX_ENTRIES,
    ensures
        export_entries(*final(s)) == export_entries(*old(s)).push(Export { name: name@, index }),
{
    s.export(name, wasm_encoder::ExportKind::Func, index);
}

/// `CodeSection::new` begins an empty section.
#[verifier::external_body]
pub(crate) fn new_code() -> (s: wasm_encoder::CodeSection)
    ensures
        code_entries(s) == Seq::<Body>::empty(),
{
    wasm_encoder::CodeSection::new()
}

/// `CodeSection::function` appends a function body.
#[verifier::external_body]
pub(crate) fn add_body(s: &mut wasm_encoder::CodeSection, f: &wasm_encoder::Function)
    requires
        code_entries(*old(s)).len() < MAX_ENTRIES,
        body_locals(*f).len() <= MAX_BODY,
        body_code(*f).len() <= MAX_BODY,
    ensures
        code_entries(*final(s)) == code_entries(*old(s)).push(
            Body { locals: body_locals(*f), code: body_code(*f) },
        ),
{
    s.function(f);
}

/// `Function::new` begins a body with the given runs of locals and no code.
#[verifier::external_body]
pub(crate) fn new_body(locals: &[(u32, ValType)]) -> (f: wasm_encoder::Function)
    requires
        locals.len() <= MAX_BODY,
    ensures
        body_locals(f) == locals@,
        body_code(f) == Seq::<Instruction>::empty(),
{
    wasm_encoder::Function::new(locals.iter().map(|run| (run.0, match run.1 {
        ValType::I32 => wasm_encoder::ValType::I32,
        ValType::I64 => wasm_encoder::ValType::I64,
    })))
}

/// That `after` is `before` with one instruction appended.
pub open spec fn appended(
    before: wasm_encoder::Function,
    after: wasm_encoder::Function,
    insn: Instruction,
) -> bool {
    &&& body_locals(after) == body_locals(before)
    &&& body_code(after) == body_code(before).push(insn)
}

/// `Function::instruction` appends an instruction; here one on two `i64`.
#[verifier::external_body]
fn append_i64(f: &mut wasm_encoder::Function, op: I64Op)
    ensures
        appended(*old(f), *final(f), Instruction::I64(op)),
{
    f.instruction(&match op {
        I64Op::Add => wasm_encoder::Instruction::I64Add,
        I64Op::Sub => wasm_encoder::Instruction::I64Sub,
        I64Op::Mul => wasm_encoder::Instruction::I64Mul,
        I64Op::DivS => wasm_encoder::Instruction::I64DivS,
        I64Op::DivU => wasm_encoder::Instruction::I64DivU,
        I64Op::RemS => wasm_encoder::Instruction::I64RemS,
        I64Op::RemU => wasm_encoder::Instruction::I64RemU,
        I64Op::And => wasm_encoder::Instruction::I64And,
        I64Op::Or => wasm_encoder::Instruction::I64Or,
        I64Op::Xor => wasm_encoder::Instruction::I64Xor,
        I64Op::Shl => wasm_encoder::Instruction::I64Shl,
        I64Op::ShrS => wasm_encoder::Instruction::I64ShrS,
        I64Op::ShrU => wasm_encoder::Instruction::I64ShrU,
    });
}

/// `Function::instruction` appends an instruction; here a test of `i64`.
#[verifier::external_body]
fn append_test(f: &mut wasm_encoder::Function, op: I64Test)
    ensures
        appended(*old(f), *final(f), Instruction::Test(op)),
{
    f.instruction(&match op {
        I64Test::Eqz => wasm_encoder::Instruction::I64Eqz,
        I64Test::Eq => wasm_encoder::Instruction::I64Eq,
        I64Test::Ne => wasm_encoder::Instruction::I64Ne,
        I64Test::LtS => wasm_encoder::Instruction::I64LtS,
        I64Test::LtU => wasm_encoder::Instruction::I64LtU,
        I64Test::GeS => wasm_encoder::Instruction::I64GeS,
        I64Test::GeU => wasm_encoder::Instruction::I64GeU,
    });
}

/// `Function::instruction` appends an instruction; here one on `i32`.
#[verifier::external_body]
fn append_i32(f: &mut wasm_encoder::Function, op: I32Op)
    ensures
        appended(*old(f), *final(f), Instruction::I32(op)),
{
    f.instruction(&match op {
        I32Op::Add => wasm_encoder::Instruction::I32Add,
        I32Op::Mul => wasm_encoder::Instruction::I32Mul,
        I32Op::DivS => wasm_encoder::Instruction::I32DivS,
        I32Op::DivU => wasm_encoder::Instruction::I32DivU,
        I32Op::RemS => wasm_encoder::Instruction::I32RemS,
        I32Op::RemU => wasm_encoder::Instruction::I32RemU,
        I32Op::And => wasm_encoder::Instruction::I32And,
        I32Op::Shl => wasm_encoder::Instruction::I32Shl,
        I32Op::ShrS => wasm_encoder::Instruction::I32ShrS,
        I32Op::ShrU => wasm_encoder::Instruction::I32ShrU,
        I32Op::Eqz => wasm_encoder::Instruction::I32Eqz,
        I32Op::Eq => wasm_encoder::Instruction::I32Eq,
    });
}

/// `Function::instruction` appends an instruction; here a conversion.
#[verifier::external_body]
fn append_convert(f: &mut wasm_encoder::Function, op: Convert)
    ensures
        appended(*old(f), *final(f), Instruction::Convert(op)),
{
    f.instruction(&match op {
        Convert::I32WrapI64 => wasm_encoder::Instruction::I32WrapI64,
        Convert::I64ExtendI32S => wasm_encoder::Instruction::I64ExtendI32S,
        Convert::I64ExtendI32U => wasm_encoder::Instruction::I64ExtendI32U,
    });
}

/// `Function::instruction` appends an instruction; here an access to memory.
#[verifier::external_body]
fn append_memory(f: &mut wasm_encoder::Function, op: Access, at: MemArg)
    ensures
        appended(*old(f), *final(f), Instruction::Memory(op, at)),
{
    let m = wasm_encoder::MemArg {
        offset: at.offset,
        align: at.align,
        memory_index: at.memory_index,
    };
    f.instruction(&match op {
        Access::I64Load => wasm_encoder::Instruction::I64Load(m),
        Access::I64Store => wasm_encoder::Instruction::I64Store(m),
        Access::I32Load => wasm_encoder::Instruction::I32Load(m),
        Access::I32Load8U => wasm_encoder::Instruction::I32Load8U(m),
        Access::I32Store => wasm_encoder::Instruction::I32Store(m),
    });
}

/// `Function::instruction` appends an instruction; here the constant of an `i32`.
#[verifier::external_body]
fn append_i32_const(f: &mut wasm_encoder::Function, value: i32)
    ensures
        appended(*old(f), *final(f), Instruction::I32Const(value)),
{
    f.instruction(&wasm_encoder::Instruction::I32Const(value));
}

/// `Function::instruction` appends an instruction; here the constant of an `i64`.
#[verifier::external_body]
fn append_i64_const(f: &mut wasm_encoder::Function, value: i64)
    ensures
        appended(*old(f), *final(f), Instruction::I64Const(value)),
{
    f.instruction(&wasm_encoder::Instruction::I64Const(value));
}

/// The instructions whose operand is an index.
pub enum Indexed {
    LocalGet,
    LocalSet,
    LocalTee,
    Br,
    BrIf,
    Call,
}

pub open spec fn indexed(op: Indexed, index: u32) -> Instruction {
    match op {
        Indexed::LocalGet => Instruction::LocalGet(index),
        Indexed::LocalSet => Instruction::LocalSet(index),
        Indexed::LocalTee => Instruction::LocalTee(index),
        Indexed::Br => Instruction::Br(index),
        Indexed::BrIf => Instruction::BrIf(index),
        Indexed::Call => Instruction::Call(index),
    }
}

/// `Function::instruction` appends an instruction; here one whose operand is an
/// index.
#[verifier::external_body]
fn append_indexed(f: &mut wasm_encoder::Function, op: Indexed, index: u32)
    ensures
        appended(*old(f), *final(f), indexed(op, index)),
{
    f.instruction(&match op {
        Indexed::LocalGet => wasm_encoder::Instruction::LocalGet(index),
        Indexed::LocalSet => wasm_encoder::Instruction::LocalSet(index),
        Indexed::LocalTee => wasm_encoder::Instruction::LocalTee(index),
        Indexed::Br => wasm_encoder::Instruction::Br(index),
        Indexed::BrIf => wasm_encoder::Instruction::BrIf(index),
        Indexed::Call => wasm_encoder::Instruction::Call(index),
    });
}

/// The instructions without an operand that order the flow of control.
pub enum Plain {
    Else,
    End,
    Return,
    Drop,
}

pub open spec fn plain(op: Plain) -> Instruction {
    match op {
        Plain::Else => Instruction::Else,
        Plain::End => Instruction::End,
        Plain::Return => Instruction::Return,
        Plain::Drop => Instruction::Drop,
    }
}

/// `Function::instruction` appends an instruction; here one without an operand.
#[verifier::external_body]
fn append_plain(f: &mut wasm_encoder::Function, op: Plain)
    ensures
        appended(*old(f), *final(f), plain(op)),
{
    f.instruction(&match op {
        Plain::Else => wasm_encoder::Instruction::Else,
        Plain::End => wasm_encoder::Instruction::End,
        Plain::Return => wasm_encoder::Instruction::Return,
        Plain::Drop => wasm_encoder::Instruction::Drop,
    });
}

/// `Function::instruction` appends an instruction; here the start of a block.
#[verifier::external_body]
fn append_block(f: &mut wasm_encoder::Function, ty: BlockType)
    ensures
        appended(*old(f), *final(f), Instruction::Block(ty)),
{
    f.instruction(&wasm_encoder::Instruction::Block(match ty {
        BlockType::Empty => wasm_encoder::BlockType::Empty,
        BlockType::Result(ValType::I32) => wasm_encoder::BlockType::Result(wasm_encoder::ValType::I32),
        BlockType::Result(ValType::I64) => wasm_encoder::BlockType::Result(wasm_encoder::ValType::I64),
    }));
}

/// `Function::instruction` appends an instruction; here the start of a choice.
#[verifier::external_body]
fn append_if(f: &mut wasm_encoder::Function, ty: BlockType)
    ensures
        appended(*old(f), *final(f), Instruction::If(ty)),
{
    f.instruction(&wasm_encoder::Instruction::If(match ty {
        BlockType::Empty => wasm_encoder::BlockType::Empty,
        BlockType::Result(ValType::I32) => wasm_encoder::BlockType::Result(wasm_encoder::ValType::I32),
        BlockType::Result(ValType::I64) => wasm_encoder::BlockType::Result(wasm_encoder::ValType::I64),
    }));
}

/// Appends an instruction to a function body.
pub(crate) fn append(f: &mut wasm_encoder::Function, insn: Instruction)
    ensures
        appended(*old(f), *final(f), insn),
{
    match insn {
        Instruction::I32Const(value) => append_i32_const(f, value),
        Instruction::I64Const(value) => append_i64_const(f, value),
        Instruction::LocalGet(index) => append_indexed(f, Indexed::LocalGet, index),
        Instruction::LocalSet(index) => append_indexed(f, Indexed::LocalSet, index),
        Instruction::LocalTee(index) => append_indexed(f, Indexed::LocalTee, index),
        Instruction::I64(op) => append_i64(f, op),
        Instruction::Test(op) => append_test(f, op),
        Instruction::I32(op) => append_i32(f, op),
        Instruction::Convert(op) => append_convert(f, op),
        Instruction::Memory(op, at) => append_memory(f, op, at),
        Instruction::Block(ty) => append_block(f, ty),
        Instruction::If(ty) => append_if(f, ty),
        Instruction::Else => append_plain(f, Plain::Else),
        Instruction::End => append_plain(f, Plain::End),
        Instruction::Br(depth) => append_indexed(f, Indexed::Br, depth),
        Instruction::BrIf(depth) => append_indexed(f, Indexed::BrIf, depth),
        Instruction::Call(index) => append_indexed(f, Indexed::Call, index),
        Instruction::Return => append_plain(f, Plain::Return),
        Instruction::Drop => append_plain(f, Plain::Drop),
    }
}

} // verus!
