//! Compiled blocks as WebAssembly text, for reading while debugging.

use crate::engine::block::Block;
use crate::engine::microop::MicroOp;
use crate::text::{push_dec, push_dec_signed, push_hex, push_hex0x, push_hex_pad};
use vstd::prelude::*;
use vstd::string::StringExecFns;

verus! {

broadcast use crate::text::lemma_append;

use crate::text::{dec, dec_signed, hex, hex0x, hex_pad};

/// What the text of a block shows.
#[derive(Debug, Clone)]
pub struct DisasmConfig {
    /// Each instruction stands in a comment above its code.
    pub include_source: bool,
    /// The code of an instruction is indented.
    pub pretty: bool,
    /// Instruction addresses are wanted.
    pub include_addresses: bool,
}

impl Default for DisasmConfig {
    fn default() -> (config: Self)
        ensures
            config == (DisasmConfig { include_source: true, pretty: true, include_addresses: true }),
    {
        Self { include_source: true, pretty: true, include_addresses: true }
    }
}

// Single lines.

/// A line that holds `line` alone.
pub open spec fn plain_line(indent: Seq<char>, line: Seq<char>) -> Seq<char> {
    indent + line + "\n"@
}

fn push_plain_line(out: &mut String, indent: &str, line: &str)
    ensures
        final(out)@ == old(out)@ + plain_line(indent@, line@),
{
    out.append(indent);
    out.append(line);
    out.append("\n");
}

/// The line that reads register `reg` from the state.
pub open spec fn load_line(indent: Seq<char>, reg: u8) -> Seq<char> {
    indent + "(i64.load (i32.add (local.get $state_ptr) (i32.const "@ + dec(reg as nat * 8)
        + ")))  ;; load x"@ + dec(reg as nat) + "\n"@
}

fn push_load_line(out: &mut String, indent: &str, reg: u8)
    ensures
        final(out)@ == old(out)@ + load_line(indent@, reg),
{
    out.append(indent);
    out.append("(i64.load (i32.add (local.get $state_ptr) (i32.const ");
    push_dec(out, reg as u64 * 8);
    out.append(")))  ;; load x");
    push_dec(out, reg as u64);
    out.append("\n");
}

/// The line that writes register `reg` to the state.
pub open spec fn store_line(indent: Seq<char>, reg: u8) -> Seq<char> {
    indent + "(i64.store (i32.add (local.get $state_ptr) (i32.const "@ + dec(reg as nat * 8)
        + ")))  ;; store x"@ + dec(reg as nat) + "\n"@
}

fn push_store_line(out: &mut String, indent: &str, reg: u8)
    ensures
        final(out)@ == old(out)@ + store_line(indent@, reg),
{
    out.append(indent);
    out.append("(i64.store (i32.add (local.get $state_ptr) (i32.const ");
    push_dec(out, reg as u64 * 8);
    out.append(")))  ;; store x");
    push_dec(out, reg as u64);
    out.append("\n");
}

/// The line that pushes a constant.
pub open spec fn const_line(indent: Seq<char>, value: int) -> Seq<char> {
    indent + "(i64.const "@ + dec_signed(value) + ")\n"@
}

fn push_const_line(out: &mut String, indent: &str, value: i64)
    ensures
        final(out)@ == old(out)@ + const_line(indent@, value as int),
{
    out.append(indent);
    out.append("(i64.const ");
    push_dec_signed(out, value);
    out.append(")\n");
}

/// The line of the operation `op` on values of type `typ`.
pub open spec fn op_line(indent: Seq<char>, typ: Seq<char>, op: Seq<char>) -> Seq<char> {
    indent + "("@ + typ + "."@ + op + ")\n"@
}

fn push_op_line(out: &mut String, indent: &str, typ: &str, op: &str)
    ensures
        final(out)@ == old(out)@ + op_line(indent@, typ@, op@),
{
    out.append(indent);
    out.append("(");
    out.append(typ);
    out.append(".");
    out.append(op);
    out.append(")\n");
}

/// The comment above a division, which the text shows without its zero check.
pub open spec fn unchecked_line(indent: Seq<char>) -> Seq<char> {
    plain_line(indent, ";; TODO: division by zero check"@)
}

fn push_unchecked_line(out: &mut String, indent: &str)
    ensures
        final(out)@ == old(out)@ + unchecked_line(indent@),
{
    push_plain_line(out, indent, ";; TODO: division by zero check");
}

/// The lines that keep the return address of a jump, where a register is to hold it.
pub open spec fn link_lines(indent: Seq<char>, rd: u8, return_addr: u64) -> Seq<char> {
    if rd != 0 {
        indent + "(i64.const 0x"@ + hex(return_addr as nat) + ")  ;; return address\n"@
            + store_line(indent, rd)
    } else {
        Seq::empty()
    }
}

fn push_link_lines(out: &mut String, indent: &str, rd: u8, return_addr: u64)
    ensures
        final(out)@ == old(out)@ + link_lines(indent@, rd, return_addr),
{
    if rd != 0 {
        out.append(indent);
        out.append("(i64.const 0x");
        push_hex(out, return_addr);
        out.append(")  ;; return address\n");
        push_store_line(out, indent, rd);
    }
    assert(rd == 0 ==> out@ =~= old(out)@ + Seq::empty());
}

/// The line that stands for a write to `x0`.
pub open spec fn ignored_text(indent: Seq<char>) -> Seq<char> {
    indent + "(nop)  ;; write to x0 ignored\n"@
}

fn ignored_write(indent: &str) -> (s: String)
    ensures
        s@ == ignored_text(indent@),
{
    let mut out = String::from_str(indent);
    out.append("(nop)  ;; write to x0 ignored\n");
    out
}

/// The comparison that a set-less-than makes.
pub open spec fn less_than(signed: bool) -> Seq<char> {
    if signed {
        "lt_s"@
    } else {
        "lt_u"@
    }
}

/// The width of an atomic access, as its mnemonic ends.
pub open spec fn width_suffix(is_word: bool) -> Seq<char> {
    if is_word {
        ".w"@
    } else {
        ".d"@
    }
}

// Instructions.

/// The lines for an operation on a register and an immediate.
pub open spec fn alu_imm_text(
    indent: Seq<char>,
    op: Seq<char>,
    rd: u8,
    rs1: u8,
    imm: i64,
) -> Seq<char> {
    if rd == 0 {
        ignored_text(indent)
    } else {
        indent
            + ";; x"@
            + dec(rd as nat)
            + " = x"@
            + dec(rs1 as nat)
            + " "@
            + op
            + " "@
            + dec_signed(imm as int)
            + "\n"@
            + load_line(indent, rs1)
            + const_line(indent, imm as int)
            + op_line(indent, "i64"@, op)
            + store_line(indent, rd)
    }
}

/// Writes an operation on a register and an immediate.
pub fn disasm_alu_imm(indent: &str, op: &str, rd: u8, rs1: u8, imm: i64) -> (s: String)
    ensures
        s@ == alu_imm_text(indent@, op@, rd, rs1, imm),
{
    if rd == 0 {
        return ignored_write(indent);
    }
    let mut out = String::from_str(indent);
    out.append(";; x");
    push_dec(&mut out, rd as u64);
    out.append(" = x");
    push_dec(&mut out, rs1 as u64);
    out.append(" ");
    out.append(op);
    out.append(" ");
    push_dec_signed(&mut out, imm);
    out.append("\n");
    push_load_line(&mut out, indent, rs1);
    push_const_line(&mut out, indent, imm as i64);
    push_op_line(&mut out, indent, "i64", op);
    push_store_line(&mut out, indent, rd);
    out
}

/// The lines for an operation on two registers.
pub open spec fn alu_reg_text(
    indent: Seq<char>,
    op: Seq<char>,
    rd: u8,
    rs1: u8,
    rs2: u8,
) -> Seq<char> {
    if rd == 0 {
        ignored_text(indent)
    } else {
        indent
            + ";; x"@
            + dec(rd as nat)
            + " = x"@
            + dec(rs1 as nat)
            + " "@
            + op
            + " x"@
            + dec(rs2 as nat)
            + "\n"@
            + load_line(indent, rs1)
            + load_line(indent, rs2)
            + op_line(indent, "i64"@, op)
            + store_line(indent, rd)
    }
}

/// Writes an operation on two registers.
fn disasm_alu_reg(indent: &str, op: &str, rd: u8, rs1: u8, rs2: u8) -> (s: String)
    ensures
        s@ == alu_reg_text(indent@, op@, rd, rs1, rs2),
{
    if rd == 0 {
        return ignored_write(indent);
    }
    let mut out = String::from_str(indent);
    out.append(";; x");
    push_dec(&mut out, rd as u64);
    out.append(" = x");
    push_dec(&mut out, rs1 as u64);
    out.append(" ");
    out.append(op);
    out.append(" x");
    push_dec(&mut out, rs2 as u64);
    out.append("\n");
    push_load_line(&mut out, indent, rs1);
    push_load_line(&mut out, indent, rs2);
    push_op_line(&mut out, indent, "i64", op);
    push_store_line(&mut out, indent, rd);
    out
}

/// The lines for a shift by an immediate.
pub open spec fn shift_imm_text(
    indent: Seq<char>,
    op: Seq<char>,
    rd: u8,
    rs1: u8,
    shamt: u8,
) -> Seq<char> {
    if rd == 0 {
        ignored_text(indent)
    } else {
        indent
            + ";; x"@
            + dec(rd as nat)
            + " = x"@
            + dec(rs1 as nat)
            + " "@
            + op
            + " "@
            + dec(shamt as nat)
            + "\n"@
            + load_line(indent, rs1)
            + const_line(indent, shamt as int)
            + op_line(indent, "i64"@, op)
            + store_line(indent, rd)
    }
}

/// Writes a shift by an immediate.
fn disasm_shift_imm(indent: &str, op: &str, rd: u8, rs1: u8, shamt: u8) -> (s: String)
    ensures
        s@ == shift_imm_text(indent@, op@, rd, rs1, shamt),
{
    if rd == 0 {
        return ignored_write(indent);
    }
    let mut out = String::from_str(indent);
    out.append(";; x");
    push_dec(&mut out, rd as u64);
    out.append(" = x");
    push_dec(&mut out, rs1 as u64);
    out.append(" ");
    out.append(op);
    out.append(" ");
    push_dec(&mut out, shamt as u64);
    out.append("\n");
    push_load_line(&mut out, indent, rs1);
    push_const_line(&mut out, indent, shamt as i64);
    push_op_line(&mut out, indent, "i64", op);
    push_store_line(&mut out, indent, rd);
    out
}

/// The lines for a shift by a register.
pub open spec fn shift_reg_text(
    indent: Seq<char>,
    op: Seq<char>,
    rd: u8,
    rs1: u8,
    rs2: u8,
) -> Seq<char> {
    if rd == 0 {
        ignored_text(indent)
    } else {
        indent
            + ";; x"@
            + dec(rd as nat)
            + " = x"@
            + dec(rs1 as nat)
            + " "@
            + op
            + " (x"@
            + dec(rs2 as nat)
            + " & 0x3F)\n"@
            + load_line(indent, rs1)
            + load_line(indent, rs2)
            + plain_line(indent, "(i64.const 63)"@)
            + plain_line(indent, "(i64.and)  ;; mask shift amount"@)
            + op_line(indent, "i64"@, op)
            + store_line(indent, rd)
    }
}

/// Writes a shift by a register.
fn disasm_shift_reg(indent: &str, op: &str, rd: u8, rs1: u8, rs2: u8) -> (s: String)
    ensures
        s@ == shift_reg_text(indent@, op@, rd, rs1, rs2),
{
    if rd == 0 {
        return ignored_write(indent);
    }
    let mut out = String::from_str(indent);
    out.append(";; x");
    push_dec(&mut out, rd as u64);
    out.append(" = x");
    push_dec(&mut out, rs1 as u64);
    out.append(" ");
    out.append(op);
    out.append(" (x");
    push_dec(&mut out, rs2 as u64);
    out.append(" & 0x3F)\n");
    push_load_line(&mut out, indent, rs1);
    push_load_line(&mut out, indent, rs2);
    push_plain_line(&mut out, indent, "(i64.const 63)");
    push_plain_line(&mut out, indent, "(i64.and)  ;; mask shift amount");
    push_op_line(&mut out, indent, "i64", op);
    push_store_line(&mut out, indent, rd);
    out
}

/// The lines for a comparison with an immediate.
pub open spec fn slti_text(
    indent: Seq<char>,
    rd: u8,
    rs1: u8,
    imm: i64,
    signed: bool,
) -> Seq<char> {
    if rd == 0 {
        ignored_text(indent)
    } else {
        let test = less_than(signed);
        indent
            + ";; x"@
            + dec(rd as nat)
            + " = (x"@
            + dec(rs1 as nat)
            + " < "@
            + dec_signed(imm as int)
            + ")? 1 : 0\n"@
            + load_line(indent, rs1)
            + const_line(indent, imm as int)
            + op_line(indent, "i64"@, test)
            + plain_line(indent, "(i64.extend_i32_u)"@)
            + store_line(indent, rd)
    }
}

/// Writes a comparison with an immediate.
fn disasm_slti(indent: &str, rd: u8, rs1: u8, imm: i64, signed: bool) -> (s: String)
    ensures
        s@ == slti_text(indent@, rd, rs1, imm, signed),
{
    if rd == 0 {
        return ignored_write(indent);
    }
    let test = if signed {
        "lt_s"
    } else {
        "lt_u"
    };
    let mut out = String::from_str(indent);
    out.append(";; x");
    push_dec(&mut out, rd as u64);
    out.append(" = (x");
    push_dec(&mut out, rs1 as u64);
    out.append(" < ");
    push_dec_signed(&mut out, imm);
    out.append(")? 1 : 0\n");
    push_load_line(&mut out, indent, rs1);
    push_const_line(&mut out, indent, imm as i64);
    push_op_line(&mut out, indent, "i64", test);
    push_plain_line(&mut out, indent, "(i64.extend_i32_u)");
    push_store_line(&mut out, indent, rd);
    out
}

/// The lines for a comparison of two registers.
pub open spec fn slt_text(indent: Seq<char>, rd: u8, rs1: u8, rs2: u8, signed: bool) -> Seq<char> {
    if rd == 0 {
        ignored_text(indent)
    } else {
        let test = less_than(signed);
        indent
            + ";; x"@
            + dec(rd as nat)
            + " = (x"@
            + dec(rs1 as nat)
            + " < x"@
            + dec(rs2 as nat)
            + ") ? 1 : 0\n"@
            + load_line(indent, rs1)
            + load_line(indent, rs2)
            + op_line(indent, "i64"@, test)
            + plain_line(indent, "(i64.extend_i32_u)"@)
            + store_line(indent, rd)
    }
}

/// Writes a comparison of two registers.
fn disasm_slt(indent: &str, rd: u8, rs1: u8, rs2: u8, signed: bool) -> (s: String)
    ensures
        s@ == slt_text(indent@, rd, rs1, rs2, signed),
{
    if rd == 0 {
        return ignored_write(indent);
    }
    let test = if signed {
        "lt_s"
    } else {
        "lt_u"
    };
    let mut out = String::from_str(indent);
    out.append(";; x");
    push_dec(&mut out, rd as u64);
    out.append(" = (x");
    push_dec(&mut out, rs1 as u64);
    out.append(" < x");
    push_dec(&mut out, rs2 as u64);
    out.append(") ? 1 : 0\n");
    push_load_line(&mut out, indent, rs1);
    push_load_line(&mut out, indent, rs2);
    push_op_line(&mut out, indent, "i64", test);
    push_plain_line(&mut out, indent, "(i64.extend_i32_u)");
    push_store_line(&mut out, indent, rd);
    out
}

/// The lines for a 32-bit operation on a register and an immediate.
pub open spec fn alu_imm_w_text(
    indent: Seq<char>,
    op: Seq<char>,
    rd: u8,
    rs1: u8,
    imm: i64,
) -> Seq<char> {
    if rd == 0 {
        ignored_text(indent)
    } else {
        indent
            + ";; x"@
            + dec(rd as nat)
            + " = sext32(x"@
            + dec(rs1 as nat)
            + " "@
            + op
            + " "@
            + dec_signed(imm as int)
            + ")\n"@
            + load_line(indent, rs1)
            + plain_line(indent, "(i32.wrap_i64)"@)
            + indent
            + "(i32.const "@
            + dec_signed(imm as i32 as int)
            + ")\n"@
            + op_line(indent, "i32"@, op)
            + plain_line(indent, "(i64.extend_i32_s)  ;; sign-extend to 64-bit"@)
            + store_line(indent, rd)
    }
}

/// Writes a 32-bit operation on a register and an immediate.
fn disasm_alu_imm_w(indent: &str, op: &str, rd: u8, rs1: u8, imm: i64) -> (s: String)
    ensures
        s@ == alu_imm_w_text(indent@, op@, rd, rs1, imm),
{
    if rd == 0 {
        return ignored_write(indent);
    }
    let mut out = String::from_str(indent);
    out.append(";; x");
    push_dec(&mut out, rd as u64);
    out.append(" = sext32(x");
    push_dec(&mut out, rs1 as u64);
    out.append(" ");
    out.append(op);
    out.append(" ");
    push_dec_signed(&mut out, imm);
    out.append(")\n");
    push_load_line(&mut out, indent, rs1);
    push_plain_line(&mut out, indent, "(i32.wrap_i64)");
    out.append(indent);
    out.append("(i32.const ");
    push_dec_signed(&mut out, imm as i32 as i64);
    out.append(")\n");
    push_op_line(&mut out, indent, "i32", op);
    push_plain_line(&mut out, indent, "(i64.extend_i32_s)  ;; sign-extend to 64-bit");
    push_store_line(&mut out, indent, rd);
    out
}

/// The lines for a 32-bit operation on two registers.
pub open spec fn alu_reg_w_text(
    indent: Seq<char>,
    op: Seq<char>,
    rd: u8,
    rs1: u8,
    rs2: u8,
) -> Seq<char> {
    if rd == 0 {
        ignored_text(indent)
    } else {
        indent
            + ";; x"@
            + dec(rd as nat)
            + " = sext32(x"@
            + dec(rs1 as nat)
            + " "@
            + op
            + " x"@
            + dec(rs2 as nat)
            + ")\n"@
            + load_line(indent, rs1)
            + plain_line(indent, "(i32.wrap_i64)"@)
            + load_line(indent, rs2)
            + plain_line(indent, "(i32.wrap_i64)"@)
            + op_line(indent, "i32"@, op)
            + plain_line(indent, "(i64.extend_i32_s)  ;; sign-extend to 64-bit"@)
            + store_line(indent, rd)
    }
}

/// Writes a 32-bit operation on two registers.
fn disasm_alu_reg_w(indent: &str, op: &str, rd: u8, rs1: u8, rs2: u8) -> (s: String)
    ensures
        s@ == alu_reg_w_text(indent@, op@, rd, rs1, rs2),
{
    if rd == 0 {
        return ignored_write(indent);
    }
    let mut out = String::from_str(indent);
    out.append(";; x");
    push_dec(&mut out, rd as u64);
    out.append(" = sext32(x");
    push_dec(&mut out, rs1 as u64);
    out.append(" ");
    out.append(op);
    out.append(" x");
    push_dec(&mut out, rs2 as u64);
    out.append(")\n");
    push_load_line(&mut out, indent, rs1);
    push_plain_line(&mut out, indent, "(i32.wrap_i64)");
    push_load_line(&mut out, indent, rs2);
    push_plain_line(&mut out, indent, "(i32.wrap_i64)");
    push_op_line(&mut out, indent, "i32", op);
    push_plain_line(&mut out, indent, "(i64.extend_i32_s)  ;; sign-extend to 64-bit");
    push_store_line(&mut out, indent, rd);
    out
}

/// The lines for a 32-bit shift by an immediate.
pub open spec fn shift_imm_w_text(
    indent: Seq<char>,
    op: Seq<char>,
    rd: u8,
    rs1: u8,
    shamt: u8,
) -> Seq<char> {
    if rd == 0 {
        ignored_text(indent)
    } else {
        indent
            + ";; x"@
            + dec(rd as nat)
            + " = sext32(x"@
            + dec(rs1 as nat)
            + " "@
            + op
            + " "@
            + dec(shamt as nat)
            + ")\n"@
            + load_line(indent, rs1)
            + plain_line(indent, "(i32.wrap_i64)"@)
            + indent
            + "(i32.const "@
            + dec(shamt as nat)
            + ")\n"@
            + op_line(indent, "i32"@, op)
            + plain_line(indent, "(i64.extend_i32_s)  ;; sign-extend to 64-bit"@)
            + store_line(indent, rd)
    }
}

/// Writes a 32-bit shift by an immediate.
fn disasm_shift_imm_w(indent: &str, op: &str, rd: u8, rs1: u8, shamt: u8) -> (s: String)
    ensures
        s@ == shift_imm_w_text(indent@, op@, rd, rs1, shamt),
{
    if rd == 0 {
        return ignored_write(indent);
    }
    let mut out = String::from_str(indent);
    out.append(";; x");
    push_dec(&mut out, rd as u64);
    out.append(" = sext32(x");
    push_dec(&mut out, rs1 as u64);
    out.append(" ");
    out.append(op);
    out.append(" ");
    push_dec(&mut out, shamt as u64);
    out.append(")\n");
    push_load_line(&mut out, indent, rs1);
    push_plain_line(&mut out, indent, "(i32.wrap_i64)");
    out.append(indent);
    out.append("(i32.const ");
    push_dec(&mut out, shamt as u64);
    out.append(")\n");
    push_op_line(&mut out, indent, "i32", op);
    push_plain_line(&mut out, indent, "(i64.extend_i32_s)  ;; sign-extend to 64-bit");
    push_store_line(&mut out, indent, rd);
    out
}

/// The lines for a 32-bit shift by a register.
pub open spec fn shift_reg_w_text(
    indent: Seq<char>,
    op: Seq<char>,
    rd: u8,
    rs1: u8,
    rs2: u8,
) -> Seq<char> {
    if rd == 0 {
        ignored_text(indent)
    } else {
        indent
            + ";; x"@
            + dec(rd as nat)
            + " = sext32(x"@
            + dec(rs1 as nat)
            + " "@
            + op
            + " (x"@
            + dec(rs2 as nat)
            + " & 0x1F))\n"@
            + load_line(indent, rs1)
            + plain_line(indent, "(i32.wrap_i64)"@)
            + load_line(indent, rs2)
            + plain_line(indent, "(i32.wrap_i64)"@)
            + plain_line(indent, "(i32.const 31)"@)
            + plain_line(indent, "(i32.and)  ;; mask shift amount"@)
            + op_line(indent, "i32"@, op)
            + plain_line(indent, "(i64.extend_i32_s)  ;; sign-extend to 64-bit"@)
            + store_line(indent, rd)
    }
}

/// Writes a 32-bit shift by a register.
fn disasm_shift_reg_w(indent: &str, op: &str, rd: u8, rs1: u8, rs2: u8) -> (s: String)
    ensures
        s@ == shift_reg_w_text(indent@, op@, rd, rs1, rs2),
{
    if rd == 0 {
        return ignored_write(indent);
    }
    let mut out = String::from_str(indent);
    out.append(";; x");
    push_dec(&mut out, rd as u64);
    out.append(" = sext32(x");
    push_dec(&mut out, rs1 as u64);
    out.append(" ");
    out.append(op);
    out.append(" (x");
    push_dec(&mut out, rs2 as u64);
    out.append(" & 0x1F))\n");
    push_load_line(&mut out, indent, rs1);
    push_plain_line(&mut out, indent, "(i32.wrap_i64)");
    push_load_line(&mut out, indent, rs2);
    push_plain_line(&mut out, indent, "(i32.wrap_i64)");
    push_plain_line(&mut out, indent, "(i32.const 31)");
    push_plain_line(&mut out, indent, "(i32.and)  ;; mask shift amount");
    push_op_line(&mut out, indent, "i32", op);
    push_plain_line(&mut out, indent, "(i64.extend_i32_s)  ;; sign-extend to 64-bit");
    push_store_line(&mut out, indent, rd);
    out
}

/// The lines for the high half of a product.
pub open spec fn mulh_text(
    indent: Seq<char>,
    rd: u8,
    rs1: u8,
    rs2: u8,
    name: Seq<char>,
) -> Seq<char> {
    if rd == 0 {
        ignored_text(indent)
    } else {
        indent
            + ";; x"@
            + dec(rd as nat)
            + " = "@
            + name
            + " x"@
            + dec(rs1 as nat)
            + ", x"@
            + dec(rs2 as nat)
            + " (high bits - requires host call)\n"@
            + indent
            + "(call $host_"@
            + name
            + " (local.get $state_ptr) (i32.const "@
            + dec(rs1 as nat)
            + ") (i32.const "@
            + dec(rs2 as nat)
            + "))\n"@
            + store_line(indent, rd)
    }
}

/// Writes the high half of a product.
fn disasm_mulh(indent: &str, rd: u8, rs1: u8, rs2: u8, name: &str) -> (s: String)
    ensures
        s@ == mulh_text(indent@, rd, rs1, rs2, name@),
{
    if rd == 0 {
        return ignored_write(indent);
    }
    let mut out = String::from_str(indent);
    out.append(";; x");
    push_dec(&mut out, rd as u64);
    out.append(" = ");
    out.append(name);
    out.append(" x");
    push_dec(&mut out, rs1 as u64);
    out.append(", x");
    push_dec(&mut out, rs2 as u64);
    out.append(" (high bits - requires host call)\n");
    out.append(indent);
    out.append("(call $host_");
    out.append(name);
    out.append(" (local.get $state_ptr) (i32.const ");
    push_dec(&mut out, rs1 as u64);
    out.append(") (i32.const ");
    push_dec(&mut out, rs2 as u64);
    out.append("))\n");
    push_store_line(&mut out, indent, rd);
    out
}

/// The lines for the 32-bit form of a quotient.
pub open spec fn div_word_text(
    indent: Seq<char>,
    rd: u8,
    rs1: u8,
    rs2: u8,
    op: Seq<char>,
) -> Seq<char> {
    indent
        + ";; x"@
        + dec(rd as nat)
        + " = sext32(x"@
        + dec(rs1 as nat)
        + " / x"@
        + dec(rs2 as nat)
        + ") (w)\n"@
        + load_line(indent, rs1)
        + plain_line(indent, "(i32.wrap_i64)"@)
        + load_line(indent, rs2)
        + plain_line(indent, "(i32.wrap_i64)"@)
        + unchecked_line(indent)
        + op_line(indent, "i32"@, op)
        + plain_line(indent, "(i64.extend_i32_s)"@)
        + store_line(indent, rd)
}

/// Writes the 32-bit form of a quotient.
fn disasm_div_word(indent: &str, rd: u8, rs1: u8, rs2: u8, op: &str) -> (s: String)
    ensures
        s@ == div_word_text(indent@, rd, rs1, rs2, op@),
{
    let mut out = String::from_str(indent);
    out.append(";; x");
    push_dec(&mut out, rd as u64);
    out.append(" = sext32(x");
    push_dec(&mut out, rs1 as u64);
    out.append(" / x");
    push_dec(&mut out, rs2 as u64);
    out.append(") (w)\n");
    push_load_line(&mut out, indent, rs1);
    push_plain_line(&mut out, indent, "(i32.wrap_i64)");
    push_load_line(&mut out, indent, rs2);
    push_plain_line(&mut out, indent, "(i32.wrap_i64)");
    push_unchecked_line(&mut out, indent);
    push_op_line(&mut out, indent, "i32", op);
    push_plain_line(&mut out, indent, "(i64.extend_i32_s)");
    push_store_line(&mut out, indent, rd);
    out
}

/// The lines for the 64-bit form of a quotient.
pub open spec fn div_long_text(
    indent: Seq<char>,
    rd: u8,
    rs1: u8,
    rs2: u8,
    op: Seq<char>,
) -> Seq<char> {
    indent
        + ";; x"@
        + dec(rd as nat)
        + " = x"@
        + dec(rs1 as nat)
        + " / x"@
        + dec(rs2 as nat)
        + "\n"@
        + load_line(indent, rs1)
        + load_line(indent, rs2)
        + unchecked_line(indent)
        + op_line(indent, "i64"@, op)
        + store_line(indent, rd)
}

/// Writes the 64-bit form of a quotient.
fn disasm_div_long(indent: &str, rd: u8, rs1: u8, rs2: u8, op: &str) -> (s: String)
    ensures
        s@ == div_long_text(indent@, rd, rs1, rs2, op@),
{
    let mut out = String::from_str(indent);
    out.append(";; x");
    push_dec(&mut out, rd as u64);
    out.append(" = x");
    push_dec(&mut out, rs1 as u64);
    out.append(" / x");
    push_dec(&mut out, rs2 as u64);
    out.append("\n");
    push_load_line(&mut out, indent, rs1);
    push_load_line(&mut out, indent, rs2);
    push_unchecked_line(&mut out, indent);
    push_op_line(&mut out, indent, "i64", op);
    push_store_line(&mut out, indent, rd);
    out
}

/// The lines for a quotient.
pub open spec fn div_text(
    indent: Seq<char>,
    rd: u8,
    rs1: u8,
    rs2: u8,
    signed: bool,
    is_word: bool,
) -> Seq<char> {
    let op = if signed {
        "div_s"@
    } else {
        "div_u"@
    };
    if rd == 0 {
        ignored_text(indent)
    } else if is_word {
        div_word_text(indent, rd, rs1, rs2, op)
    } else {
        div_long_text(indent, rd, rs1, rs2, op)
    }
}

/// Writes a quotient.
fn disasm_div(indent: &str, rd: u8, rs1: u8, rs2: u8, signed: bool, is_word: bool) -> (s: String)
    ensures
        s@ == div_text(indent@, rd, rs1, rs2, signed, is_word),
{
    if rd == 0 {
        return ignored_write(indent);
    }
    let op = if signed {
        "div_s"
    } else {
        "div_u"
    };
    if is_word {
        disasm_div_word(indent, rd, rs1, rs2, op)
    } else {
        disasm_div_long(indent, rd, rs1, rs2, op)
    }
}

/// The lines for the 32-bit form of a remainder.
pub open spec fn rem_word_text(
    indent: Seq<char>,
    rd: u8,
    rs1: u8,
    rs2: u8,
    op: Seq<char>,
) -> Seq<char> {
    indent
        + ";; x"@
        + dec(rd as nat)
        + " = sext32(x"@
        + dec(rs1 as nat)
        + " %% x"@
        + dec(rs2 as nat)
        + ") (w)\n"@
        + load_line(indent, rs1)
        + plain_line(indent, "(i32.wrap_i64)"@)
        + load_line(indent, rs2)
        + plain_line(indent, "(i32.wrap_i64)"@)
        + unchecked_line(indent)
        + op_line(indent, "i32"@, op)
        + plain_line(indent, "(i64.extend_i32_s)"@)
        + store_line(indent, rd)
}

/// Writes the 32-bit form of a remainder.
fn disasm_rem_word(indent: &str, rd: u8, rs1: u8, rs2: u8, op: &str) -> (s: String)
    ensures
        s@ == rem_word_text(indent@, rd, rs1, rs2, op@),
{
    let mut out = String::from_str(indent);
    out.append(";; x");
    push_dec(&mut out, rd as u64);
    out.append(" = sext32(x");
    push_dec(&mut out, rs1 as u64);
    out.append(" %% x");
    push_dec(&mut out, rs2 as u64);
    out.append(") (w)\n");
    push_load_line(&mut out, indent, rs1);
    push_plain_line(&mut out, indent, "(i32.wrap_i64)");
    push_load_line(&mut out, indent, rs2);
    push_plain_line(&mut out, indent, "(i32.wrap_i64)");
    push_unchecked_line(&mut out, indent);
    push_op_line(&mut out, indent, "i32", op);
    push_plain_line(&mut out, indent, "(i64.extend_i32_s)");
    push_store_line(&mut out, indent, rd);
    out
}

/// The lines for the 64-bit form of a remainder.
pub open spec fn rem_long_text(
    indent: Seq<char>,
    rd: u8,
    rs1: u8,
    rs2: u8,
    op: Seq<char>,
) -> Seq<char> {
    indent
        + ";; x"@
        + dec(rd as nat)
        + " = x"@
        + dec(rs1 as nat)
        + " %% x"@
        + dec(rs2 as nat)
        + "\n"@
        + load_line(indent, rs1)
        + load_line(indent, rs2)
        + unchecked_line(indent)
        + op_line(indent, "i64"@, op)
        + store_line(indent, rd)
}

/// Writes the 64-bit form of a remainder.
fn disasm_rem_long(indent: &str, rd: u8, rs1: u8, rs2: u8, op: &str) -> (s: String)
    ensures
        s@ == rem_long_text(indent@, rd, rs1, rs2, op@),
{
    let mut out = String::from_str(indent);
    out.append(";; x");
    push_dec(&mut out, rd as u64);
    out.append(" = x");
    push_dec(&mut out, rs1 as u64);
    out.append(" %% x");
    push_dec(&mut out, rs2 as u64);
    out.append("\n");
    push_load_line(&mut out, indent, rs1);
    push_load_line(&mut out, indent, rs2);
    push_unchecked_line(&mut out, indent);
    push_op_line(&mut out, indent, "i64", op);
    push_store_line(&mut out, indent, rd);
    out
}

/// The lines for a remainder.
pub open spec fn rem_text(
    indent: Seq<char>,
    rd: u8,
    rs1: u8,
    rs2: u8,
    signed: bool,
    is_word: bool,
) -> Seq<char> {
    let op = if signed {
        "rem_s"@
    } else {
        "rem_u"@
    };
    if rd == 0 {
        ignored_text(indent)
    } else if is_word {
        rem_word_text(indent, rd, rs1, rs2, op)
    } else {
        rem_long_text(indent, rd, rs1, rs2, op)
    }
}

/// Writes a remainder.
fn disasm_rem(indent: &str, rd: u8, rs1: u8, rs2: u8, signed: bool, is_word: bool) -> (s: String)
    ensures
        s@ == rem_text(indent@, rd, rs1, rs2, signed, is_word),
{
    if rd == 0 {
        return ignored_write(indent);
    }
    let op = if signed {
        "rem_s"
    } else {
        "rem_u"
    };
    if is_word {
        disasm_rem_word(indent, rd, rs1, rs2, op)
    } else {
        disasm_rem_long(indent, rd, rs1, rs2, op)
    }
}

/// The lines for the load of an upper immediate.
pub open spec fn lui_text(indent: Seq<char>, rd: u8, imm: i64) -> Seq<char> {
    if rd == 0 {
        ignored_text(indent)
    } else {
        indent
            + ";; x"@
            + dec(rd as nat)
            + " = 0x"@
            + hex(imm as u64 as nat)
            + "\n"@
            + const_line(indent, imm as int)
            + store_line(indent, rd)
    }
}

/// Writes the load of an upper immediate.
fn disasm_lui(indent: &str, rd: u8, imm: i64) -> (s: String)
    ensures
        s@ == lui_text(indent@, rd, imm),
{
    if rd == 0 {
        return ignored_write(indent);
    }
    let mut out = String::from_str(indent);
    out.append(";; x");
    push_dec(&mut out, rd as u64);
    out.append(" = 0x");
    push_hex(&mut out, imm as u64);
    out.append("\n");
    push_const_line(&mut out, indent, imm as i64);
    push_store_line(&mut out, indent, rd);
    out
}

/// The lines for the sum of the program counter and an upper immediate.
pub open spec fn auipc_text(
    indent: Seq<char>,
    rd: u8,
    imm: i64,
    pc_offset: u16,
    block_pc: u64,
) -> Seq<char> {
    if rd == 0 {
        ignored_text(indent)
    } else {
        let insn_pc = block_pc.wrapping_add(pc_offset as u64);
        let result = insn_pc.wrapping_add(imm as u64);
        indent
            + ";; x"@
            + dec(rd as nat)
            + " = PC(0x"@
            + hex(insn_pc as nat)
            + ") + 0x"@
            + hex(imm as u64 as nat)
            + " = 0x"@
            + hex(result as nat)
            + "\n"@
            + const_line(indent, result as i64 as int)
            + store_line(indent, rd)
    }
}

/// Writes the sum of the program counter and an upper immediate.
fn disasm_auipc(indent: &str, rd: u8, imm: i64, pc_offset: u16, block_pc: u64) -> (s: String)
    ensures
        s@ == auipc_text(indent@, rd, imm, pc_offset, block_pc),
{
    if rd == 0 {
        return ignored_write(indent);
    }
    let insn_pc: u64 = block_pc.wrapping_add(pc_offset as u64);
    let result: u64 = insn_pc.wrapping_add(imm as u64);
    let mut out = String::from_str(indent);
    out.append(";; x");
    push_dec(&mut out, rd as u64);
    out.append(" = PC(0x");
    push_hex(&mut out, insn_pc);
    out.append(") + 0x");
    push_hex(&mut out, imm as u64);
    out.append(" = 0x");
    push_hex(&mut out, result);
    out.append("\n");
    push_const_line(&mut out, indent, result as i64 as i64);
    push_store_line(&mut out, indent, rd);
    out
}

/// The lines for a load whose value is dropped.
pub open spec fn ignored_load_text(indent: Seq<char>, rs1: u8, imm: i64) -> Seq<char> {
    indent
        + ";; load to x0 ignored, but may have side effects\n"@
        + load_line(indent, rs1)
        + const_line(indent, imm as int)
        + plain_line(indent, "(i64.add)  ;; vaddr"@)
        + plain_line(indent, "(call $read_u64)  ;; perform read for side effects"@)
        + plain_line(indent, "(drop)"@)
}

/// Writes a load whose value is dropped.
fn disasm_ignored_load(indent: &str, rs1: u8, imm: i64) -> (s: String)
    ensures
        s@ == ignored_load_text(indent@, rs1, imm),
{
    let mut out = String::from_str(indent);
    out.append(";; load to x0 ignored, but may have side effects\n");
    push_load_line(&mut out, indent, rs1);
    push_const_line(&mut out, indent, imm as i64);
    push_plain_line(&mut out, indent, "(i64.add)  ;; vaddr");
    push_plain_line(&mut out, indent, "(call $read_u64)  ;; perform read for side effects");
    push_plain_line(&mut out, indent, "(drop)");
    out
}

/// The lines for a load into a register, by the host function and with the extension given.
pub open spec fn kept_load_text(
    indent: Seq<char>,
    size: Seq<char>,
    ext: Seq<char>,
    read_func: Seq<char>,
    extend: Seq<char>,
    rd: u8,
    rs1: u8,
    imm: i64,
) -> Seq<char> {
    indent
        + ";; x"@
        + dec(rd as nat)
        + " = mem[x"@
        + dec(rs1 as nat)
        + " + "@
        + dec_signed(imm as int)
        + "] ("@
        + size
        + ext
        + ")\n"@
        + load_line(indent, rs1)
        + const_line(indent, imm as int)
        + plain_line(indent, "(i64.add)  ;; vaddr"@)
        + indent
        + "(call "@
        + read_func
        + ")  ;; read\n"@
        + indent
        + extend
        + "\n"@
        + store_line(indent, rd)
}

/// Writes a load into a register, by the host function and with the extension given.
fn disasm_kept_load(
    indent: &str,
    size: &str,
    ext: &str,
    read_func: &str,
    extend: &str,
    rd: u8,
    rs1: u8,
    imm: i64,
) -> (s: String)
    ensures
        s@ == kept_load_text(indent@, size@, ext@, read_func@, extend@, rd, rs1, imm),
{
    let mut out = String::from_str(indent);
    out.append(";; x");
    push_dec(&mut out, rd as u64);
    out.append(" = mem[x");
    push_dec(&mut out, rs1 as u64);
    out.append(" + ");
    push_dec_signed(&mut out, imm);
    out.append("] (");
    out.append(size);
    out.append(ext);
    out.append(")\n");
    push_load_line(&mut out, indent, rs1);
    push_const_line(&mut out, indent, imm as i64);
    push_plain_line(&mut out, indent, "(i64.add)  ;; vaddr");
    out.append(indent);
    out.append("(call ");
    out.append(read_func);
    out.append(")  ;; read\n");
    out.append(indent);
    out.append(extend);
    out.append("\n");
    push_store_line(&mut out, indent, rd);
    out
}

/// The lines for a load. A load into `x0` still reads memory.
pub open spec fn load_text(
    indent: Seq<char>,
    size: Seq<char>,
    ext: Seq<char>,
    read_func: Seq<char>,
    extend: Seq<char>,
    rd: u8,
    rs1: u8,
    imm: i64,
) -> Seq<char> {
    if rd == 0 {
        ignored_load_text(indent, rs1, imm)
    } else {
        kept_load_text(indent, size, ext, read_func, extend, rd, rs1, imm)
    }
}

/// Writes a load, by the host function and with the extension given.
fn disasm_load(
    indent: &str,
    size: &str,
    ext: &str,
    read_func: &str,
    extend: &str,
    rd: u8,
    rs1: u8,
    imm: i64,
) -> (s: String)
    ensures
        s@ == load_text(indent@, size@, ext@, read_func@, extend@, rd, rs1, imm),
{
    if rd == 0 {
        disasm_ignored_load(indent, rs1, imm)
    } else {
        disasm_kept_load(indent, size, ext, read_func, extend, rd, rs1, imm)
    }
}

/// The lines for a store, by the host function given.
pub open spec fn store_text(
    indent: Seq<char>,
    size: Seq<char>,
    write_func: Seq<char>,
    wrap: Seq<char>,
    rs1: u8,
    rs2: u8,
    imm: i64,
) -> Seq<char> {
    indent
        + ";; mem[x"@
        + dec(rs1 as nat)
        + " + "@
        + dec_signed(imm as int)
        + "] = x"@
        + dec(rs2 as nat)
        + "["@
        + size
        + ":0]\n"@
        + indent
        + "(i64.load (i32.add (local.get $state_ptr) (i32.const "@
        + dec(rs1 as nat * 8)
        + ")))  ;; load x"@
        + dec(rs1 as nat)
        + " (base)\n"@
        + const_line(indent, imm as int)
        + plain_line(indent, "(i64.add)  ;; vaddr"@)
        + indent
        + "(i64.load (i32.add (local.get $state_ptr) (i32.const "@
        + dec(rs2 as nat * 8)
        + ")))  ;; load x"@
        + dec(rs2 as nat)
        + " (value)"@
        + wrap
        + "\n"@
        + indent
        + "(call "@
        + write_func
        + ")  ;; write\n"@
        + plain_line(indent, "(drop)  ;; ignore result"@)
}

/// Writes a store, by the host function given.
fn disasm_store(
    indent: &str,
    size: &str,
    write_func: &str,
    wrap: &str,
    rs1: u8,
    rs2: u8,
    imm: i64,
) -> (s: String)
    ensures
        s@ == store_text(indent@, size@, write_func@, wrap@, rs1, rs2, imm),
{
    let mut out = String::from_str(indent);
    out.append(";; mem[x");
    push_dec(&mut out, rs1 as u64);
    out.append(" + ");
    push_dec_signed(&mut out, imm);
    out.append("] = x");
    push_dec(&mut out, rs2 as u64);
    out.append("[");
    out.append(size);
    out.append(":0]\n");
    out.append(indent);
    out.append("(i64.load (i32.add (local.get $state_ptr) (i32.const ");
    push_dec(&mut out, rs1 as u64 * 8);
    out.append(")))  ;; load x");
    push_dec(&mut out, rs1 as u64);
    out.append(" (base)\n");
    push_const_line(&mut out, indent, imm as i64);
    push_plain_line(&mut out, indent, "(i64.add)  ;; vaddr");
    out.append(indent);
    out.append("(i64.load (i32.add (local.get $state_ptr) (i32.const ");
    push_dec(&mut out, rs2 as u64 * 8);
    out.append(")))  ;; load x");
    push_dec(&mut out, rs2 as u64);
    out.append(" (value)");
    out.append(wrap);
    out.append("\n");
    out.append(indent);
    out.append("(call ");
    out.append(write_func);
    out.append(")  ;; write\n");
    push_plain_line(&mut out, indent, "(drop)  ;; ignore result");
    out
}

/// The lines for a conditional branch.
pub open spec fn branch_text(
    indent: Seq<char>,
    test: Seq<char>,
    rs1: u8,
    rs2: u8,
    imm: i64,
    pc_offset: u16,
    block_pc: u64,
) -> Seq<char> {
    let insn_pc = block_pc.wrapping_add(pc_offset as u64);
    let target_pc = insn_pc.wrapping_add(imm as u64);
    indent
        + ";; if x"@
        + dec(rs1 as nat)
        + " "@
        + test
        + " x"@
        + dec(rs2 as nat)
        + " then jump to 0x"@
        + hex(target_pc as nat)
        + "\n"@
        + load_line(indent, rs1)
        + load_line(indent, rs2)
        + op_line(indent, "i64"@, test)
        + plain_line(indent, "(if"@)
        + plain_line(indent, "  (then"@)
        + indent
        + "    (i64.const 0x"@
        + hex(target_pc as nat)
        + ")  ;; target PC\n"@
        + plain_line(indent, "    (return)"@)
        + plain_line(indent, "  )"@)
        + plain_line(indent, ")"@)
}

/// Writes a conditional branch.
fn disasm_branch(
    indent: &str,
    test: &str,
    rs1: u8,
    rs2: u8,
    imm: i64,
    pc_offset: u16,
    block_pc: u64,
) -> (s: String)
    ensures
        s@ == branch_text(indent@, test@, rs1, rs2, imm, pc_offset, block_pc),
{
    let insn_pc: u64 = block_pc.wrapping_add(pc_offset as u64);
    let target_pc: u64 = insn_pc.wrapping_add(imm as u64);
    let mut out = String::from_str(indent);
    out.append(";; if x");
    push_dec(&mut out, rs1 as u64);
    out.append(" ");
    out.append(test);
    out.append(" x");
    push_dec(&mut out, rs2 as u64);
    out.append(" then jump to 0x");
    push_hex(&mut out, target_pc);
    out.append("\n");
    push_load_line(&mut out, indent, rs1);
    push_load_line(&mut out, indent, rs2);
    push_op_line(&mut out, indent, "i64", test);
    push_plain_line(&mut out, indent, "(if");
    push_plain_line(&mut out, indent, "  (then");
    out.append(indent);
    out.append("    (i64.const 0x");
    push_hex(&mut out, target_pc);
    out.append(")  ;; target PC\n");
    push_plain_line(&mut out, indent, "    (return)");
    push_plain_line(&mut out, indent, "  )");
    push_plain_line(&mut out, indent, ")");
    out
}

/// The lines for a jump.
pub open spec fn jal_text(
    indent: Seq<char>,
    rd: u8,
    imm: i64,
    pc_offset: u16,
    insn_len: u8,
    block_pc: u64,
) -> Seq<char> {
    let insn_pc = block_pc.wrapping_add(pc_offset as u64);
    let return_addr = insn_pc.wrapping_add(insn_len as u64);
    let target_pc = insn_pc.wrapping_add(imm as u64);
    indent
        + ";; x"@
        + dec(rd as nat)
        + " = 0x"@
        + hex(return_addr as nat)
        + "; jump to 0x"@
        + hex(target_pc as nat)
        + "\n"@
        + link_lines(indent, rd, return_addr)
        + indent
        + "(i64.const 0x"@
        + hex(target_pc as nat)
        + ")  ;; target PC\n"@
        + plain_line(indent, "(return)"@)
}

/// Writes a jump.
fn disasm_jal(
    indent: &str,
    rd: u8,
    imm: i64,
    pc_offset: u16,
    insn_len: u8,
    block_pc: u64,
) -> (s: String)
    ensures
        s@ == jal_text(indent@, rd, imm, pc_offset, insn_len, block_pc),
{
    let insn_pc: u64 = block_pc.wrapping_add(pc_offset as u64);
    let return_addr: u64 = insn_pc.wrapping_add(insn_len as u64);
    let target_pc: u64 = insn_pc.wrapping_add(imm as u64);
    let mut out = String::from_str(indent);
    out.append(";; x");
    push_dec(&mut out, rd as u64);
    out.append(" = 0x");
    push_hex(&mut out, return_addr);
    out.append("; jump to 0x");
    push_hex(&mut out, target_pc);
    out.append("\n");
    push_link_lines(&mut out, indent, rd, return_addr);
    out.append(indent);
    out.append("(i64.const 0x");
    push_hex(&mut out, target_pc);
    out.append(")  ;; target PC\n");
    push_plain_line(&mut out, indent, "(return)");
    out
}

/// The lines for a jump to an address in a register.
pub open spec fn jalr_text(
    indent: Seq<char>,
    rd: u8,
    rs1: u8,
    imm: i64,
    pc_offset: u16,
    insn_len: u8,
    block_pc: u64,
) -> Seq<char> {
    let insn_pc = block_pc.wrapping_add(pc_offset as u64);
    let return_addr = insn_pc.wrapping_add(insn_len as u64);
    indent
        + ";; x"@
        + dec(rd as nat)
        + " = 0x"@
        + hex(return_addr as nat)
        + "; jump to (x"@
        + dec(rs1 as nat)
        + " + "@
        + dec_signed(imm as int)
        + ") & ~1\n"@
        + link_lines(indent, rd, return_addr)
        + load_line(indent, rs1)
        + const_line(indent, imm as int)
        + plain_line(indent, "(i64.add)"@)
        + plain_line(indent, "(i64.const -2)  ;; mask off low bit"@)
        + plain_line(indent, "(i64.and)"@)
        + plain_line(indent, "(return)  ;; exit with computed target"@)
}

/// Writes a jump to an address in a register.
fn disasm_jalr(
    indent: &str,
    rd: u8,
    rs1: u8,
    imm: i64,
    pc_offset: u16,
    insn_len: u8,
    block_pc: u64,
) -> (s: String)
    ensures
        s@ == jalr_text(indent@, rd, rs1, imm, pc_offset, insn_len, block_pc),
{
    let insn_pc: u64 = block_pc.wrapping_add(pc_offset as u64);
    let return_addr: u64 = insn_pc.wrapping_add(insn_len as u64);
    let mut out = String::from_str(indent);
    out.append(";; x");
    push_dec(&mut out, rd as u64);
    out.append(" = 0x");
    push_hex(&mut out, return_addr);
    out.append("; jump to (x");
    push_dec(&mut out, rs1 as u64);
    out.append(" + ");
    push_dec_signed(&mut out, imm);
    out.append(") & ~1\n");
    push_link_lines(&mut out, indent, rd, return_addr);
    push_load_line(&mut out, indent, rs1);
    push_const_line(&mut out, indent, imm as i64);
    push_plain_line(&mut out, indent, "(i64.add)");
    push_plain_line(&mut out, indent, "(i64.const -2)  ;; mask off low bit");
    push_plain_line(&mut out, indent, "(i64.and)");
    push_plain_line(&mut out, indent, "(return)  ;; exit with computed target");
    out
}

/// The lines for an instruction that leaves the block for the interpreter.
pub open spec fn system_text(
    indent: Seq<char>,
    name: Seq<char>,
    pc_offset: u16,
    block_pc: u64,
) -> Seq<char> {
    let insn_pc = block_pc.wrapping_add(pc_offset as u64);
    indent
        + ";; "@
        + name
        + " @ 0x"@
        + hex(insn_pc as nat)
        + " (exit to interpreter)\n"@
        + indent
        + "(i64.const 0x"@
        + hex(insn_pc as nat)
        + ")  ;; PC of this instruction\n"@
        + plain_line(indent, "(return)"@)
}

/// Writes an instruction that leaves the block for the interpreter.
fn disasm_system(indent: &str, name: &str, pc_offset: u16, block_pc: u64) -> (s: String)
    ensures
        s@ == system_text(indent@, name@, pc_offset, block_pc),
{
    let insn_pc: u64 = block_pc.wrapping_add(pc_offset as u64);
    let mut out = String::from_str(indent);
    out.append(";; ");
    out.append(name);
    out.append(" @ 0x");
    push_hex(&mut out, insn_pc);
    out.append(" (exit to interpreter)\n");
    out.append(indent);
    out.append("(i64.const 0x");
    push_hex(&mut out, insn_pc);
    out.append(")  ;; PC of this instruction\n");
    push_plain_line(&mut out, indent, "(return)");
    out
}

/// The lines for an access to a control register.
pub open spec fn csr_text(
    indent: Seq<char>,
    name: Seq<char>,
    rd: u8,
    rs1_or_zimm: u16,
    csr: u16,
    pc_offset: u16,
    block_pc: u64,
) -> Seq<char> {
    let insn_pc = block_pc.wrapping_add(pc_offset as u64);
    indent
        + ";; "@
        + name
        + " x"@
        + dec(rd as nat)
        + ", 0x"@
        + hex_pad(csr as nat, 3)
        + ", "@
        + dec(rs1_or_zimm as nat)
        + " @ 0x"@
        + hex(insn_pc as nat)
        + " (exit to interpreter)\n"@
        + plain_line(indent, ";; CSR operations require full CPU context"@)
        + indent
        + "(i64.const 0x"@
        + hex(insn_pc as nat)
        + ")  ;; PC of this instruction\n"@
        + plain_line(indent, "(return)"@)
}

/// Writes an access to a control register.
fn disasm_csr(
    indent: &str,
    name: &str,
    rd: u8,
    rs1_or_zimm: u16,
    csr: u16,
    pc_offset: u16,
    block_pc: u64,
) -> (s: String)
    ensures
        s@ == csr_text(indent@, name@, rd, rs1_or_zimm, csr, pc_offset, block_pc),
{
    let insn_pc: u64 = block_pc.wrapping_add(pc_offset as u64);
    let mut out = String::from_str(indent);
    out.append(";; ");
    out.append(name);
    out.append(" x");
    push_dec(&mut out, rd as u64);
    out.append(", 0x");
    push_hex_pad(&mut out, csr as u64, 3);
    out.append(", ");
    push_dec(&mut out, rs1_or_zimm as u64);
    out.append(" @ 0x");
    push_hex(&mut out, insn_pc);
    out.append(" (exit to interpreter)\n");
    push_plain_line(&mut out, indent, ";; CSR operations require full CPU context");
    out.append(indent);
    out.append("(i64.const 0x");
    push_hex(&mut out, insn_pc);
    out.append(")  ;; PC of this instruction\n");
    push_plain_line(&mut out, indent, "(return)");
    out
}

/// The lines for a load with a reservation.
pub open spec fn lr_text(
    indent: Seq<char>,
    rd: u8,
    rs1: u8,
    pc_offset: u16,
    block_pc: u64,
    is_word: bool,
) -> Seq<char> {
    let insn_pc = block_pc.wrapping_add(pc_offset as u64);
    let suffix = width_suffix(is_word);
    indent
        + ";; lr"@
        + suffix
        + " x"@
        + dec(rd as nat)
        + ", (x"@
        + dec(rs1 as nat)
        + ") @ 0x"@
        + hex(insn_pc as nat)
        + " (exit to interpreter for atomics)\n"@
        + indent
        + "(i64.const 0x"@
        + hex(insn_pc as nat)
        + ")\n"@
        + plain_line(indent, "(return)"@)
}

/// Writes a load with a reservation.
fn disasm_lr(
    indent: &str,
    rd: u8,
    rs1: u8,
    pc_offset: u16,
    block_pc: u64,
    is_word: bool,
) -> (s: String)
    ensures
        s@ == lr_text(indent@, rd, rs1, pc_offset, block_pc, is_word),
{
    let insn_pc: u64 = block_pc.wrapping_add(pc_offset as u64);
    let suffix = if is_word {
        ".w"
    } else {
        ".d"
    };
    let mut out = String::from_str(indent);
    out.append(";; lr");
    out.append(suffix);
    out.append(" x");
    push_dec(&mut out, rd as u64);
    out.append(", (x");
    push_dec(&mut out, rs1 as u64);
    out.append(") @ 0x");
    push_hex(&mut out, insn_pc);
    out.append(" (exit to interpreter for atomics)\n");
    out.append(indent);
    out.append("(i64.const 0x");
    push_hex(&mut out, insn_pc);
    out.append(")\n");
    push_plain_line(&mut out, indent, "(return)");
    out
}

/// The lines for a conditional store.
pub open spec fn sc_text(
    indent: Seq<char>,
    rd: u8,
    rs1: u8,
    rs2: u8,
    pc_offset: u16,
    block_pc: u64,
    is_word: bool,
) -> Seq<char> {
    let insn_pc = block_pc.wrapping_add(pc_offset as u64);
    let suffix = width_suffix(is_word);
    indent
        + ";; sc"@
        + suffix
        + " x"@
        + dec(rd as nat)
        + ", x"@
        + dec(rs2 as nat)
        + ", (x"@
        + dec(rs1 as nat)
        + ") @ 0x"@
        + hex(insn_pc as nat)
        + " (exit to interpreter for atomics)\n"@
        + indent
        + "(i64.const 0x"@
        + hex(insn_pc as nat)
        + ")\n"@
        + plain_line(indent, "(return)"@)
}

/// Writes a conditional store.
fn disasm_sc(
    indent: &str,
    rd: u8,
    rs1: u8,
    rs2: u8,
    pc_offset: u16,
    block_pc: u64,
    is_word: bool,
) -> (s: String)
    ensures
        s@ == sc_text(indent@, rd, rs1, rs2, pc_offset, block_pc, is_word),
{
    let insn_pc: u64 = block_pc.wrapping_add(pc_offset as u64);
    let suffix = if is_word {
        ".w"
    } else {
        ".d"
    };
    let mut out = String::from_str(indent);
    out.append(";; sc");
    out.append(suffix);
    out.append(" x");
    push_dec(&mut out, rd as u64);
    out.append(", x");
    push_dec(&mut out, rs2 as u64);
    out.append(", (x");
    push_dec(&mut out, rs1 as u64);
    out.append(") @ 0x");
    push_hex(&mut out, insn_pc);
    out.append(" (exit to interpreter for atomics)\n");
    out.append(indent);
    out.append("(i64.const 0x");
    push_hex(&mut out, insn_pc);
    out.append(")\n");
    push_plain_line(&mut out, indent, "(return)");
    out
}

/// The lines for an atomic update.
pub open spec fn amo_text(
    indent: Seq<char>,
    op: Seq<char>,
    rd: u8,
    rs1: u8,
    rs2: u8,
    is_word: bool,
    pc_offset: u16,
    block_pc: u64,
) -> Seq<char> {
    let insn_pc = block_pc.wrapping_add(pc_offset as u64);
    let suffix = width_suffix(is_word);
    indent
        + ";; amo"@
        + op
        + suffix
        + " x"@
        + dec(rd as nat)
        + ", x"@
        + dec(rs2 as nat)
        + ", (x"@
        + dec(rs1 as nat)
        + ") @ 0x"@
        + hex(insn_pc as nat)
        + " (exit to interpreter for atomics)\n"@
        + indent
        + "(i64.const 0x"@
        + hex(insn_pc as nat)
        + ")\n"@
        + plain_line(indent, "(return)"@)
}

/// Writes an atomic update.
fn disasm_amo(
    indent: &str,
    op: &str,
    rd: u8,
    rs1: u8,
    rs2: u8,
    is_word: bool,
    pc_offset: u16,
    block_pc: u64,
) -> (s: String)
    ensures
        s@ == amo_text(indent@, op@, rd, rs1, rs2, is_word, pc_offset, block_pc),
{
    let insn_pc: u64 = block_pc.wrapping_add(pc_offset as u64);
    let suffix = if is_word {
        ".w"
    } else {
        ".d"
    };
    let mut out = String::from_str(indent);
    out.append(";; amo");
    out.append(op);
    out.append(suffix);
    out.append(" x");
    push_dec(&mut out, rd as u64);
    out.append(", x");
    push_dec(&mut out, rs2 as u64);
    out.append(", (x");
    push_dec(&mut out, rs1 as u64);
    out.append(") @ 0x");
    push_hex(&mut out, insn_pc);
    out.append(" (exit to interpreter for atomics)\n");
    out.append(indent);
    out.append("(i64.const 0x");
    push_hex(&mut out, insn_pc);
    out.append(")\n");
    push_plain_line(&mut out, indent, "(return)");
    out
}

/// The lines for a fence.
pub open spec fn fence_text(indent: Seq<char>) -> Seq<char> {
    indent + ";; fence (no-op)\n"@ + indent + "(nop)\n"@
}

/// Writes a fence.
fn disasm_fence(indent: &str) -> (s: String)
    ensures
        s@ == fence_text(indent@),
{
    let mut out = String::from_str(indent);
    out.append(";; fence (no-op)\n");
    out.append(indent);
    out.append("(nop)\n");
    out
}

/// The lines for an instruction of a block that starts at `pc`.
pub open spec fn microop_text(indent: Seq<char>, op: MicroOp, pc: u64) -> Seq<char> {
    match op {
        MicroOp::Addi { rd, rs1, imm } => alu_imm_text(indent, "add"@, rd, rs1, imm),
        MicroOp::Xori { rd, rs1, imm } => alu_imm_text(indent, "xor"@, rd, rs1, imm),
        MicroOp::Ori { rd, rs1, imm } => alu_imm_text(indent, "or"@, rd, rs1, imm),
        MicroOp::Andi { rd, rs1, imm } => alu_imm_text(indent, "and"@, rd, rs1, imm),
        MicroOp::Slti { rd, rs1, imm } => slti_text(indent, rd, rs1, imm, true),
        MicroOp::Sltiu { rd, rs1, imm } => slti_text(indent, rd, rs1, imm, false),
        MicroOp::Slli { rd, rs1, shamt } => shift_imm_text(indent, "shl"@, rd, rs1, shamt),
        MicroOp::Srli { rd, rs1, shamt } => shift_imm_text(indent, "shr_u"@, rd, rs1, shamt),
        MicroOp::Srai { rd, rs1, shamt } => shift_imm_text(indent, "shr_s"@, rd, rs1, shamt),
        MicroOp::Add { rd, rs1, rs2 } => alu_reg_text(indent, "add"@, rd, rs1, rs2),
        MicroOp::Sub { rd, rs1, rs2 } => alu_reg_text(indent, "sub"@, rd, rs1, rs2),
        MicroOp::Xor { rd, rs1, rs2 } => alu_reg_text(indent, "xor"@, rd, rs1, rs2),
        MicroOp::Or { rd, rs1, rs2 } => alu_reg_text(indent, "or"@, rd, rs1, rs2),
        MicroOp::And { rd, rs1, rs2 } => alu_reg_text(indent, "and"@, rd, rs1, rs2),
        MicroOp::Sll { rd, rs1, rs2 } => shift_reg_text(indent, "shl"@, rd, rs1, rs2),
        MicroOp::Srl { rd, rs1, rs2 } => shift_reg_text(indent, "shr_u"@, rd, rs1, rs2),
        MicroOp::Sra { rd, rs1, rs2 } => shift_reg_text(indent, "shr_s"@, rd, rs1, rs2),
        MicroOp::Slt { rd, rs1, rs2 } => slt_text(indent, rd, rs1, rs2, true),
        MicroOp::Sltu { rd, rs1, rs2 } => slt_text(indent, rd, rs1, rs2, false),
        MicroOp::Addiw { rd, rs1, imm } => alu_imm_w_text(indent, "add"@, rd, rs1, imm as i64),
        MicroOp::Slliw { rd, rs1, shamt } => shift_imm_w_text(indent, "shl"@, rd, rs1, shamt),
        MicroOp::Srliw { rd, rs1, shamt } => shift_imm_w_text(indent, "shr_u"@, rd, rs1, shamt),
        MicroOp::Sraiw { rd, rs1, shamt } => shift_imm_w_text(indent, "shr_s"@, rd, rs1, shamt),
        MicroOp::Addw { rd, rs1, rs2 } => alu_reg_w_text(indent, "add"@, rd, rs1, rs2),
        MicroOp::Subw { rd, rs1, rs2 } => alu_reg_w_text(indent, "sub"@, rd, rs1, rs2),
        MicroOp::Sllw { rd, rs1, rs2 } => shift_reg_w_text(indent, "shl"@, rd, rs1, rs2),
        MicroOp::Srlw { rd, rs1, rs2 } => shift_reg_w_text(indent, "shr_u"@, rd, rs1, rs2),
        MicroOp::Sraw { rd, rs1, rs2 } => shift_reg_w_text(indent, "shr_s"@, rd, rs1, rs2),
        MicroOp::Mul { rd, rs1, rs2 } => alu_reg_text(indent, "mul"@, rd, rs1, rs2),
        MicroOp::Mulh { rd, rs1, rs2 } => mulh_text(indent, rd, rs1, rs2, "mulh"@),
        MicroOp::Mulhsu { rd, rs1, rs2 } => mulh_text(indent, rd, rs1, rs2, "mulhsu"@),
        MicroOp::Mulhu { rd, rs1, rs2 } => mulh_text(indent, rd, rs1, rs2, "mulhu"@),
        MicroOp::Div { rd, rs1, rs2 } => div_text(indent, rd, rs1, rs2, true, false),
        MicroOp::Divu { rd, rs1, rs2 } => div_text(indent, rd, rs1, rs2, false, false),
        MicroOp::Rem { rd, rs1, rs2 } => rem_text(indent, rd, rs1, rs2, true, false),
        MicroOp::Remu { rd, rs1, rs2 } => rem_text(indent, rd, rs1, rs2, false, false),
        MicroOp::Mulw { rd, rs1, rs2 } => alu_reg_w_text(indent, "mul"@, rd, rs1, rs2),
        MicroOp::Divw { rd, rs1, rs2 } => div_text(indent, rd, rs1, rs2, true, true),
        MicroOp::Divuw { rd, rs1, rs2 } => div_text(indent, rd, rs1, rs2, false, true),
        MicroOp::Remw { rd, rs1, rs2 } => rem_text(indent, rd, rs1, rs2, true, true),
        MicroOp::Remuw { rd, rs1, rs2 } => rem_text(indent, rd, rs1, rs2, false, true),
        MicroOp::Lui { rd, imm } => lui_text(indent, rd, imm),
        MicroOp::Auipc { rd, imm, pc_offset } => auipc_text(indent, rd, imm, pc_offset, pc),
        MicroOp::Lb { rd, rs1, imm, .. } => load_text(indent, "i8"@, "s"@, "$read_u8"@, "(i64.extend_i32_s) (i64.shl (i64.const 56)) (i64.shr_s (i64.const 56))"@, rd, rs1, imm),
        MicroOp::Lbu { rd, rs1, imm, .. } => load_text(indent, "u8"@, "u"@, "$read_u8"@, "(i64.extend_i32_u)"@, rd, rs1, imm),
        MicroOp::Lh { rd, rs1, imm, .. } => load_text(indent, "i16"@, "s"@, "$read_u16"@, "(i64.extend_i32_s) (i64.shl (i64.const 48)) (i64.shr_s (i64.const 48))"@, rd, rs1, imm),
        MicroOp::Lhu { rd, rs1, imm, .. } => load_text(indent, "u16"@, "u"@, "$read_u16"@, "(i64.extend_i32_u)"@, rd, rs1, imm),
        MicroOp::Lw { rd, rs1, imm, .. } => load_text(indent, "i32"@, "s"@, "$read_u32"@, "(i64.extend_i32_s)"@, rd, rs1, imm),
        MicroOp::Lwu { rd, rs1, imm, .. } => load_text(indent, "u32"@, "u"@, "$read_u32"@, "(i64.extend_i32_u)"@, rd, rs1, imm),
        MicroOp::Ld { rd, rs1, imm, .. } => load_text(indent, "i64"@, ""@, "$read_u64"@, ""@, rd, rs1, imm),
        MicroOp::Sb { rs1, rs2, imm, .. } => store_text(indent, "8"@, "$write_u8"@, "\n        (i32.wrap_i64)  ;; truncate value"@, rs1, rs2, imm),
        MicroOp::Sh { rs1, rs2, imm, .. } => store_text(indent, "16"@, "$write_u16"@, "\n        (i32.wrap_i64)  ;; truncate value"@, rs1, rs2, imm),
        MicroOp::Sw { rs1, rs2, imm, .. } => store_text(indent, "32"@, "$write_u32"@, "\n        (i32.wrap_i64)  ;; truncate value"@, rs1, rs2, imm),
        MicroOp::Sd { rs1, rs2, imm, .. } => store_text(indent, "64"@, "$write_u64"@, ""@, rs1, rs2, imm),
        MicroOp::Beq { rs1, rs2, imm, pc_offset, .. } => branch_text(indent, "eq"@, rs1, rs2, imm, pc_offset, pc),
        MicroOp::Bne { rs1, rs2, imm, pc_offset, .. } => branch_text(indent, "ne"@, rs1, rs2, imm, pc_offset, pc),
        MicroOp::Blt { rs1, rs2, imm, pc_offset, .. } => branch_text(indent, "lt_s"@, rs1, rs2, imm, pc_offset, pc),
        MicroOp::Bge { rs1, rs2, imm, pc_offset, .. } => branch_text(indent, "ge_s"@, rs1, rs2, imm, pc_offset, pc),
        MicroOp::Bltu { rs1, rs2, imm, pc_offset, .. } => branch_text(indent, "lt_u"@, rs1, rs2, imm, pc_offset, pc),
        MicroOp::Bgeu { rs1, rs2, imm, pc_offset, .. } => branch_text(indent, "ge_u"@, rs1, rs2, imm, pc_offset, pc),
        MicroOp::Jal { rd, imm, pc_offset, insn_len } => jal_text(indent, rd, imm, pc_offset, insn_len, pc),
        MicroOp::Jalr { rd, rs1, imm, pc_offset, insn_len } => jalr_text(indent, rd, rs1, imm, pc_offset, insn_len, pc),
        MicroOp::Csrrw { rd, rs1, csr, pc_offset } => csr_text(indent, "csrrw"@, rd, rs1 as u16, csr, pc_offset, pc),
        MicroOp::Csrrs { rd, rs1, csr, pc_offset } => csr_text(indent, "csrrs"@, rd, rs1 as u16, csr, pc_offset, pc),
        MicroOp::Csrrc { rd, rs1, csr, pc_offset } => csr_text(indent, "csrrc"@, rd, rs1 as u16, csr, pc_offset, pc),
        MicroOp::Csrrwi { rd, zimm, csr, pc_offset } => csr_text(indent, "csrrwi"@, rd, zimm as u16, csr, pc_offset, pc),
        MicroOp::Csrrsi { rd, zimm, csr, pc_offset } => csr_text(indent, "csrrsi"@, rd, zimm as u16, csr, pc_offset, pc),
        MicroOp::Csrrci { rd, zimm, csr, pc_offset } => csr_text(indent, "csrrci"@, rd, zimm as u16, csr, pc_offset, pc),
        MicroOp::Ecall { pc_offset } => system_text(indent, "ecall"@, pc_offset, pc),
        MicroOp::Ebreak { pc_offset } => system_text(indent, "ebreak"@, pc_offset, pc),
        MicroOp::Mret { pc_offset } => system_text(indent, "mret"@, pc_offset, pc),
        MicroOp::Sret { pc_offset } => system_text(indent, "sret"@, pc_offset, pc),
        MicroOp::Wfi { pc_offset } => system_text(indent, "wfi"@, pc_offset, pc),
        MicroOp::SfenceVma { pc_offset } => system_text(indent, "sfence.vma"@, pc_offset, pc),
        MicroOp::Fence => fence_text(indent),
        MicroOp::LrW { rd, rs1, pc_offset } => lr_text(indent, rd, rs1, pc_offset, pc, true),
        MicroOp::LrD { rd, rs1, pc_offset } => lr_text(indent, rd, rs1, pc_offset, pc, false),
        MicroOp::ScW { rd, rs1, rs2, pc_offset } => sc_text(indent, rd, rs1, rs2, pc_offset, pc, true),
        MicroOp::ScD { rd, rs1, rs2, pc_offset } => sc_text(indent, rd, rs1, rs2, pc_offset, pc, false),
        MicroOp::AmoSwap { rd, rs1, rs2, is_word, pc_offset } => amo_text(indent, "swap"@, rd, rs1, rs2, is_word, pc_offset, pc),
        MicroOp::AmoAdd { rd, rs1, rs2, is_word, pc_offset } => amo_text(indent, "add"@, rd, rs1, rs2, is_word, pc_offset, pc),
        MicroOp::AmoXor { rd, rs1, rs2, is_word, pc_offset } => amo_text(indent, "xor"@, rd, rs1, rs2, is_word, pc_offset, pc),
        MicroOp::AmoAnd { rd, rs1, rs2, is_word, pc_offset } => amo_text(indent, "and"@, rd, rs1, rs2, is_word, pc_offset, pc),
        MicroOp::AmoOr { rd, rs1, rs2, is_word, pc_offset } => amo_text(indent, "or"@, rd, rs1, rs2, is_word, pc_offset, pc),
        MicroOp::AmoMin { rd, rs1, rs2, is_word, pc_offset } => amo_text(indent, "min"@, rd, rs1, rs2, is_word, pc_offset, pc),
        MicroOp::AmoMax { rd, rs1, rs2, is_word, pc_offset } => amo_text(indent, "max"@, rd, rs1, rs2, is_word, pc_offset, pc),
        MicroOp::AmoMinu { rd, rs1, rs2, is_word, pc_offset } => amo_text(indent, "minu"@, rd, rs1, rs2, is_word, pc_offset, pc),
        MicroOp::AmoMaxu { rd, rs1, rs2, is_word, pc_offset } => amo_text(indent, "maxu"@, rd, rs1, rs2, is_word, pc_offset, pc),
    }
}

/// What stands before each line of an instruction.
pub open spec fn indent_of(config: DisasmConfig) -> Seq<char> {
    if config.pretty {
        "    "@
    } else {
        ""@
    }
}

/// Writes an instruction as WebAssembly text.
fn disassemble_microop(op: &MicroOp, pc: u64, config: &DisasmConfig) -> (s: String)
    ensures
        s@ == microop_text(indent_of(*config), *op, pc),
{
    let indent = if config.pretty {
        "    "
    } else {
        ""
    };
    match *op {
        MicroOp::Addi { rd, rs1, imm } => disasm_alu_imm(indent, "add", rd, rs1, imm),
        MicroOp::Xori { rd, rs1, imm } => disasm_alu_imm(indent, "xor", rd, rs1, imm),
        MicroOp::Ori { rd, rs1, imm } => disasm_alu_imm(indent, "or", rd, rs1, imm),
        MicroOp::Andi { rd, rs1, imm } => disasm_alu_imm(indent, "and", rd, rs1, imm),
        MicroOp::Slti { rd, rs1, imm } => disasm_slti(indent, rd, rs1, imm, true),
        MicroOp::Sltiu { rd, rs1, imm } => disasm_slti(indent, rd, rs1, imm, false),
        MicroOp::Slli { rd, rs1, shamt } => disasm_shift_imm(indent, "shl", rd, rs1, shamt),
        MicroOp::Srli { rd, rs1, shamt } => disasm_shift_imm(indent, "shr_u", rd, rs1, shamt),
        MicroOp::Srai { rd, rs1, shamt } => disasm_shift_imm(indent, "shr_s", rd, rs1, shamt),
        MicroOp::Add { rd, rs1, rs2 } => disasm_alu_reg(indent, "add", rd, rs1, rs2),
        MicroOp::Sub { rd, rs1, rs2 } => disasm_alu_reg(indent, "sub", rd, rs1, rs2),
        MicroOp::Xor { rd, rs1, rs2 } => disasm_alu_reg(indent, "xor", rd, rs1, rs2),
        MicroOp::Or { rd, rs1, rs2 } => disasm_alu_reg(indent, "or", rd, rs1, rs2),
        MicroOp::And { rd, rs1, rs2 } => disasm_alu_reg(indent, "and", rd, rs1, rs2),
        MicroOp::Sll { rd, rs1, rs2 } => disasm_shift_reg(indent, "shl", rd, rs1, rs2),
        MicroOp::Srl { rd, rs1, rs2 } => disasm_shift_reg(indent, "shr_u", rd, rs1, rs2),
        MicroOp::Sra { rd, rs1, rs2 } => disasm_shift_reg(indent, "shr_s", rd, rs1, rs2),
        MicroOp::Slt { rd, rs1, rs2 } => disasm_slt(indent, rd, rs1, rs2, true),
        MicroOp::Sltu { rd, rs1, rs2 } => disasm_slt(indent, rd, rs1, rs2, false),
        MicroOp::Addiw { rd, rs1, imm } => disasm_alu_imm_w(indent, "add", rd, rs1, imm as i64),
        MicroOp::Slliw { rd, rs1, shamt } => disasm_shift_imm_w(indent, "shl", rd, rs1, shamt),
        MicroOp::Srliw { rd, rs1, shamt } => disasm_shift_imm_w(indent, "shr_u", rd, rs1, shamt),
        MicroOp::Sraiw { rd, rs1, shamt } => disasm_shift_imm_w(indent, "shr_s", rd, rs1, shamt),
        MicroOp::Addw { rd, rs1, rs2 } => disasm_alu_reg_w(indent, "add", rd, rs1, rs2),
        MicroOp::Subw { rd, rs1, rs2 } => disasm_alu_reg_w(indent, "sub", rd, rs1, rs2),
        MicroOp::Sllw { rd, rs1, rs2 } => disasm_shift_reg_w(indent, "shl", rd, rs1, rs2),
        MicroOp::Srlw { rd, rs1, rs2 } => disasm_shift_reg_w(indent, "shr_u", rd, rs1, rs2),
        MicroOp::Sraw { rd, rs1, rs2 } => disasm_shift_reg_w(indent, "shr_s", rd, rs1, rs2),
        MicroOp::Mul { rd, rs1, rs2 } => disasm_alu_reg(indent, "mul", rd, rs1, rs2),
        MicroOp::Mulh { rd, rs1, rs2 } => disasm_mulh(indent, rd, rs1, rs2, "mulh"),
        MicroOp::Mulhsu { rd, rs1, rs2 } => disasm_mulh(indent, rd, rs1, rs2, "mulhsu"),
        MicroOp::Mulhu { rd, rs1, rs2 } => disasm_mulh(indent, rd, rs1, rs2, "mulhu"),
        MicroOp::Div { rd, rs1, rs2 } => disasm_div(indent, rd, rs1, rs2, true, false),
        MicroOp::Divu { rd, rs1, rs2 } => disasm_div(indent, rd, rs1, rs2, false, false),
        MicroOp::Rem { rd, rs1, rs2 } => disasm_rem(indent, rd, rs1, rs2, true, false),
        MicroOp::Remu { rd, rs1, rs2 } => disasm_rem(indent, rd, rs1, rs2, false, false),
        MicroOp::Mulw { rd, rs1, rs2 } => disasm_alu_reg_w(indent, "mul", rd, rs1, rs2),
        MicroOp::Divw { rd, rs1, rs2 } => disasm_div(indent, rd, rs1, rs2, true, true),
        MicroOp::Divuw { rd, rs1, rs2 } => disasm_div(indent, rd, rs1, rs2, false, true),
        MicroOp::Remw { rd, rs1, rs2 } => disasm_rem(indent, rd, rs1, rs2, true, true),
        MicroOp::Remuw { rd, rs1, rs2 } => disasm_rem(indent, rd, rs1, rs2, false, true),
        MicroOp::Lui { rd, imm } => disasm_lui(indent, rd, imm),
        MicroOp::Auipc { rd, imm, pc_offset } => disasm_auipc(indent, rd, imm, pc_offset, pc),
        MicroOp::Lb { rd, rs1, imm, .. } => disasm_load(indent, "i8", "s", "$read_u8", "(i64.extend_i32_s) (i64.shl (i64.const 56)) (i64.shr_s (i64.const 56))", rd, rs1, imm),
        MicroOp::Lbu { rd, rs1, imm, .. } => disasm_load(indent, "u8", "u", "$read_u8", "(i64.extend_i32_u)", rd, rs1, imm),
        MicroOp::Lh { rd, rs1, imm, .. } => disasm_load(indent, "i16", "s", "$read_u16", "(i64.extend_i32_s) (i64.shl (i64.const 48)) (i64.shr_s (i64.const 48))", rd, rs1, imm),
        MicroOp::Lhu { rd, rs1, imm, .. } => disasm_load(indent, "u16", "u", "$read_u16", "(i64.extend_i32_u)", rd, rs1, imm),
        MicroOp::Lw { rd, rs1, imm, .. } => disasm_load(indent, "i32", "s", "$read_u32", "(i64.extend_i32_s)", rd, rs1, imm),
        MicroOp::Lwu { rd, rs1, imm, .. } => disasm_load(indent, "u32", "u", "$read_u32", "(i64.extend_i32_u)", rd, rs1, imm),
        MicroOp::Ld { rd, rs1, imm, .. } => disasm_load(indent, "i64", "", "$read_u64", "", rd, rs1, imm),
        MicroOp::Sb { rs1, rs2, imm, .. } => disasm_store(indent, "8", "$write_u8", "\n        (i32.wrap_i64)  ;; truncate value", rs1, rs2, imm),
        MicroOp::Sh { rs1, rs2, imm, .. } => disasm_store(indent, "16", "$write_u16", "\n        (i32.wrap_i64)  ;; truncate value", rs1, rs2, imm),
        MicroOp::Sw { rs1, rs2, imm, .. } => disasm_store(indent, "32", "$write_u32", "\n        (i32.wrap_i64)  ;; truncate value", rs1, rs2, imm),
        MicroOp::Sd { rs1, rs2, imm, .. } => disasm_store(indent, "64", "$write_u64", "", rs1, rs2, imm),
        MicroOp::Beq { rs1, rs2, imm, pc_offset, .. } => disasm_branch(indent, "eq", rs1, rs2, imm, pc_offset, pc),
        MicroOp::Bne { rs1, rs2, imm, pc_offset, .. } => disasm_branch(indent, "ne", rs1, rs2, imm, pc_offset, pc),
        MicroOp::Blt { rs1, rs2, imm, pc_offset, .. } => disasm_branch(indent, "lt_s", rs1, rs2, imm, pc_offset, pc),
        MicroOp::Bge { rs1, rs2, imm, pc_offset, .. } => disasm_branch(indent, "ge_s", rs1, rs2, imm, pc_offset, pc),
        MicroOp::Bltu { rs1, rs2, imm, pc_offset, .. } => disasm_branch(indent, "lt_u", rs1, rs2, imm, pc_offset, pc),
        MicroOp::Bgeu { rs1, rs2, imm, pc_offset, .. } => disasm_branch(indent, "ge_u", rs1, rs2, imm, pc_offset, pc),
        MicroOp::Jal { rd, imm, pc_offset, insn_len } => disasm_jal(indent, rd, imm, pc_offset, insn_len, pc),
        MicroOp::Jalr { rd, rs1, imm, pc_offset, insn_len } => disasm_jalr(indent, rd, rs1, imm, pc_offset, insn_len, pc),
        MicroOp::Csrrw { rd, rs1, csr, pc_offset } => disasm_csr(indent, "csrrw", rd, rs1 as u16, csr, pc_offset, pc),
        MicroOp::Csrrs { rd, rs1, csr, pc_offset } => disasm_csr(indent, "csrrs", rd, rs1 as u16, csr, pc_offset, pc),
        MicroOp::Csrrc { rd, rs1, csr, pc_offset } => disasm_csr(indent, "csrrc", rd, rs1 as u16, csr, pc_offset, pc),
        MicroOp::Csrrwi { rd, zimm, csr, pc_offset } => disasm_csr(indent, "csrrwi", rd, zimm as u16, csr, pc_offset, pc),
        MicroOp::Csrrsi { rd, zimm, csr, pc_offset } => disasm_csr(indent, "csrrsi", rd, zimm as u16, csr, pc_offset, pc),
        MicroOp::Csrrci { rd, zimm, csr, pc_offset } => disasm_csr(indent, "csrrci", rd, zimm as u16, csr, pc_offset, pc),
        MicroOp::Ecall { pc_offset } => disasm_system(indent, "ecall", pc_offset, pc),
        MicroOp::Ebreak { pc_offset } => disasm_system(indent, "ebreak", pc_offset, pc),
        MicroOp::Mret { pc_offset } => disasm_system(indent, "mret", pc_offset, pc),
        MicroOp::Sret { pc_offset } => disasm_system(indent, "sret", pc_offset, pc),
        MicroOp::Wfi { pc_offset } => disasm_system(indent, "wfi", pc_offset, pc),
        MicroOp::SfenceVma { pc_offset } => disasm_system(indent, "sfence.vma", pc_offset, pc),
        MicroOp::Fence => disasm_fence(indent),
        MicroOp::LrW { rd, rs1, pc_offset } => disasm_lr(indent, rd, rs1, pc_offset, pc, true),
        MicroOp::LrD { rd, rs1, pc_offset } => disasm_lr(indent, rd, rs1, pc_offset, pc, false),
        MicroOp::ScW { rd, rs1, rs2, pc_offset } => disasm_sc(indent, rd, rs1, rs2, pc_offset, pc, true),
        MicroOp::ScD { rd, rs1, rs2, pc_offset } => disasm_sc(indent, rd, rs1, rs2, pc_offset, pc, false),
        MicroOp::AmoSwap { rd, rs1, rs2, is_word, pc_offset } => disasm_amo(indent, "swap", rd, rs1, rs2, is_word, pc_offset, pc),
        MicroOp::AmoAdd { rd, rs1, rs2, is_word, pc_offset } => disasm_amo(indent, "add", rd, rs1, rs2, is_word, pc_offset, pc),
        MicroOp::AmoXor { rd, rs1, rs2, is_word, pc_offset } => disasm_amo(indent, "xor", rd, rs1, rs2, is_word, pc_offset, pc),
        MicroOp::AmoAnd { rd, rs1, rs2, is_word, pc_offset } => disasm_amo(indent, "and", rd, rs1, rs2, is_word, pc_offset, pc),
        MicroOp::AmoOr { rd, rs1, rs2, is_word, pc_offset } => disasm_amo(indent, "or", rd, rs1, rs2, is_word, pc_offset, pc),
        MicroOp::AmoMin { rd, rs1, rs2, is_word, pc_offset } => disasm_amo(indent, "min", rd, rs1, rs2, is_word, pc_offset, pc),
        MicroOp::AmoMax { rd, rs1, rs2, is_word, pc_offset } => disasm_amo(indent, "max", rd, rs1, rs2, is_word, pc_offset, pc),
        MicroOp::AmoMinu { rd, rs1, rs2, is_word, pc_offset } => disasm_amo(indent, "minu", rd, rs1, rs2, is_word, pc_offset, pc),
        MicroOp::AmoMaxu { rd, rs1, rs2, is_word, pc_offset } => disasm_amo(indent, "maxu", rd, rs1, rs2, is_word, pc_offset, pc),
    }
}

// Instructions with the names of their fields.

/// A truth value in words.
pub open spec fn bool_text(b: bool) -> Seq<char> {
    if b {
        "true"@
    } else {
        "false"@
    }
}

pub open spec fn debug_imm(name: Seq<char>, rd: u8, rs1: u8, imm: i64) -> Seq<char> {
    name
        + " { rd: "@
        + dec(rd as nat)
        + ", rs1: "@
        + dec(rs1 as nat)
        + ", imm: "@
        + dec_signed(imm as int)
        + " }"@
}

fn write_imm(name: &str, rd: u8, rs1: u8, imm: i64) -> (s: String)
    ensures
        s@ == debug_imm(name@, rd, rs1, imm),
{
    let mut out = String::from_str(name);
    out.append(" { rd: ");
    push_dec(&mut out, rd as u64);
    out.append(", rs1: ");
    push_dec(&mut out, rs1 as u64);
    out.append(", imm: ");
    push_dec_signed(&mut out, imm);
    out.append(" }");
    out
}

pub open spec fn debug_shamt(name: Seq<char>, rd: u8, rs1: u8, shamt: u8) -> Seq<char> {
    name
        + " { rd: "@
        + dec(rd as nat)
        + ", rs1: "@
        + dec(rs1 as nat)
        + ", shamt: "@
        + dec(shamt as nat)
        + " }"@
}

fn write_shamt(name: &str, rd: u8, rs1: u8, shamt: u8) -> (s: String)
    ensures
        s@ == debug_shamt(name@, rd, rs1, shamt),
{
    let mut out = String::from_str(name);
    out.append(" { rd: ");
    push_dec(&mut out, rd as u64);
    out.append(", rs1: ");
    push_dec(&mut out, rs1 as u64);
    out.append(", shamt: ");
    push_dec(&mut out, shamt as u64);
    out.append(" }");
    out
}

pub open spec fn debug_regs(name: Seq<char>, rd: u8, rs1: u8, rs2: u8) -> Seq<char> {
    name
        + " { rd: "@
        + dec(rd as nat)
        + ", rs1: "@
        + dec(rs1 as nat)
        + ", rs2: "@
        + dec(rs2 as nat)
        + " }"@
}

fn write_regs(name: &str, rd: u8, rs1: u8, rs2: u8) -> (s: String)
    ensures
        s@ == debug_regs(name@, rd, rs1, rs2),
{
    let mut out = String::from_str(name);
    out.append(" { rd: ");
    push_dec(&mut out, rd as u64);
    out.append(", rs1: ");
    push_dec(&mut out, rs1 as u64);
    out.append(", rs2: ");
    push_dec(&mut out, rs2 as u64);
    out.append(" }");
    out
}

pub open spec fn debug_upper(name: Seq<char>, rd: u8, imm: i64) -> Seq<char> {
    name
        + " { rd: "@
        + dec(rd as nat)
        + ", imm: "@
        + dec_signed(imm as int)
        + " }"@
}

fn write_upper(name: &str, rd: u8, imm: i64) -> (s: String)
    ensures
        s@ == debug_upper(name@, rd, imm),
{
    let mut out = String::from_str(name);
    out.append(" { rd: ");
    push_dec(&mut out, rd as u64);
    out.append(", imm: ");
    push_dec_signed(&mut out, imm);
    out.append(" }");
    out
}

pub open spec fn debug_upper_pc(name: Seq<char>, rd: u8, imm: i64, pc_offset: u16) -> Seq<char> {
    name
        + " { rd: "@
        + dec(rd as nat)
        + ", imm: "@
        + dec_signed(imm as int)
        + ", pc_offset: "@
        + dec(pc_offset as nat)
        + " }"@
}

fn write_upper_pc(name: &str, rd: u8, imm: i64, pc_offset: u16) -> (s: String)
    ensures
        s@ == debug_upper_pc(name@, rd, imm, pc_offset),
{
    let mut out = String::from_str(name);
    out.append(" { rd: ");
    push_dec(&mut out, rd as u64);
    out.append(", imm: ");
    push_dec_signed(&mut out, imm);
    out.append(", pc_offset: ");
    push_dec(&mut out, pc_offset as u64);
    out.append(" }");
    out
}

pub open spec fn debug_load(
    name: Seq<char>,
    rd: u8,
    rs1: u8,
    imm: i64,
    pc_offset: u16,
) -> Seq<char> {
    name
        + " { rd: "@
        + dec(rd as nat)
        + ", rs1: "@
        + dec(rs1 as nat)
        + ", imm: "@
        + dec_signed(imm as int)
        + ", pc_offset: "@
        + dec(pc_offset as nat)
        + " }"@
}

fn write_load(name: &str, rd: u8, rs1: u8, imm: i64, pc_offset: u16) -> (s: String)
    ensures
        s@ == debug_load(name@, rd, rs1, imm, pc_offset),
{
    let mut out = String::from_str(name);
    out.append(" { rd: ");
    push_dec(&mut out, rd as u64);
    out.append(", rs1: ");
    push_dec(&mut out, rs1 as u64);
    out.append(", imm: ");
    push_dec_signed(&mut out, imm);
    out.append(", pc_offset: ");
    push_dec(&mut out, pc_offset as u64);
    out.append(" }");
    out
}

pub open spec fn debug_store(
    name: Seq<char>,
    rs1: u8,
    rs2: u8,
    imm: i64,
    pc_offset: u16,
) -> Seq<char> {
    name
        + " { rs1: "@
        + dec(rs1 as nat)
        + ", rs2: "@
        + dec(rs2 as nat)
        + ", imm: "@
        + dec_signed(imm as int)
        + ", pc_offset: "@
        + dec(pc_offset as nat)
        + " }"@
}

fn write_store(name: &str, rs1: u8, rs2: u8, imm: i64, pc_offset: u16) -> (s: String)
    ensures
        s@ == debug_store(name@, rs1, rs2, imm, pc_offset),
{
    let mut out = String::from_str(name);
    out.append(" { rs1: ");
    push_dec(&mut out, rs1 as u64);
    out.append(", rs2: ");
    push_dec(&mut out, rs2 as u64);
    out.append(", imm: ");
    push_dec_signed(&mut out, imm);
    out.append(", pc_offset: ");
    push_dec(&mut out, pc_offset as u64);
    out.append(" }");
    out
}

pub open spec fn debug_branch(
    name: Seq<char>,
    rs1: u8,
    rs2: u8,
    imm: i64,
    pc_offset: u16,
    insn_len: u8,
) -> Seq<char> {
    name
        + " { rs1: "@
        + dec(rs1 as nat)
        + ", rs2: "@
        + dec(rs2 as nat)
        + ", imm: "@
        + dec_signed(imm as int)
        + ", pc_offset: "@
        + dec(pc_offset as nat)
        + ", insn_len: "@
        + dec(insn_len as nat)
        + " }"@
}

fn write_branch(name: &str, rs1: u8, rs2: u8, imm: i64, pc_offset: u16, insn_len: u8) -> (s: String)
    ensures
        s@ == debug_branch(name@, rs1, rs2, imm, pc_offset, insn_len),
{
    let mut out = String::from_str(name);
    out.append(" { rs1: ");
    push_dec(&mut out, rs1 as u64);
    out.append(", rs2: ");
    push_dec(&mut out, rs2 as u64);
    out.append(", imm: ");
    push_dec_signed(&mut out, imm);
    out.append(", pc_offset: ");
    push_dec(&mut out, pc_offset as u64);
    out.append(", insn_len: ");
    push_dec(&mut out, insn_len as u64);
    out.append(" }");
    out
}

pub open spec fn debug_jal(
    name: Seq<char>,
    rd: u8,
    imm: i64,
    pc_offset: u16,
    insn_len: u8,
) -> Seq<char> {
    name
        + " { rd: "@
        + dec(rd as nat)
        + ", imm: "@
        + dec_signed(imm as int)
        + ", pc_offset: "@
        + dec(pc_offset as nat)
        + ", insn_len: "@
        + dec(insn_len as nat)
        + " }"@
}

fn write_jal(name: &str, rd: u8, imm: i64, pc_offset: u16, insn_len: u8) -> (s: String)
    ensures
        s@ == debug_jal(name@, rd, imm, pc_offset, insn_len),
{
    let mut out = String::from_str(name);
    out.append(" { rd: ");
    push_dec(&mut out, rd as u64);
    out.append(", imm: ");
    push_dec_signed(&mut out, imm);
    out.append(", pc_offset: ");
    push_dec(&mut out, pc_offset as u64);
    out.append(", insn_len: ");
    push_dec(&mut out, insn_len as u64);
    out.append(" }");
    out
}

pub open spec fn debug_jalr(
    name: Seq<char>,
    rd: u8,
    rs1: u8,
    imm: i64,
    pc_offset: u16,
    insn_len: u8,
) -> Seq<char> {
    name
        + " { rd: "@
        + dec(rd as nat)
        + ", rs1: "@
        + dec(rs1 as nat)
        + ", imm: "@
        + dec_signed(imm as int)
        + ", pc_offset: "@
        + dec(pc_offset as nat)
        + ", insn_len: "@
        + dec(insn_len as nat)
        + " }"@
}

fn write_jalr(name: &str, rd: u8, rs1: u8, imm: i64, pc_offset: u16, insn_len: u8) -> (s: String)
    ensures
        s@ == debug_jalr(name@, rd, rs1, imm, pc_offset, insn_len),
{
    let mut out = String::from_str(name);
    out.append(" { rd: ");
    push_dec(&mut out, rd as u64);
    out.append(", rs1: ");
    push_dec(&mut out, rs1 as u64);
    out.append(", imm: ");
    push_dec_signed(&mut out, imm);
    out.append(", pc_offset: ");
    push_dec(&mut out, pc_offset as u64);
    out.append(", insn_len: ");
    push_dec(&mut out, insn_len as u64);
    out.append(" }");
    out
}

pub open spec fn debug_csr(
    name: Seq<char>,
    rd: u8,
    rs1: u8,
    csr: u16,
    pc_offset: u16,
) -> Seq<char> {
    name
        + " { rd: "@
        + dec(rd as nat)
        + ", rs1: "@
        + dec(rs1 as nat)
        + ", csr: "@
        + dec(csr as nat)
        + ", pc_offset: "@
        + dec(pc_offset as nat)
        + " }"@
}

fn write_csr(name: &str, rd: u8, rs1: u8, csr: u16, pc_offset: u16) -> (s: String)
    ensures
        s@ == debug_csr(name@, rd, rs1, csr, pc_offset),
{
    let mut out = String::from_str(name);
    out.append(" { rd: ");
    push_dec(&mut out, rd as u64);
    out.append(", rs1: ");
    push_dec(&mut out, rs1 as u64);
    out.append(", csr: ");
    push_dec(&mut out, csr as u64);
    out.append(", pc_offset: ");
    push_dec(&mut out, pc_offset as u64);
    out.append(" }");
    out
}

pub open spec fn debug_csr_imm(
    name: Seq<char>,
    rd: u8,
    zimm: u8,
    csr: u16,
    pc_offset: u16,
) -> Seq<char> {
    name
        + " { rd: "@
        + dec(rd as nat)
        + ", zimm: "@
        + dec(zimm as nat)
        + ", csr: "@
        + dec(csr as nat)
        + ", pc_offset: "@
        + dec(pc_offset as nat)
        + " }"@
}

fn write_csr_imm(name: &str, rd: u8, zimm: u8, csr: u16, pc_offset: u16) -> (s: String)
    ensures
        s@ == debug_csr_imm(name@, rd, zimm, csr, pc_offset),
{
    let mut out = String::from_str(name);
    out.append(" { rd: ");
    push_dec(&mut out, rd as u64);
    out.append(", zimm: ");
    push_dec(&mut out, zimm as u64);
    out.append(", csr: ");
    push_dec(&mut out, csr as u64);
    out.append(", pc_offset: ");
    push_dec(&mut out, pc_offset as u64);
    out.append(" }");
    out
}

pub open spec fn debug_system(name: Seq<char>, pc_offset: u16) -> Seq<char> {
    name
        + " { pc_offset: "@
        + dec(pc_offset as nat)
        + " }"@
}

fn write_system(name: &str, pc_offset: u16) -> (s: String)
    ensures
        s@ == debug_system(name@, pc_offset),
{
    let mut out = String::from_str(name);
    out.append(" { pc_offset: ");
    push_dec(&mut out, pc_offset as u64);
    out.append(" }");
    out
}

pub open spec fn debug_lr(name: Seq<char>, rd: u8, rs1: u8, pc_offset: u16) -> Seq<char> {
    name
        + " { rd: "@
        + dec(rd as nat)
        + ", rs1: "@
        + dec(rs1 as nat)
        + ", pc_offset: "@
        + dec(pc_offset as nat)
        + " }"@
}

fn write_lr(name: &str, rd: u8, rs1: u8, pc_offset: u16) -> (s: String)
    ensures
        s@ == debug_lr(name@, rd, rs1, pc_offset),
{
    let mut out = String::from_str(name);
    out.append(" { rd: ");
    push_dec(&mut out, rd as u64);
    out.append(", rs1: ");
    push_dec(&mut out, rs1 as u64);
    out.append(", pc_offset: ");
    push_dec(&mut out, pc_offset as u64);
    out.append(" }");
    out
}

pub open spec fn debug_sc(name: Seq<char>, rd: u8, rs1: u8, rs2: u8, pc_offset: u16) -> Seq<char> {
    name
        + " { rd: "@
        + dec(rd as nat)
        + ", rs1: "@
        + dec(rs1 as nat)
        + ", rs2: "@
        + dec(rs2 as nat)
        + ", pc_offset: "@
        + dec(pc_offset as nat)
        + " }"@
}

fn write_sc(name: &str, rd: u8, rs1: u8, rs2: u8, pc_offset: u16) -> (s: String)
    ensures
        s@ == debug_sc(name@, rd, rs1, rs2, pc_offset),
{
    let mut out = String::from_str(name);
    out.append(" { rd: ");
    push_dec(&mut out, rd as u64);
    out.append(", rs1: ");
    push_dec(&mut out, rs1 as u64);
    out.append(", rs2: ");
    push_dec(&mut out, rs2 as u64);
    out.append(", pc_offset: ");
    push_dec(&mut out, pc_offset as u64);
    out.append(" }");
    out
}

pub open spec fn debug_amo(
    name: Seq<char>,
    rd: u8,
    rs1: u8,
    rs2: u8,
    is_word: bool,
    pc_offset: u16,
) -> Seq<char> {
    name
        + " { rd: "@
        + dec(rd as nat)
        + ", rs1: "@
        + dec(rs1 as nat)
        + ", rs2: "@
        + dec(rs2 as nat)
        + ", is_word: "@
        + bool_text(is_word)
        + ", pc_offset: "@
        + dec(pc_offset as nat)
        + " }"@
}

fn write_amo(name: &str, rd: u8, rs1: u8, rs2: u8, is_word: bool, pc_offset: u16) -> (s: String)
    ensures
        s@ == debug_amo(name@, rd, rs1, rs2, is_word, pc_offset),
{
    let mut out = String::from_str(name);
    out.append(" { rd: ");
    push_dec(&mut out, rd as u64);
    out.append(", rs1: ");
    push_dec(&mut out, rs1 as u64);
    out.append(", rs2: ");
    push_dec(&mut out, rs2 as u64);
    out.append(", is_word: ");
    if is_word {
        out.append("true");
    } else {
        out.append("false");
    }
    out.append(", pc_offset: ");
    push_dec(&mut out, pc_offset as u64);
    out.append(" }");
    out
}

/// An instruction as its name and its fields.
pub open spec fn debug_text(op: MicroOp) -> Seq<char> {
    match op {
        MicroOp::Addi { rd, rs1, imm } => debug_imm("Addi"@, rd, rs1, imm),
        MicroOp::Xori { rd, rs1, imm } => debug_imm("Xori"@, rd, rs1, imm),
        MicroOp::Ori { rd, rs1, imm } => debug_imm("Ori"@, rd, rs1, imm),
        MicroOp::Andi { rd, rs1, imm } => debug_imm("Andi"@, rd, rs1, imm),
        MicroOp::Slti { rd, rs1, imm } => debug_imm("Slti"@, rd, rs1, imm),
        MicroOp::Sltiu { rd, rs1, imm } => debug_imm("Sltiu"@, rd, rs1, imm),
        MicroOp::Slli { rd, rs1, shamt } => debug_shamt("Slli"@, rd, rs1, shamt),
        MicroOp::Srli { rd, rs1, shamt } => debug_shamt("Srli"@, rd, rs1, shamt),
        MicroOp::Srai { rd, rs1, shamt } => debug_shamt("Srai"@, rd, rs1, shamt),
        MicroOp::Add { rd, rs1, rs2 } => debug_regs("Add"@, rd, rs1, rs2),
        MicroOp::Sub { rd, rs1, rs2 } => debug_regs("Sub"@, rd, rs1, rs2),
        MicroOp::Xor { rd, rs1, rs2 } => debug_regs("Xor"@, rd, rs1, rs2),
        MicroOp::Or { rd, rs1, rs2 } => debug_regs("Or"@, rd, rs1, rs2),
        MicroOp::And { rd, rs1, rs2 } => debug_regs("And"@, rd, rs1, rs2),
        MicroOp::Sll { rd, rs1, rs2 } => debug_regs("Sll"@, rd, rs1, rs2),
        MicroOp::Srl { rd, rs1, rs2 } => debug_regs("Srl"@, rd, rs1, rs2),
        MicroOp::Sra { rd, rs1, rs2 } => debug_regs("Sra"@, rd, rs1, rs2),
        MicroOp::Slt { rd, rs1, rs2 } => debug_regs("Slt"@, rd, rs1, rs2),
        MicroOp::Sltu { rd, rs1, rs2 } => debug_regs("Sltu"@, rd, rs1, rs2),
        MicroOp::Addiw { rd, rs1, imm } => debug_imm("Addiw"@, rd, rs1, imm as i64),
        MicroOp::Slliw { rd, rs1, shamt } => debug_shamt("Slliw"@, rd, rs1, shamt),
        MicroOp::Srliw { rd, rs1, shamt } => debug_shamt("Srliw"@, rd, rs1, shamt),
        MicroOp::Sraiw { rd, rs1, shamt } => debug_shamt("Sraiw"@, rd, rs1, shamt),
        MicroOp::Addw { rd, rs1, rs2 } => debug_regs("Addw"@, rd, rs1, rs2),
        MicroOp::Subw { rd, rs1, rs2 } => debug_regs("Subw"@, rd, rs1, rs2),
        MicroOp::Sllw { rd, rs1, rs2 } => debug_regs("Sllw"@, rd, rs1, rs2),
        MicroOp::Srlw { rd, rs1, rs2 } => debug_regs("Srlw"@, rd, rs1, rs2),
        MicroOp::Sraw { rd, rs1, rs2 } => debug_regs("Sraw"@, rd, rs1, rs2),
        MicroOp::Mul { rd, rs1, rs2 } => debug_regs("Mul"@, rd, rs1, rs2),
        MicroOp::Mulh { rd, rs1, rs2 } => debug_regs("Mulh"@, rd, rs1, rs2),
        MicroOp::Mulhsu { rd, rs1, rs2 } => debug_regs("Mulhsu"@, rd, rs1, rs2),
        MicroOp::Mulhu { rd, rs1, rs2 } => debug_regs("Mulhu"@, rd, rs1, rs2),
        MicroOp::Div { rd, rs1, rs2 } => debug_regs("Div"@, rd, rs1, rs2),
        MicroOp::Divu { rd, rs1, rs2 } => debug_regs("Divu"@, rd, rs1, rs2),
        MicroOp::Rem { rd, rs1, rs2 } => debug_regs("Rem"@, rd, rs1, rs2),
        MicroOp::Remu { rd, rs1, rs2 } => debug_regs("Remu"@, rd, rs1, rs2),
        MicroOp::Mulw { rd, rs1, rs2 } => debug_regs("Mulw"@, rd, rs1, rs2),
        MicroOp::Divw { rd, rs1, rs2 } => debug_regs("Divw"@, rd, rs1, rs2),
        MicroOp::Divuw { rd, rs1, rs2 } => debug_regs("Divuw"@, rd, rs1, rs2),
        MicroOp::Remw { rd, rs1, rs2 } => debug_regs("Remw"@, rd, rs1, rs2),
        MicroOp::Remuw { rd, rs1, rs2 } => debug_regs("Remuw"@, rd, rs1, rs2),
        MicroOp::Lui { rd, imm } => debug_upper("Lui"@, rd, imm),
        MicroOp::Auipc { rd, imm, pc_offset } => debug_upper_pc("Auipc"@, rd, imm, pc_offset),
        MicroOp::Lb { rd, rs1, imm, pc_offset } => debug_load("Lb"@, rd, rs1, imm, pc_offset),
        MicroOp::Lbu { rd, rs1, imm, pc_offset } => debug_load("Lbu"@, rd, rs1, imm, pc_offset),
        MicroOp::Lh { rd, rs1, imm, pc_offset } => debug_load("Lh"@, rd, rs1, imm, pc_offset),
        MicroOp::Lhu { rd, rs1, imm, pc_offset } => debug_load("Lhu"@, rd, rs1, imm, pc_offset),
        MicroOp::Lw { rd, rs1, imm, pc_offset } => debug_load("Lw"@, rd, rs1, imm, pc_offset),
        MicroOp::Lwu { rd, rs1, imm, pc_offset } => debug_load("Lwu"@, rd, rs1, imm, pc_offset),
        MicroOp::Ld { rd, rs1, imm, pc_offset } => debug_load("Ld"@, rd, rs1, imm, pc_offset),
        MicroOp::Sb { rs1, rs2, imm, pc_offset } => debug_store("Sb"@, rs1, rs2, imm, pc_offset),
        MicroOp::Sh { rs1, rs2, imm, pc_offset } => debug_store("Sh"@, rs1, rs2, imm, pc_offset),
        MicroOp::Sw { rs1, rs2, imm, pc_offset } => debug_store("Sw"@, rs1, rs2, imm, pc_offset),
        MicroOp::Sd { rs1, rs2, imm, pc_offset } => debug_store("Sd"@, rs1, rs2, imm, pc_offset),
        MicroOp::Beq { rs1, rs2, imm, pc_offset, insn_len } => debug_branch("Beq"@, rs1, rs2, imm, pc_offset, insn_len),
        MicroOp::Bne { rs1, rs2, imm, pc_offset, insn_len } => debug_branch("Bne"@, rs1, rs2, imm, pc_offset, insn_len),
        MicroOp::Blt { rs1, rs2, imm, pc_offset, insn_len } => debug_branch("Blt"@, rs1, rs2, imm, pc_offset, insn_len),
        MicroOp::Bge { rs1, rs2, imm, pc_offset, insn_len } => debug_branch("Bge"@, rs1, rs2, imm, pc_offset, insn_len),
        MicroOp::Bltu { rs1, rs2, imm, pc_offset, insn_len } => debug_branch("Bltu"@, rs1, rs2, imm, pc_offset, insn_len),
        MicroOp::Bgeu { rs1, rs2, imm, pc_offset, insn_len } => debug_branch("Bgeu"@, rs1, rs2, imm, pc_offset, insn_len),
        MicroOp::Jal { rd, imm, pc_offset, insn_len } => debug_jal("Jal"@, rd, imm, pc_offset, insn_len),
        MicroOp::Jalr { rd, rs1, imm, pc_offset, insn_len } => debug_jalr("Jalr"@, rd, rs1, imm, pc_offset, insn_len),
        MicroOp::Csrrw { rd, rs1, csr, pc_offset } => debug_csr("Csrrw"@, rd, rs1, csr, pc_offset),
        MicroOp::Csrrs { rd, rs1, csr, pc_offset } => debug_csr("Csrrs"@, rd, rs1, csr, pc_offset),
        MicroOp::Csrrc { rd, rs1, csr, pc_offset } => debug_csr("Csrrc"@, rd, rs1, csr, pc_offset),
        MicroOp::Csrrwi { rd, zimm, csr, pc_offset } => debug_csr_imm("Csrrwi"@, rd, zimm, csr, pc_offset),
        MicroOp::Csrrsi { rd, zimm, csr, pc_offset } => debug_csr_imm("Csrrsi"@, rd, zimm, csr, pc_offset),
        MicroOp::Csrrci { rd, zimm, csr, pc_offset } => debug_csr_imm("Csrrci"@, rd, zimm, csr, pc_offset),
        MicroOp::Ecall { pc_offset } => debug_system("Ecall"@, pc_offset),
        MicroOp::Ebreak { pc_offset } => debug_system("Ebreak"@, pc_offset),
        MicroOp::Mret { pc_offset } => debug_system("Mret"@, pc_offset),
        MicroOp::Sret { pc_offset } => debug_system("Sret"@, pc_offset),
        MicroOp::Wfi { pc_offset } => debug_system("Wfi"@, pc_offset),
        MicroOp::SfenceVma { pc_offset } => debug_system("SfenceVma"@, pc_offset),
        MicroOp::Fence => "Fence"@,
        MicroOp::LrW { rd, rs1, pc_offset } => debug_lr("LrW"@, rd, rs1, pc_offset),
        MicroOp::LrD { rd, rs1, pc_offset } => debug_lr("LrD"@, rd, rs1, pc_offset),
        MicroOp::ScW { rd, rs1, rs2, pc_offset } => debug_sc("ScW"@, rd, rs1, rs2, pc_offset),
        MicroOp::ScD { rd, rs1, rs2, pc_offset } => debug_sc("ScD"@, rd, rs1, rs2, pc_offset),
        MicroOp::AmoSwap { rd, rs1, rs2, is_word, pc_offset } => debug_amo("AmoSwap"@, rd, rs1, rs2, is_word, pc_offset),
        MicroOp::AmoAdd { rd, rs1, rs2, is_word, pc_offset } => debug_amo("AmoAdd"@, rd, rs1, rs2, is_word, pc_offset),
        MicroOp::AmoXor { rd, rs1, rs2, is_word, pc_offset } => debug_amo("AmoXor"@, rd, rs1, rs2, is_word, pc_offset),
        MicroOp::AmoAnd { rd, rs1, rs2, is_word, pc_offset } => debug_amo("AmoAnd"@, rd, rs1, rs2, is_word, pc_offset),
        MicroOp::AmoOr { rd, rs1, rs2, is_word, pc_offset } => debug_amo("AmoOr"@, rd, rs1, rs2, is_word, pc_offset),
        MicroOp::AmoMin { rd, rs1, rs2, is_word, pc_offset } => debug_amo("AmoMin"@, rd, rs1, rs2, is_word, pc_offset),
        MicroOp::AmoMax { rd, rs1, rs2, is_word, pc_offset } => debug_amo("AmoMax"@, rd, rs1, rs2, is_word, pc_offset),
        MicroOp::AmoMinu { rd, rs1, rs2, is_word, pc_offset } => debug_amo("AmoMinu"@, rd, rs1, rs2, is_word, pc_offset),
        MicroOp::AmoMaxu { rd, rs1, rs2, is_word, pc_offset } => debug_amo("AmoMaxu"@, rd, rs1, rs2, is_word, pc_offset),
    }
}

/// Writes an instruction as its name and its fields.
pub fn describe_microop(op: &MicroOp) -> (s: String)
    ensures
        s@ == debug_text(*op),
{
    match *op {
        MicroOp::Addi { rd, rs1, imm } => write_imm("Addi", rd, rs1, imm),
        MicroOp::Xori { rd, rs1, imm } => write_imm("Xori", rd, rs1, imm),
        MicroOp::Ori { rd, rs1, imm } => write_imm("Ori", rd, rs1, imm),
        MicroOp::Andi { rd, rs1, imm } => write_imm("Andi", rd, rs1, imm),
        MicroOp::Slti { rd, rs1, imm } => write_imm("Slti", rd, rs1, imm),
        MicroOp::Sltiu { rd, rs1, imm } => write_imm("Sltiu", rd, rs1, imm),
        MicroOp::Slli { rd, rs1, shamt } => write_shamt("Slli", rd, rs1, shamt),
        MicroOp::Srli { rd, rs1, shamt } => write_shamt("Srli", rd, rs1, shamt),
        MicroOp::Srai { rd, rs1, shamt } => write_shamt("Srai", rd, rs1, shamt),
        MicroOp::Add { rd, rs1, rs2 } => write_regs("Add", rd, rs1, rs2),
        MicroOp::Sub { rd, rs1, rs2 } => write_regs("Sub", rd, rs1, rs2),
        MicroOp::Xor { rd, rs1, rs2 } => write_regs("Xor", rd, rs1, rs2),
        MicroOp::Or { rd, rs1, rs2 } => write_regs("Or", rd, rs1, rs2),
        MicroOp::And { rd, rs1, rs2 } => write_regs("And", rd, rs1, rs2),
        MicroOp::Sll { rd, rs1, rs2 } => write_regs("Sll", rd, rs1, rs2),
        MicroOp::Srl { rd, rs1, rs2 } => write_regs("Srl", rd, rs1, rs2),
        MicroOp::Sra { rd, rs1, rs2 } => write_regs("Sra", rd, rs1, rs2),
        MicroOp::Slt { rd, rs1, rs2 } => write_regs("Slt", rd, rs1, rs2),
        MicroOp::Sltu { rd, rs1, rs2 } => write_regs("Sltu", rd, rs1, rs2),
        MicroOp::Addiw { rd, rs1, imm } => write_imm("Addiw", rd, rs1, imm as i64),
        MicroOp::Slliw { rd, rs1, shamt } => write_shamt("Slliw", rd, rs1, shamt),
        MicroOp::Srliw { rd, rs1, shamt } => write_shamt("Srliw", rd, rs1, shamt),
        MicroOp::Sraiw { rd, rs1, shamt } => write_shamt("Sraiw", rd, rs1, shamt),
        MicroOp::Addw { rd, rs1, rs2 } => write_regs("Addw", rd, rs1, rs2),
        MicroOp::Subw { rd, rs1, rs2 } => write_regs("Subw", rd, rs1, rs2),
        MicroOp::Sllw { rd, rs1, rs2 } => write_regs("Sllw", rd, rs1, rs2),
        MicroOp::Srlw { rd, rs1, rs2 } => write_regs("Srlw", rd, rs1, rs2),
        MicroOp::Sraw { rd, rs1, rs2 } => write_regs("Sraw", rd, rs1, rs2),
        MicroOp::Mul { rd, rs1, rs2 } => write_regs("Mul", rd, rs1, rs2),
        MicroOp::Mulh { rd, rs1, rs2 } => write_regs("Mulh", rd, rs1, rs2),
        MicroOp::Mulhsu { rd, rs1, rs2 } => write_regs("Mulhsu", rd, rs1, rs2),
        MicroOp::Mulhu { rd, rs1, rs2 } => write_regs("Mulhu", rd, rs1, rs2),
        MicroOp::Div { rd, rs1, rs2 } => write_regs("Div", rd, rs1, rs2),
        MicroOp::Divu { rd, rs1, rs2 } => write_regs("Divu", rd, rs1, rs2),
        MicroOp::Rem { rd, rs1, rs2 } => write_regs("Rem", rd, rs1, rs2),
        MicroOp::Remu { rd, rs1, rs2 } => write_regs("Remu", rd, rs1, rs2),
        MicroOp::Mulw { rd, rs1, rs2 } => write_regs("Mulw", rd, rs1, rs2),
        MicroOp::Divw { rd, rs1, rs2 } => write_regs("Divw", rd, rs1, rs2),
        MicroOp::Divuw { rd, rs1, rs2 } => write_regs("Divuw", rd, rs1, rs2),
        MicroOp::Remw { rd, rs1, rs2 } => write_regs("Remw", rd, rs1, rs2),
        MicroOp::Remuw { rd, rs1, rs2 } => write_regs("Remuw", rd, rs1, rs2),
        MicroOp::Lui { rd, imm } => write_upper("Lui", rd, imm),
        MicroOp::Auipc { rd, imm, pc_offset } => write_upper_pc("Auipc", rd, imm, pc_offset),
        MicroOp::Lb { rd, rs1, imm, pc_offset } => write_load("Lb", rd, rs1, imm, pc_offset),
        MicroOp::Lbu { rd, rs1, imm, pc_offset } => write_load("Lbu", rd, rs1, imm, pc_offset),
        MicroOp::Lh { rd, rs1, imm, pc_offset } => write_load("Lh", rd, rs1, imm, pc_offset),
        MicroOp::Lhu { rd, rs1, imm, pc_offset } => write_load("Lhu", rd, rs1, imm, pc_offset),
        MicroOp::Lw { rd, rs1, imm, pc_offset } => write_load("Lw", rd, rs1, imm, pc_offset),
        MicroOp::Lwu { rd, rs1, imm, pc_offset } => write_load("Lwu", rd, rs1, imm, pc_offset),
        MicroOp::Ld { rd, rs1, imm, pc_offset } => write_load("Ld", rd, rs1, imm, pc_offset),
        MicroOp::Sb { rs1, rs2, imm, pc_offset } => write_store("Sb", rs1, rs2, imm, pc_offset),
        MicroOp::Sh { rs1, rs2, imm, pc_offset } => write_store("Sh", rs1, rs2, imm, pc_offset),
        MicroOp::Sw { rs1, rs2, imm, pc_offset } => write_store("Sw", rs1, rs2, imm, pc_offset),
        MicroOp::Sd { rs1, rs2, imm, pc_offset } => write_store("Sd", rs1, rs2, imm, pc_offset),
        MicroOp::Beq { rs1, rs2, imm, pc_offset, insn_len } => write_branch("Beq", rs1, rs2, imm, pc_offset, insn_len),
        MicroOp::Bne { rs1, rs2, imm, pc_offset, insn_len } => write_branch("Bne", rs1, rs2, imm, pc_offset, insn_len),
        MicroOp::Blt { rs1, rs2, imm, pc_offset, insn_len } => write_branch("Blt", rs1, rs2, imm, pc_offset, insn_len),
        MicroOp::Bge { rs1, rs2, imm, pc_offset, insn_len } => write_branch("Bge", rs1, rs2, imm, pc_offset, insn_len),
        MicroOp::Bltu { rs1, rs2, imm, pc_offset, insn_len } => write_branch("Bltu", rs1, rs2, imm, pc_offset, insn_len),
        MicroOp::Bgeu { rs1, rs2, imm, pc_offset, insn_len } => write_branch("Bgeu", rs1, rs2, imm, pc_offset, insn_len),
        MicroOp::Jal { rd, imm, pc_offset, insn_len } => write_jal("Jal", rd, imm, pc_offset, insn_len),
        MicroOp::Jalr { rd, rs1, imm, pc_offset, insn_len } => write_jalr("Jalr", rd, rs1, imm, pc_offset, insn_len),
        MicroOp::Csrrw { rd, rs1, csr, pc_offset } => write_csr("Csrrw", rd, rs1, csr, pc_offset),
        MicroOp::Csrrs { rd, rs1, csr, pc_offset } => write_csr("Csrrs", rd, rs1, csr, pc_offset),
        MicroOp::Csrrc { rd, rs1, csr, pc_offset } => write_csr("Csrrc", rd, rs1, csr, pc_offset),
        MicroOp::Csrrwi { rd, zimm, csr, pc_offset } => write_csr_imm("Csrrwi", rd, zimm, csr, pc_offset),
        MicroOp::Csrrsi { rd, zimm, csr, pc_offset } => write_csr_imm("Csrrsi", rd, zimm, csr, pc_offset),
        MicroOp::Csrrci { rd, zimm, csr, pc_offset } => write_csr_imm("Csrrci", rd, zimm, csr, pc_offset),
        MicroOp::Ecall { pc_offset } => write_system("Ecall", pc_offset),
        MicroOp::Ebreak { pc_offset } => write_system("Ebreak", pc_offset),
        MicroOp::Mret { pc_offset } => write_system("Mret", pc_offset),
        MicroOp::Sret { pc_offset } => write_system("Sret", pc_offset),
        MicroOp::Wfi { pc_offset } => write_system("Wfi", pc_offset),
        MicroOp::SfenceVma { pc_offset } => write_system("SfenceVma", pc_offset),
        MicroOp::Fence => String::from_str("Fence"),
        MicroOp::LrW { rd, rs1, pc_offset } => write_lr("LrW", rd, rs1, pc_offset),
        MicroOp::LrD { rd, rs1, pc_offset } => write_lr("LrD", rd, rs1, pc_offset),
        MicroOp::ScW { rd, rs1, rs2, pc_offset } => write_sc("ScW", rd, rs1, rs2, pc_offset),
        MicroOp::ScD { rd, rs1, rs2, pc_offset } => write_sc("ScD", rd, rs1, rs2, pc_offset),
        MicroOp::AmoSwap { rd, rs1, rs2, is_word, pc_offset } => write_amo("AmoSwap", rd, rs1, rs2, is_word, pc_offset),
        MicroOp::AmoAdd { rd, rs1, rs2, is_word, pc_offset } => write_amo("AmoAdd", rd, rs1, rs2, is_word, pc_offset),
        MicroOp::AmoXor { rd, rs1, rs2, is_word, pc_offset } => write_amo("AmoXor", rd, rs1, rs2, is_word, pc_offset),
        MicroOp::AmoAnd { rd, rs1, rs2, is_word, pc_offset } => write_amo("AmoAnd", rd, rs1, rs2, is_word, pc_offset),
        MicroOp::AmoOr { rd, rs1, rs2, is_word, pc_offset } => write_amo("AmoOr", rd, rs1, rs2, is_word, pc_offset),
        MicroOp::AmoMin { rd, rs1, rs2, is_word, pc_offset } => write_amo("AmoMin", rd, rs1, rs2, is_word, pc_offset),
        MicroOp::AmoMax { rd, rs1, rs2, is_word, pc_offset } => write_amo("AmoMax", rd, rs1, rs2, is_word, pc_offset),
        MicroOp::AmoMinu { rd, rs1, rs2, is_word, pc_offset } => write_amo("AmoMinu", rd, rs1, rs2, is_word, pc_offset),
        MicroOp::AmoMaxu { rd, rs1, rs2, is_word, pc_offset } => write_amo("AmoMaxu", rd, rs1, rs2, is_word, pc_offset),
    }
}

// Whole blocks.

/// How far an instruction moves the program counter in the text: the length it carries,
/// and four bytes where it carries none.
pub open spec fn estimated_length(op: MicroOp) -> u8 {
    match op {
        MicroOp::Jal { insn_len, .. } => insn_len,
        MicroOp::Jalr { insn_len, .. } => insn_len,
        MicroOp::Beq { insn_len, .. } => insn_len,
        MicroOp::Bne { insn_len, .. } => insn_len,
        MicroOp::Blt { insn_len, .. } => insn_len,
        MicroOp::Bge { insn_len, .. } => insn_len,
        MicroOp::Bltu { insn_len, .. } => insn_len,
        MicroOp::Bgeu { insn_len, .. } => insn_len,
        _ => 4,
    }
}

/// The length of an instruction, as far as it carries one.
fn estimate_instruction_length(op: &MicroOp) -> (len: u8)
    ensures
        len == estimated_length(*op),
{
    match *op {
        MicroOp::Jal { insn_len, .. } => insn_len,
        MicroOp::Jalr { insn_len, .. } => insn_len,
        MicroOp::Beq { insn_len, .. } => insn_len,
        MicroOp::Bne { insn_len, .. } => insn_len,
        MicroOp::Blt { insn_len, .. } => insn_len,
        MicroOp::Bge { insn_len, .. } => insn_len,
        MicroOp::Bltu { insn_len, .. } => insn_len,
        MicroOp::Bgeu { insn_len, .. } => insn_len,
        _ => 4,
    }
}

/// The program counter after `code`, as the text counts it.
pub open spec fn pc_after(start_pc: u64, code: Seq<MicroOp>) -> u64
    decreases code.len(),
{
    if code.len() == 0 {
        start_pc
    } else {
        pc_after(start_pc, code.drop_last()).wrapping_add(estimated_length(code.last()) as u64)
    }
}

/// The comment above an instruction.
pub open spec fn source_text(pc: u64, op: MicroOp, config: DisasmConfig) -> Seq<char> {
    if config.include_source {
        "\n    ;; "@ + hex_pad(pc as nat, 16) + ": "@ + debug_text(op) + "\n"@
    } else {
        Seq::empty()
    }
}

fn push_source(out: &mut String, pc: u64, op: &MicroOp, config: &DisasmConfig)
    ensures
        final(out)@ == old(out)@ + source_text(pc, *op, *config),
{
    if config.include_source {
        out.append("\n    ;; ");
        push_hex_pad(out, pc, 16);
        out.append(": ");
        let source = describe_microop(op);
        out.append(source.as_str());
        out.append("\n");
    }
    assert(!config.include_source ==> out@ =~= old(out)@ + Seq::empty());
}

/// An instruction at `pc` with the comment above it. Its own place counts from the start
/// of its block.
#[verifier::opaque]
pub open spec fn instruction_text(
    block_pc: u64,
    pc: u64,
    op: MicroOp,
    config: DisasmConfig,
) -> Seq<char> {
    source_text(pc, op, config) + microop_text(indent_of(config), op, block_pc)
}

/// The code of a block, instruction by instruction.
pub open spec fn code_text(start_pc: u64, code: Seq<MicroOp>, config: DisasmConfig) -> Seq<char>
    decreases code.len(),
{
    if code.len() == 0 {
        Seq::empty()
    } else {
        let rest = code.drop_last();
        let pc = pc_after(start_pc, rest);
        code_text(start_pc, rest, config) + instruction_text(
            start_pc,
            pc,
            code.last(),
            config,
        )
    }
}

/// What stands before the code of a block.
pub open spec fn header_text(start_pc: u64, len: nat, wasm_size: nat) -> Seq<char> {
    ";; JIT Block @ 0x"@ + hex_pad(start_pc as nat, 16) + "\n"@ + ";; "@ + dec(len)
        + " instructions, "@ + dec(wasm_size) + " bytes WASM\n"@ + ";;\n"@ + "(module\n"@
        + imports_text() + "\n"@ + "  ;; ═══════ Execute Block ═══════\n"@
        + "  (func $execute_block (param $state_ptr i32) (result i64)\n"@
}

/// What a module imports: its memory, and a reader and a writer for each width.
pub open spec fn imports_text() -> Seq<char> {
    "  ;; ═══════ Imports ═══════\n"@ + "  (import \"env\" \"memory\" (memory 1))\n"@
        + "  (import \"host\" \"read_u64\" (func $read_u64 (param i64) (result i64)))\n"@
        + "  (import \"host\" \"write_u64\" (func $write_u64 (param i64 i64) (result i32)))\n"@
        + "  (import \"host\" \"read_u32\" (func $read_u32 (param i64) (result i32)))\n"@
        + "  (import \"host\" \"write_u32\" (func $write_u32 (param i64 i32) (result i32)))\n"@
        + "  (import \"host\" \"read_u16\" (func $read_u16 (param i64) (result i32)))\n"@
        + "  (import \"host\" \"write_u16\" (func $write_u16 (param i64 i32) (result i32)))\n"@
        + "  (import \"host\" \"read_u8\" (func $read_u8 (param i64) (result i32)))\n"@
        + "  (import \"host\" \"write_u8\" (func $write_u8 (param i64 i32) (result i32)))\n"@
}

fn push_imports(out: &mut String)
    ensures
        final(out)@ == old(out)@ + imports_text(),
{
    out.append("  ;; ═══════ Imports ═══════\n");
    out.append("  (import \"env\" \"memory\" (memory 1))\n");
    out.append("  (import \"host\" \"read_u64\" (func $read_u64 (param i64) (result i64)))\n");
    out.append("  (import \"host\" \"write_u64\" (func $write_u64 (param i64 i64) (result i32)))\n");
    out.append("  (import \"host\" \"read_u32\" (func $read_u32 (param i64) (result i32)))\n");
    out.append("  (import \"host\" \"write_u32\" (func $write_u32 (param i64 i32) (result i32)))\n");
    out.append("  (import \"host\" \"read_u16\" (func $read_u16 (param i64) (result i32)))\n");
    out.append("  (import \"host\" \"write_u16\" (func $write_u16 (param i64 i32) (result i32)))\n");
    out.append("  (import \"host\" \"read_u8\" (func $read_u8 (param i64) (result i32)))\n");
    out.append("  (import \"host\" \"write_u8\" (func $write_u8 (param i64 i32) (result i32)))\n");
}

fn write_header(start_pc: u64, len: usize, wasm_size: usize) -> (s: String)
    ensures
        s@ == header_text(start_pc, len as nat, wasm_size as nat),
{
    let mut out = String::from_str(";; JIT Block @ 0x");
    push_hex_pad(&mut out, start_pc, 16);
    out.append("\n");
    out.append(";; ");
    push_dec(&mut out, len as u64);
    out.append(" instructions, ");
    push_dec(&mut out, wasm_size as u64);
    out.append(" bytes WASM\n");
    out.append(";;\n");
    out.append("(module\n");
    push_imports(&mut out);
    out.append("\n");
    out.append("  ;; ═══════ Execute Block ═══════\n");
    out.append("  (func $execute_block (param $state_ptr i32) (result i64)\n");
    out
}

/// What stands after the code of a block.
pub open spec fn footer_text(next_pc: u64) -> Seq<char> {
    "\n    ;; Return next PC\n"@ + "    (i64.const 0x"@ + hex_pad(next_pc as nat, 16)
        + ")  ;; next_pc\n"@ + "  )\n"@ + "\n  (export \"execute\" (func $execute_block))\n"@
        + ")\n"@
}

fn push_footer(out: &mut String, next_pc: u64)
    ensures
        final(out)@ == old(out)@ + footer_text(next_pc),
{
    out.append("\n    ;; Return next PC\n");
    out.append("    (i64.const 0x");
    push_hex_pad(out, next_pc, 16);
    out.append(")  ;; next_pc\n");
    out.append("  )\n");
    out.append("\n  (export \"execute\" (func $execute_block))\n");
    out.append(")\n");
}

/// The text of a block whose module has `wasm_size` bytes.
pub open spec fn block_text(block: Block, wasm_size: nat, config: DisasmConfig) -> Seq<char> {
    header_text(block.start_pc, block.len as nat, wasm_size) + code_text(
        block.start_pc,
        block.code(),
        config,
    ) + footer_text(pc_after(block.start_pc, block.code()))
}

fn push_instruction(
    out: &mut String,
    block_pc: u64,
    pc: u64,
    op: &MicroOp,
    config: &DisasmConfig,
)
    ensures
        final(out)@ == old(out)@ + instruction_text(block_pc, pc, *op, *config),
{
    push_source(out, pc, op, config);
    let lines = disassemble_microop(op, block_pc, config);
    out.append(lines.as_str());
    reveal(instruction_text);
}

/// Appends the code of a block and gives the program counter after it.
fn push_code(out: &mut String, start_pc: u64, ops: &[MicroOp], config: &DisasmConfig) -> (next_pc:
    u64)
    ensures
        final(out)@ == old(out)@ + code_text(start_pc, ops@, *config),
        next_pc == pc_after(start_pc, ops@),
{
    let ghost before = out@;
    let mut pc: u64 = start_pc;
    let mut i: usize = 0;
    assert(out@ =~= before + code_text(start_pc, ops@.take(0), *config));
    while i < ops.len()
        invariant
            i <= ops.len(),
            pc == pc_after(start_pc, ops@.take(i as int)),
            out@ == before + code_text(start_pc, ops@.take(i as int), *config),
        decreases ops.len() - i,
    {
        let op = ops[i];
        push_instruction(out, start_pc, pc, &op, config);
        let len: u8 = estimate_instruction_length(&op);
        pc = pc.wrapping_add(len as u64);
        assert(ops@.take(i + 1).drop_last() =~= ops@.take(i as int));
        i = i + 1;
    }
    assert(ops@.take(ops@.len() as int) =~= ops@);
    pc
}

/// Writes a block as a WebAssembly module in text form.
pub fn disassemble_block(block: &Block, wasm_bytes: &[u8], config: &DisasmConfig) -> (s: String)
    requires
        block.wf(),
    ensures
        s@ == block_text(*block, wasm_bytes@.len(), *config),
{
    let mut out = write_header(block.start_pc, block.len as usize, wasm_bytes.len());
    let next_pc: u64 = push_code(&mut out, block.start_pc, block.ops(), config);
    push_footer(&mut out, next_pc);
    out
}

/// What is logged of a compilation: a heading, and the block in text form.
pub open spec fn log_text(block: Block, wasm_size: nat, config: DisasmConfig) -> Seq<char> {
    "═══ JIT: Block @ 0x"@ + hex_pad(block.start_pc as nat, 16) + " ═══\n"@ + block_text(
        block,
        wasm_size,
        config,
    )
}

/// Writes what is logged of a compilation.
pub fn log_jit_compilation(block: &Block, wasm_bytes: &[u8], config: &DisasmConfig) -> (s: String)
    requires
        block.wf(),
    ensures
        s@ == log_text(*block, wasm_bytes@.len(), *config),
{
    let mut out = String::from_str("═══ JIT: Block @ 0x");
    push_hex_pad(&mut out, block.start_pc, 16);
    out.append(" ═══\n");
    let listing = disassemble_block(block, wasm_bytes, config);
    out.append(listing.as_str());
    out
}

// One-line form.

pub open spec fn short_imm(name: Seq<char>, a: u8, b: u8, imm: i64) -> Seq<char> {
    name
        + " x"@
        + dec(a as nat)
        + ", x"@
        + dec(b as nat)
        + ", "@
        + dec_signed(imm as int)
}

fn shorten_imm(name: &str, a: u8, b: u8, imm: i64) -> (s: String)
    ensures
        s@ == short_imm(name@, a, b, imm),
{
    let mut out = String::from_str(name);
    out.append(" x");
    push_dec(&mut out, a as u64);
    out.append(", x");
    push_dec(&mut out, b as u64);
    out.append(", ");
    push_dec_signed(&mut out, imm);
    out
}

pub open spec fn short_shamt(name: Seq<char>, a: u8, b: u8, shamt: u8) -> Seq<char> {
    name
        + " x"@
        + dec(a as nat)
        + ", x"@
        + dec(b as nat)
        + ", "@
        + dec(shamt as nat)
}

fn shorten_shamt(name: &str, a: u8, b: u8, shamt: u8) -> (s: String)
    ensures
        s@ == short_shamt(name@, a, b, shamt),
{
    let mut out = String::from_str(name);
    out.append(" x");
    push_dec(&mut out, a as u64);
    out.append(", x");
    push_dec(&mut out, b as u64);
    out.append(", ");
    push_dec(&mut out, shamt as u64);
    out
}

pub open spec fn short_regs(name: Seq<char>, a: u8, b: u8, c: u8) -> Seq<char> {
    name
        + " x"@
        + dec(a as nat)
        + ", x"@
        + dec(b as nat)
        + ", x"@
        + dec(c as nat)
}

fn shorten_regs(name: &str, a: u8, b: u8, c: u8) -> (s: String)
    ensures
        s@ == short_regs(name@, a, b, c),
{
    let mut out = String::from_str(name);
    out.append(" x");
    push_dec(&mut out, a as u64);
    out.append(", x");
    push_dec(&mut out, b as u64);
    out.append(", x");
    push_dec(&mut out, c as u64);
    out
}

pub open spec fn short_upper(name: Seq<char>, rd: u8, imm: u64) -> Seq<char> {
    name
        + " x"@
        + dec(rd as nat)
        + ", "@
        + hex0x(imm as nat)
}

fn shorten_upper(name: &str, rd: u8, imm: u64) -> (s: String)
    ensures
        s@ == short_upper(name@, rd, imm),
{
    let mut out = String::from_str(name);
    out.append(" x");
    push_dec(&mut out, rd as u64);
    out.append(", ");
    push_hex0x(&mut out, imm);
    out
}

pub open spec fn short_mem(name: Seq<char>, reg: u8, imm: i64, base: u8) -> Seq<char> {
    name
        + " x"@
        + dec(reg as nat)
        + ", "@
        + dec_signed(imm as int)
        + "(x"@
        + dec(base as nat)
        + ")"@
}

fn shorten_mem(name: &str, reg: u8, imm: i64, base: u8) -> (s: String)
    ensures
        s@ == short_mem(name@, reg, imm, base),
{
    let mut out = String::from_str(name);
    out.append(" x");
    push_dec(&mut out, reg as u64);
    out.append(", ");
    push_dec_signed(&mut out, imm);
    out.append("(x");
    push_dec(&mut out, base as u64);
    out.append(")");
    out
}

pub open spec fn short_jump(name: Seq<char>, rd: u8, imm: i64) -> Seq<char> {
    name
        + " x"@
        + dec(rd as nat)
        + ", "@
        + dec_signed(imm as int)
}

fn shorten_jump(name: &str, rd: u8, imm: i64) -> (s: String)
    ensures
        s@ == short_jump(name@, rd, imm),
{
    let mut out = String::from_str(name);
    out.append(" x");
    push_dec(&mut out, rd as u64);
    out.append(", ");
    push_dec_signed(&mut out, imm);
    out
}

pub open spec fn short_csr(name: Seq<char>, rd: u8, csr: u16, rs1: u8) -> Seq<char> {
    name
        + " x"@
        + dec(rd as nat)
        + ", 0x"@
        + hex_pad(csr as nat, 3)
        + ", x"@
        + dec(rs1 as nat)
}

fn shorten_csr(name: &str, rd: u8, csr: u16, rs1: u8) -> (s: String)
    ensures
        s@ == short_csr(name@, rd, csr, rs1),
{
    let mut out = String::from_str(name);
    out.append(" x");
    push_dec(&mut out, rd as u64);
    out.append(", 0x");
    push_hex_pad(&mut out, csr as u64, 3);
    out.append(", x");
    push_dec(&mut out, rs1 as u64);
    out
}

pub open spec fn short_csr_imm(name: Seq<char>, rd: u8, csr: u16, zimm: u8) -> Seq<char> {
    name
        + " x"@
        + dec(rd as nat)
        + ", 0x"@
        + hex_pad(csr as nat, 3)
        + ", "@
        + dec(zimm as nat)
}

fn shorten_csr_imm(name: &str, rd: u8, csr: u16, zimm: u8) -> (s: String)
    ensures
        s@ == short_csr_imm(name@, rd, csr, zimm),
{
    let mut out = String::from_str(name);
    out.append(" x");
    push_dec(&mut out, rd as u64);
    out.append(", 0x");
    push_hex_pad(&mut out, csr as u64, 3);
    out.append(", ");
    push_dec(&mut out, zimm as u64);
    out
}

pub open spec fn short_lr(name: Seq<char>, rd: u8, base: u8) -> Seq<char> {
    name
        + " x"@
        + dec(rd as nat)
        + ", (x"@
        + dec(base as nat)
        + ")"@
}

fn shorten_lr(name: &str, rd: u8, base: u8) -> (s: String)
    ensures
        s@ == short_lr(name@, rd, base),
{
    let mut out = String::from_str(name);
    out.append(" x");
    push_dec(&mut out, rd as u64);
    out.append(", (x");
    push_dec(&mut out, base as u64);
    out.append(")");
    out
}

pub open spec fn short_sc(name: Seq<char>, rd: u8, value: u8, base: u8) -> Seq<char> {
    name
        + " x"@
        + dec(rd as nat)
        + ", x"@
        + dec(value as nat)
        + ", (x"@
        + dec(base as nat)
        + ")"@
}

fn shorten_sc(name: &str, rd: u8, value: u8, base: u8) -> (s: String)
    ensures
        s@ == short_sc(name@, rd, value, base),
{
    let mut out = String::from_str(name);
    out.append(" x");
    push_dec(&mut out, rd as u64);
    out.append(", x");
    push_dec(&mut out, value as u64);
    out.append(", (x");
    push_dec(&mut out, base as u64);
    out.append(")");
    out
}

pub open spec fn short_amo(
    name: Seq<char>,
    is_word: bool,
    rd: u8,
    value: u8,
    base: u8,
) -> Seq<char> {
    name
        + width_suffix(is_word)
        + " x"@
        + dec(rd as nat)
        + ", x"@
        + dec(value as nat)
        + ", (x"@
        + dec(base as nat)
        + ")"@
}

fn shorten_amo(name: &str, is_word: bool, rd: u8, value: u8, base: u8) -> (s: String)
    ensures
        s@ == short_amo(name@, is_word, rd, value, base),
{
    let mut out = String::from_str(name);
    if is_word {
        out.append(".w");
    } else {
        out.append(".d");
    }
    out.append(" x");
    push_dec(&mut out, rd as u64);
    out.append(", x");
    push_dec(&mut out, value as u64);
    out.append(", (x");
    push_dec(&mut out, base as u64);
    out.append(")");
    out
}

/// An instruction in assembler notation.
pub open spec fn short_text(op: MicroOp) -> Seq<char> {
    match op {
        MicroOp::Addi { rd, rs1, imm } => short_imm("addi"@, rd, rs1, imm),
        MicroOp::Xori { rd, rs1, imm } => short_imm("xori"@, rd, rs1, imm),
        MicroOp::Ori { rd, rs1, imm } => short_imm("ori"@, rd, rs1, imm),
        MicroOp::Andi { rd, rs1, imm } => short_imm("andi"@, rd, rs1, imm),
        MicroOp::Slti { rd, rs1, imm } => short_imm("slti"@, rd, rs1, imm),
        MicroOp::Sltiu { rd, rs1, imm } => short_imm("sltiu"@, rd, rs1, imm),
        MicroOp::Slli { rd, rs1, shamt } => short_shamt("slli"@, rd, rs1, shamt),
        MicroOp::Srli { rd, rs1, shamt } => short_shamt("srli"@, rd, rs1, shamt),
        MicroOp::Srai { rd, rs1, shamt } => short_shamt("srai"@, rd, rs1, shamt),
        MicroOp::Add { rd, rs1, rs2 } => short_regs("add"@, rd, rs1, rs2),
        MicroOp::Sub { rd, rs1, rs2 } => short_regs("sub"@, rd, rs1, rs2),
        MicroOp::Xor { rd, rs1, rs2 } => short_regs("xor"@, rd, rs1, rs2),
        MicroOp::Or { rd, rs1, rs2 } => short_regs("or"@, rd, rs1, rs2),
        MicroOp::And { rd, rs1, rs2 } => short_regs("and"@, rd, rs1, rs2),
        MicroOp::Sll { rd, rs1, rs2 } => short_regs("sll"@, rd, rs1, rs2),
        MicroOp::Srl { rd, rs1, rs2 } => short_regs("srl"@, rd, rs1, rs2),
        MicroOp::Sra { rd, rs1, rs2 } => short_regs("sra"@, rd, rs1, rs2),
        MicroOp::Slt { rd, rs1, rs2 } => short_regs("slt"@, rd, rs1, rs2),
        MicroOp::Sltu { rd, rs1, rs2 } => short_regs("sltu"@, rd, rs1, rs2),
        MicroOp::Addiw { rd, rs1, imm } => short_imm("addiw"@, rd, rs1, imm as i64),
        MicroOp::Slliw { rd, rs1, shamt } => short_shamt("slliw"@, rd, rs1, shamt),
        MicroOp::Srliw { rd, rs1, shamt } => short_shamt("srliw"@, rd, rs1, shamt),
        MicroOp::Sraiw { rd, rs1, shamt } => short_shamt("sraiw"@, rd, rs1, shamt),
        MicroOp::Addw { rd, rs1, rs2 } => short_regs("addw"@, rd, rs1, rs2),
        MicroOp::Subw { rd, rs1, rs2 } => short_regs("subw"@, rd, rs1, rs2),
        MicroOp::Sllw { rd, rs1, rs2 } => short_regs("sllw"@, rd, rs1, rs2),
        MicroOp::Srlw { rd, rs1, rs2 } => short_regs("srlw"@, rd, rs1, rs2),
        MicroOp::Sraw { rd, rs1, rs2 } => short_regs("sraw"@, rd, rs1, rs2),
        MicroOp::Mul { rd, rs1, rs2 } => short_regs("mul"@, rd, rs1, rs2),
        MicroOp::Mulh { rd, rs1, rs2 } => short_regs("mulh"@, rd, rs1, rs2),
        MicroOp::Mulhsu { rd, rs1, rs2 } => short_regs("mulhsu"@, rd, rs1, rs2),
        MicroOp::Mulhu { rd, rs1, rs2 } => short_regs("mulhu"@, rd, rs1, rs2),
        MicroOp::Div { rd, rs1, rs2 } => short_regs("div"@, rd, rs1, rs2),
        MicroOp::Divu { rd, rs1, rs2 } => short_regs("divu"@, rd, rs1, rs2),
        MicroOp::Rem { rd, rs1, rs2 } => short_regs("rem"@, rd, rs1, rs2),
        MicroOp::Remu { rd, rs1, rs2 } => short_regs("remu"@, rd, rs1, rs2),
        MicroOp::Mulw { rd, rs1, rs2 } => short_regs("mulw"@, rd, rs1, rs2),
        MicroOp::Divw { rd, rs1, rs2 } => short_regs("divw"@, rd, rs1, rs2),
        MicroOp::Divuw { rd, rs1, rs2 } => short_regs("divuw"@, rd, rs1, rs2),
        MicroOp::Remw { rd, rs1, rs2 } => short_regs("remw"@, rd, rs1, rs2),
        MicroOp::Remuw { rd, rs1, rs2 } => short_regs("remuw"@, rd, rs1, rs2),
        MicroOp::Lui { rd, imm } => short_upper("lui"@, rd, (imm as u64) >> 12),
        MicroOp::Auipc { rd, imm, .. } => short_upper("auipc"@, rd, (imm as u64) >> 12),
        MicroOp::Lb { rd, rs1, imm, .. } => short_mem("lb"@, rd, imm, rs1),
        MicroOp::Lbu { rd, rs1, imm, .. } => short_mem("lbu"@, rd, imm, rs1),
        MicroOp::Lh { rd, rs1, imm, .. } => short_mem("lh"@, rd, imm, rs1),
        MicroOp::Lhu { rd, rs1, imm, .. } => short_mem("lhu"@, rd, imm, rs1),
        MicroOp::Lw { rd, rs1, imm, .. } => short_mem("lw"@, rd, imm, rs1),
        MicroOp::Lwu { rd, rs1, imm, .. } => short_mem("lwu"@, rd, imm, rs1),
        MicroOp::Ld { rd, rs1, imm, .. } => short_mem("ld"@, rd, imm, rs1),
        MicroOp::Sb { rs1, rs2, imm, .. } => short_mem("sb"@, rs2, imm, rs1),
        MicroOp::Sh { rs1, rs2, imm, .. } => short_mem("sh"@, rs2, imm, rs1),
        MicroOp::Sw { rs1, rs2, imm, .. } => short_mem("sw"@, rs2, imm, rs1),
        MicroOp::Sd { rs1, rs2, imm, .. } => short_mem("sd"@, rs2, imm, rs1),
        MicroOp::Beq { rs1, rs2, imm, .. } => short_imm("beq"@, rs1, rs2, imm),
        MicroOp::Bne { rs1, rs2, imm, .. } => short_imm("bne"@, rs1, rs2, imm),
        MicroOp::Blt { rs1, rs2, imm, .. } => short_imm("blt"@, rs1, rs2, imm),
        MicroOp::Bge { rs1, rs2, imm, .. } => short_imm("bge"@, rs1, rs2, imm),
        MicroOp::Bltu { rs1, rs2, imm, .. } => short_imm("bltu"@, rs1, rs2, imm),
        MicroOp::Bgeu { rs1, rs2, imm, .. } => short_imm("bgeu"@, rs1, rs2, imm),
        MicroOp::Jal { rd, imm, .. } => short_jump("jal"@, rd, imm),
        MicroOp::Jalr { rd, rs1, imm, .. } => short_mem("jalr"@, rd, imm, rs1),
        MicroOp::Ecall { .. } => "ecall"@,
        MicroOp::Ebreak { .. } => "ebreak"@,
        MicroOp::Mret { .. } => "mret"@,
        MicroOp::Sret { .. } => "sret"@,
        MicroOp::Wfi { .. } => "wfi"@,
        MicroOp::SfenceVma { .. } => "sfence.vma"@,
        MicroOp::Fence => "fence"@,
        MicroOp::Csrrw { rd, rs1, csr, .. } => short_csr("csrrw"@, rd, csr, rs1),
        MicroOp::Csrrs { rd, rs1, csr, .. } => short_csr("csrrs"@, rd, csr, rs1),
        MicroOp::Csrrc { rd, rs1, csr, .. } => short_csr("csrrc"@, rd, csr, rs1),
        MicroOp::Csrrwi { rd, zimm, csr, .. } => short_csr_imm("csrrwi"@, rd, csr, zimm),
        MicroOp::Csrrsi { rd, zimm, csr, .. } => short_csr_imm("csrrsi"@, rd, csr, zimm),
        MicroOp::Csrrci { rd, zimm, csr, .. } => short_csr_imm("csrrci"@, rd, csr, zimm),
        MicroOp::LrW { rd, rs1, .. } => short_lr("lr.w"@, rd, rs1),
        MicroOp::LrD { rd, rs1, .. } => short_lr("lr.d"@, rd, rs1),
        MicroOp::ScW { rd, rs1, rs2, .. } => short_sc("sc.w"@, rd, rs2, rs1),
        MicroOp::ScD { rd, rs1, rs2, .. } => short_sc("sc.d"@, rd, rs2, rs1),
        MicroOp::AmoSwap { rd, rs1, rs2, is_word, .. } => short_amo("amoswap"@, is_word, rd, rs2, rs1),
        MicroOp::AmoAdd { rd, rs1, rs2, is_word, .. } => short_amo("amoadd"@, is_word, rd, rs2, rs1),
        MicroOp::AmoXor { rd, rs1, rs2, is_word, .. } => short_amo("amoxor"@, is_word, rd, rs2, rs1),
        MicroOp::AmoAnd { rd, rs1, rs2, is_word, .. } => short_amo("amoand"@, is_word, rd, rs2, rs1),
        MicroOp::AmoOr { rd, rs1, rs2, is_word, .. } => short_amo("amoor"@, is_word, rd, rs2, rs1),
        MicroOp::AmoMin { rd, rs1, rs2, is_word, .. } => short_amo("amomin"@, is_word, rd, rs2, rs1),
        MicroOp::AmoMax { rd, rs1, rs2, is_word, .. } => short_amo("amomax"@, is_word, rd, rs2, rs1),
        MicroOp::AmoMinu { rd, rs1, rs2, is_word, .. } => short_amo("amominu"@, is_word, rd, rs2, rs1),
        MicroOp::AmoMaxu { rd, rs1, rs2, is_word, .. } => short_amo("amomaxu"@, is_word, rd, rs2, rs1),
    }
}

/// Writes an instruction in assembler notation, on one line.
pub fn format_instruction_short(op: &MicroOp) -> (s: String)
    ensures
        s@ == short_text(*op),
{
    match *op {
        MicroOp::Addi { rd, rs1, imm } => shorten_imm("addi", rd, rs1, imm),
        MicroOp::Xori { rd, rs1, imm } => shorten_imm("xori", rd, rs1, imm),
        MicroOp::Ori { rd, rs1, imm } => shorten_imm("ori", rd, rs1, imm),
        MicroOp::Andi { rd, rs1, imm } => shorten_imm("andi", rd, rs1, imm),
        MicroOp::Slti { rd, rs1, imm } => shorten_imm("slti", rd, rs1, imm),
        MicroOp::Sltiu { rd, rs1, imm } => shorten_imm("sltiu", rd, rs1, imm),
        MicroOp::Slli { rd, rs1, shamt } => shorten_shamt("slli", rd, rs1, shamt),
        MicroOp::Srli { rd, rs1, shamt } => shorten_shamt("srli", rd, rs1, shamt),
        MicroOp::Srai { rd, rs1, shamt } => shorten_shamt("srai", rd, rs1, shamt),
        MicroOp::Add { rd, rs1, rs2 } => shorten_regs("add", rd, rs1, rs2),
        MicroOp::Sub { rd, rs1, rs2 } => shorten_regs("sub", rd, rs1, rs2),
        MicroOp::Xor { rd, rs1, rs2 } => shorten_regs("xor", rd, rs1, rs2),
        MicroOp::Or { rd, rs1, rs2 } => shorten_regs("or", rd, rs1, rs2),
        MicroOp::And { rd, rs1, rs2 } => shorten_regs("and", rd, rs1, rs2),
        MicroOp::Sll { rd, rs1, rs2 } => shorten_regs("sll", rd, rs1, rs2),
        MicroOp::Srl { rd, rs1, rs2 } => shorten_regs("srl", rd, rs1, rs2),
        MicroOp::Sra { rd, rs1, rs2 } => shorten_regs("sra", rd, rs1, rs2),
        MicroOp::Slt { rd, rs1, rs2 } => shorten_regs("slt", rd, rs1, rs2),
        MicroOp::Sltu { rd, rs1, rs2 } => shorten_regs("sltu", rd, rs1, rs2),
        MicroOp::Addiw { rd, rs1, imm } => shorten_imm("addiw", rd, rs1, imm as i64),
        MicroOp::Slliw { rd, rs1, shamt } => shorten_shamt("slliw", rd, rs1, shamt),
        MicroOp::Srliw { rd, rs1, shamt } => shorten_shamt("srliw", rd, rs1, shamt),
        MicroOp::Sraiw { rd, rs1, shamt } => shorten_shamt("sraiw", rd, rs1, shamt),
        MicroOp::Addw { rd, rs1, rs2 } => shorten_regs("addw", rd, rs1, rs2),
        MicroOp::Subw { rd, rs1, rs2 } => shorten_regs("subw", rd, rs1, rs2),
        MicroOp::Sllw { rd, rs1, rs2 } => shorten_regs("sllw", rd, rs1, rs2),
        MicroOp::Srlw { rd, rs1, rs2 } => shorten_regs("srlw", rd, rs1, rs2),
        MicroOp::Sraw { rd, rs1, rs2 } => shorten_regs("sraw", rd, rs1, rs2),
        MicroOp::Mul { rd, rs1, rs2 } => shorten_regs("mul", rd, rs1, rs2),
        MicroOp::Mulh { rd, rs1, rs2 } => shorten_regs("mulh", rd, rs1, rs2),
        MicroOp::Mulhsu { rd, rs1, rs2 } => shorten_regs("mulhsu", rd, rs1, rs2),
        MicroOp::Mulhu { rd, rs1, rs2 } => shorten_regs("mulhu", rd, rs1, rs2),
        MicroOp::Div { rd, rs1, rs2 } => shorten_regs("div", rd, rs1, rs2),
        MicroOp::Divu { rd, rs1, rs2 } => shorten_regs("divu", rd, rs1, rs2),
        MicroOp::Rem { rd, rs1, rs2 } => shorten_regs("rem", rd, rs1, rs2),
        MicroOp::Remu { rd, rs1, rs2 } => shorten_regs("remu", rd, rs1, rs2),
        MicroOp::Mulw { rd, rs1, rs2 } => shorten_regs("mulw", rd, rs1, rs2),
        MicroOp::Divw { rd, rs1, rs2 } => shorten_regs("divw", rd, rs1, rs2),
        MicroOp::Divuw { rd, rs1, rs2 } => shorten_regs("divuw", rd, rs1, rs2),
        MicroOp::Remw { rd, rs1, rs2 } => shorten_regs("remw", rd, rs1, rs2),
        MicroOp::Remuw { rd, rs1, rs2 } => shorten_regs("remuw", rd, rs1, rs2),
        MicroOp::Lui { rd, imm } => shorten_upper("lui", rd, (imm as u64) >> 12),
        MicroOp::Auipc { rd, imm, .. } => shorten_upper("auipc", rd, (imm as u64) >> 12),
        MicroOp::Lb { rd, rs1, imm, .. } => shorten_mem("lb", rd, imm, rs1),
        MicroOp::Lbu { rd, rs1, imm, .. } => shorten_mem("lbu", rd, imm, rs1),
        MicroOp::Lh { rd, rs1, imm, .. } => shorten_mem("lh", rd, imm, rs1),
        MicroOp::Lhu { rd, rs1, imm, .. } => shorten_mem("lhu", rd, imm, rs1),
        MicroOp::Lw { rd, rs1, imm, .. } => shorten_mem("lw", rd, imm, rs1),
        MicroOp::Lwu { rd, rs1, imm, .. } => shorten_mem("lwu", rd, imm, rs1),
        MicroOp::Ld { rd, rs1, imm, .. } => shorten_mem("ld", rd, imm, rs1),
        MicroOp::Sb { rs1, rs2, imm, .. } => shorten_mem("sb", rs2, imm, rs1),
        MicroOp::Sh { rs1, rs2, imm, .. } => shorten_mem("sh", rs2, imm, rs1),
        MicroOp::Sw { rs1, rs2, imm, .. } => shorten_mem("sw", rs2, imm, rs1),
        MicroOp::Sd { rs1, rs2, imm, .. } => shorten_mem("sd", rs2, imm, rs1),
        MicroOp::Beq { rs1, rs2, imm, .. } => shorten_imm("beq", rs1, rs2, imm),
        MicroOp::Bne { rs1, rs2, imm, .. } => shorten_imm("bne", rs1, rs2, imm),
        MicroOp::Blt { rs1, rs2, imm, .. } => shorten_imm("blt", rs1, rs2, imm),
        MicroOp::Bge { rs1, rs2, imm, .. } => shorten_imm("bge", rs1, rs2, imm),
        MicroOp::Bltu { rs1, rs2, imm, .. } => shorten_imm("bltu", rs1, rs2, imm),
        MicroOp::Bgeu { rs1, rs2, imm, .. } => shorten_imm("bgeu", rs1, rs2, imm),
        MicroOp::Jal { rd, imm, .. } => shorten_jump("jal", rd, imm),
        MicroOp::Jalr { rd, rs1, imm, .. } => shorten_mem("jalr", rd, imm, rs1),
        MicroOp::Ecall { .. } => String::from_str("ecall"),
        MicroOp::Ebreak { .. } => String::from_str("ebreak"),
        MicroOp::Mret { .. } => String::from_str("mret"),
        MicroOp::Sret { .. } => String::from_str("sret"),
        MicroOp::Wfi { .. } => String::from_str("wfi"),
        MicroOp::SfenceVma { .. } => String::from_str("sfence.vma"),
        MicroOp::Fence => String::from_str("fence"),
        MicroOp::Csrrw { rd, rs1, csr, .. } => shorten_csr("csrrw", rd, csr, rs1),
        MicroOp::Csrrs { rd, rs1, csr, .. } => shorten_csr("csrrs", rd, csr, rs1),
        MicroOp::Csrrc { rd, rs1, csr, .. } => shorten_csr("csrrc", rd, csr, rs1),
        MicroOp::Csrrwi { rd, zimm, csr, .. } => shorten_csr_imm("csrrwi", rd, csr, zimm),
        MicroOp::Csrrsi { rd, zimm, csr, .. } => shorten_csr_imm("csrrsi", rd, csr, zimm),
        MicroOp::Csrrci { rd, zimm, csr, .. } => shorten_csr_imm("csrrci", rd, csr, zimm),
        MicroOp::LrW { rd, rs1, .. } => shorten_lr("lr.w", rd, rs1),
        MicroOp::LrD { rd, rs1, .. } => shorten_lr("lr.d", rd, rs1),
        MicroOp::ScW { rd, rs1, rs2, .. } => shorten_sc("sc.w", rd, rs2, rs1),
        MicroOp::ScD { rd, rs1, rs2, .. } => shorten_sc("sc.d", rd, rs2, rs1),
        MicroOp::AmoSwap { rd, rs1, rs2, is_word, .. } => shorten_amo("amoswap", is_word, rd, rs2, rs1),
        MicroOp::AmoAdd { rd, rs1, rs2, is_word, .. } => shorten_amo("amoadd", is_word, rd, rs2, rs1),
        MicroOp::AmoXor { rd, rs1, rs2, is_word, .. } => shorten_amo("amoxor", is_word, rd, rs2, rs1),
        MicroOp::AmoAnd { rd, rs1, rs2, is_word, .. } => shorten_amo("amoand", is_word, rd, rs2, rs1),
        MicroOp::AmoOr { rd, rs1, rs2, is_word, .. } => shorten_amo("amoor", is_word, rd, rs2, rs1),
        MicroOp::AmoMin { rd, rs1, rs2, is_word, .. } => shorten_amo("amomin", is_word, rd, rs2, rs1),
        MicroOp::AmoMax { rd, rs1, rs2, is_word, .. } => shorten_amo("amomax", is_word, rd, rs2, rs1),
        MicroOp::AmoMinu { rd, rs1, rs2, is_word, .. } => shorten_amo("amominu", is_word, rd, rs2, rs1),
        MicroOp::AmoMaxu { rd, rs1, rs2, is_word, .. } => shorten_amo("amomaxu", is_word, rd, rs2, rs1),
    }
}

} // verus!
