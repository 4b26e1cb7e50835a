//! The lines of a listing: which instructions stand for an instruction, and on what.

use vstd::prelude::*;

verus! {

use crate::engine::microop::MicroOp;
use crate::jit::disasm::{
    alu_imm_text, alu_imm_w_text, alu_reg_text, alu_reg_w_text, amo_text, auipc_text,
    branch_text, code_text, const_line, csr_text, div_long_text, div_word_text,
    estimated_length, instruction_text, jal_text, jalr_text, kept_load_text, less_than,
    link_lines, load_line, lr_text, lui_text, microop_text, op_line, pc_after, plain_line,
    rem_long_text, rem_word_text, sc_text, shift_imm_text, shift_imm_w_text, shift_reg_text,
    shift_reg_w_text, slt_text, slti_text, store_line, store_text, system_text, width_suffix,
    DisasmConfig,
};
use crate::meaning::{self, is_cut};
use crate::text::{dec, dec_signed, hex, hex_pad};

/// Lines one after another, each with what stands before it.
pub open spec fn rows(indent: Seq<char>, lines: Seq<Seq<char>>) -> Seq<char>
    decreases lines.len(),
{
    if lines.len() == 0 {
        Seq::empty()
    } else {
        rows(indent, lines.drop_last()) + indent + lines.last() + seq!['\n']
    }
}

/// That a text ends with lines, behind a comment or more.
#[verifier::opaque]
pub open spec fn ends_in(text: Seq<char>, indent: Seq<char>, lines: Seq<Seq<char>>) -> bool {
    exists|head: Seq<char>| text == #[trigger] (head + rows(indent, lines))
}

/// Reads a register from its place in the state.
pub open spec fn read(r: u8) -> Seq<char> {
    "(i64.load (i32.add (local.get $state_ptr) (i32.const "@ + dec(8 * r as nat)
        + ")))  ;; load x"@ + dec(r as nat)
}

/// Writes a register to its place in the state.
pub open spec fn write(r: u8) -> Seq<char> {
    "(i64.store (i32.add (local.get $state_ptr) (i32.const "@ + dec(8 * r as nat)
        + ")))  ;; store x"@ + dec(r as nat)
}

/// Pushes a constant.
pub open spec fn pushes(n: int) -> Seq<char> {
    "(i64.const "@ + dec_signed(n) + seq![')']
}

/// Pushes a constant that is a word.
pub open spec fn pushes_word(n: int) -> Seq<char> {
    "(i32.const "@ + dec_signed(n) + ")"@
}

/// An operation on values of a type.
pub open spec fn does(typ: Seq<char>, op: Seq<char>) -> Seq<char> {
    seq!['('] + typ + seq!['.'] + op + seq![')']
}

proof fn lemma_line_marks()
    ensures
        "\n"@ == seq!['\n'],
        ")\n"@ == seq![')', '\n'],
        "("@ == seq!['('],
        "."@ == seq!['.'],
{
    reveal_strlit("\n");
    reveal_strlit(")\n");
    reveal_strlit("(");
    reveal_strlit(".");
    assert("\n"@ =~= seq!['\n']);
    assert(")\n"@ =~= seq![')', '\n']);
    assert("("@ =~= seq!['(']);
    assert("."@ =~= seq!['.']);
}

/// The single lines.
proof fn lemma_lines(indent: Seq<char>, r: u8, n: int, typ: Seq<char>, op: Seq<char>, line: Seq<char>)
    ensures
        load_line(indent, r) == indent + read(r) + seq!['\n'],
        store_line(indent, r) == indent + write(r) + seq!['\n'],
        const_line(indent, n) == indent + pushes(n) + seq!['\n'],
        op_line(indent, typ, op) == indent + does(typ, op) + seq!['\n'],
        plain_line(indent, line) == indent + line + seq!['\n'],
{
    lemma_line_marks();
    assert(load_line(indent, r) =~= indent + read(r) + seq!['\n']);
    assert(store_line(indent, r) =~= indent + write(r) + seq!['\n']);
    assert(const_line(indent, n) =~= indent + pushes(n) + seq!['\n']);
    assert(op_line(indent, typ, op) =~= indent + does(typ, op) + seq!['\n']);
    assert(plain_line(indent, line) =~= indent + line + seq!['\n']);
}

/// One line more.
proof fn lemma_one_more(text: Seq<char>, indent: Seq<char>, lines: Seq<Seq<char>>, line: Seq<char>)
    requires
        ends_in(text, indent, lines),
    ensures
        ends_in(text + (indent + line + seq!['\n']), indent, lines.push(line)),
{
    reveal(ends_in);
    let head = choose|head: Seq<char>| text == #[trigger] (head + rows(indent, lines));
    assert(lines.push(line).drop_last() =~= lines);
    assert(text + (indent + line + seq!['\n']) =~= head + rows(indent, lines.push(line)));
}

proof fn lemma_none(text: Seq<char>, indent: Seq<char>)
    ensures
        ends_in(text, indent, Seq::empty()),
{
    reveal(ends_in);
    assert(text =~= text + rows(indent, Seq::empty()));
}

proof fn lemma_alu_reg_text(indent: Seq<char>, op: Seq<char>, rd: u8, rs1: u8, rs2: u8)
    requires
        rd != 0,
    ensures
        ends_in(
            alu_reg_text(indent, op, rd, rs1, rs2),
            indent,
            seq![read(rs1), read(rs2), does("i64"@, op), write(rd)],
        ),
{
    let text = indent + ";; x"@ + dec(rd as nat) + " = x"@ + dec(rs1 as nat) + " "@ + op + " x"@ + dec(rs2 as nat) + "\n"@;
    lemma_none(text, indent);
    let lines: Seq<Seq<char>> = Seq::empty();
    lemma_lines(indent, rs1, 0, Seq::empty(), Seq::empty(), Seq::empty());
    lemma_one_more(text, indent, lines, read(rs1));
    let text = text + (indent + read(rs1) + seq!['\n']);
    let lines = lines.push(read(rs1));
    lemma_lines(indent, rs2, 0, Seq::empty(), Seq::empty(), Seq::empty());
    lemma_one_more(text, indent, lines, read(rs2));
    let text = text + (indent + read(rs2) + seq!['\n']);
    let lines = lines.push(read(rs2));
    lemma_lines(indent, 0, 0, "i64"@, op, Seq::empty());
    lemma_one_more(text, indent, lines, does("i64"@, op));
    let text = text + (indent + does("i64"@, op) + seq!['\n']);
    let lines = lines.push(does("i64"@, op));
    lemma_lines(indent, rd, 0, Seq::empty(), Seq::empty(), Seq::empty());
    lemma_one_more(text, indent, lines, write(rd));
    let text = text + (indent + write(rd) + seq!['\n']);
    let lines = lines.push(write(rd));
    assert(lines =~= seq![read(rs1), read(rs2), does("i64"@, op), write(rd)]);
}

proof fn lemma_alu_imm_text(indent: Seq<char>, op: Seq<char>, rd: u8, rs1: u8, imm: i64)
    requires
        rd != 0,
    ensures
        ends_in(
            alu_imm_text(indent, op, rd, rs1, imm),
            indent,
            seq![read(rs1), pushes(imm as int), does("i64"@, op), write(rd)],
        ),
{
    let text = indent + ";; x"@ + dec(rd as nat) + " = x"@ + dec(rs1 as nat) + " "@ + op + " "@ + dec_signed(imm as int) + "\n"@;
    lemma_none(text, indent);
    let lines: Seq<Seq<char>> = Seq::empty();
    lemma_lines(indent, rs1, 0, Seq::empty(), Seq::empty(), Seq::empty());
    lemma_one_more(text, indent, lines, read(rs1));
    let text = text + (indent + read(rs1) + seq!['\n']);
    let lines = lines.push(read(rs1));
    lemma_lines(indent, 0, imm as int, Seq::empty(), Seq::empty(), Seq::empty());
    lemma_one_more(text, indent, lines, pushes(imm as int));
    let text = text + (indent + pushes(imm as int) + seq!['\n']);
    let lines = lines.push(pushes(imm as int));
    lemma_lines(indent, 0, 0, "i64"@, op, Seq::empty());
    lemma_one_more(text, indent, lines, does("i64"@, op));
    let text = text + (indent + does("i64"@, op) + seq!['\n']);
    let lines = lines.push(does("i64"@, op));
    lemma_lines(indent, rd, 0, Seq::empty(), Seq::empty(), Seq::empty());
    lemma_one_more(text, indent, lines, write(rd));
    let text = text + (indent + write(rd) + seq!['\n']);
    let lines = lines.push(write(rd));
    assert(lines =~= seq![read(rs1), pushes(imm as int), does("i64"@, op), write(rd)]);
}

proof fn lemma_shift_imm_text(indent: Seq<char>, op: Seq<char>, rd: u8, rs1: u8, shamt: u8)
    requires
        rd != 0,
    ensures
        ends_in(
            shift_imm_text(indent, op, rd, rs1, shamt),
            indent,
            seq![read(rs1), pushes(shamt as int), does("i64"@, op), write(rd)],
        ),
{
    let text = indent + ";; x"@ + dec(rd as nat) + " = x"@ + dec(rs1 as nat) + " "@ + op + " "@ + dec(shamt as nat) + "\n"@;
    lemma_none(text, indent);
    let lines: Seq<Seq<char>> = Seq::empty();
    lemma_lines(indent, rs1, 0, Seq::empty(), Seq::empty(), Seq::empty());
    lemma_one_more(text, indent, lines, read(rs1));
    let text = text + (indent + read(rs1) + seq!['\n']);
    let lines = lines.push(read(rs1));
    lemma_lines(indent, 0, shamt as int, Seq::empty(), Seq::empty(), Seq::empty());
    lemma_one_more(text, indent, lines, pushes(shamt as int));
    let text = text + (indent + pushes(shamt as int) + seq!['\n']);
    let lines = lines.push(pushes(shamt as int));
    lemma_lines(indent, 0, 0, "i64"@, op, Seq::empty());
    lemma_one_more(text, indent, lines, does("i64"@, op));
    let text = text + (indent + does("i64"@, op) + seq!['\n']);
    let lines = lines.push(does("i64"@, op));
    lemma_lines(indent, rd, 0, Seq::empty(), Seq::empty(), Seq::empty());
    lemma_one_more(text, indent, lines, write(rd));
    let text = text + (indent + write(rd) + seq!['\n']);
    let lines = lines.push(write(rd));
    assert(lines =~= seq![read(rs1), pushes(shamt as int), does("i64"@, op), write(rd)]);
}

proof fn lemma_shift_reg_text(indent: Seq<char>, op: Seq<char>, rd: u8, rs1: u8, rs2: u8)
    requires
        rd != 0,
    ensures
        ends_in(
            shift_reg_text(indent, op, rd, rs1, rs2),
            indent,
            seq![read(rs1), read(rs2), "(i64.const 63)"@, "(i64.and)  ;; mask shift amount"@, does("i64"@, op), write(rd)],
        ),
{
    let text = indent + ";; x"@ + dec(rd as nat) + " = x"@ + dec(rs1 as nat) + " "@ + op + " (x"@ + dec(rs2 as nat) + " & 0x3F)\n"@;
    lemma_none(text, indent);
    let lines: Seq<Seq<char>> = Seq::empty();
    lemma_lines(indent, rs1, 0, Seq::empty(), Seq::empty(), Seq::empty());
    lemma_one_more(text, indent, lines, read(rs1));
    let text = text + (indent + read(rs1) + seq!['\n']);
    let lines = lines.push(read(rs1));
    lemma_lines(indent, rs2, 0, Seq::empty(), Seq::empty(), Seq::empty());
    lemma_one_more(text, indent, lines, read(rs2));
    let text = text + (indent + read(rs2) + seq!['\n']);
    let lines = lines.push(read(rs2));
    lemma_lines(indent, 0, 0, Seq::empty(), Seq::empty(), "(i64.const 63)"@);
    lemma_one_more(text, indent, lines, "(i64.const 63)"@);
    let text = text + (indent + "(i64.const 63)"@ + seq!['\n']);
    let lines = lines.push("(i64.const 63)"@);
    lemma_lines(indent, 0, 0, Seq::empty(), Seq::empty(), "(i64.and)  ;; mask shift amount"@);
    lemma_one_more(text, indent, lines, "(i64.and)  ;; mask shift amount"@);
    let text = text + (indent + "(i64.and)  ;; mask shift amount"@ + seq!['\n']);
    let lines = lines.push("(i64.and)  ;; mask shift amount"@);
    lemma_lines(indent, 0, 0, "i64"@, op, Seq::empty());
    lemma_one_more(text, indent, lines, does("i64"@, op));
    let text = text + (indent + does("i64"@, op) + seq!['\n']);
    let lines = lines.push(does("i64"@, op));
    lemma_lines(indent, rd, 0, Seq::empty(), Seq::empty(), Seq::empty());
    lemma_one_more(text, indent, lines, write(rd));
    let text = text + (indent + write(rd) + seq!['\n']);
    let lines = lines.push(write(rd));
    assert(lines =~= seq![read(rs1), read(rs2), "(i64.const 63)"@, "(i64.and)  ;; mask shift amount"@, does("i64"@, op), write(rd)]);
}

proof fn lemma_slt_text(indent: Seq<char>, rd: u8, rs1: u8, rs2: u8, signed: bool)
    requires
        rd != 0,
    ensures
        ends_in(
            slt_text(indent, rd, rs1, rs2, signed),
            indent,
            seq![read(rs1), read(rs2), does("i64"@, less_than(signed)), "(i64.extend_i32_u)"@, write(rd)],
        ),
{
    let text = indent + ";; x"@ + dec(rd as nat) + " = (x"@ + dec(rs1 as nat) + " < x"@ + dec(rs2 as nat) + ") ? 1 : 0\n"@;
    lemma_none(text, indent);
    let lines: Seq<Seq<char>> = Seq::empty();
    lemma_lines(indent, rs1, 0, Seq::empty(), Seq::empty(), Seq::empty());
    lemma_one_more(text, indent, lines, read(rs1));
    let text = text + (indent + read(rs1) + seq!['\n']);
    let lines = lines.push(read(rs1));
    lemma_lines(indent, rs2, 0, Seq::empty(), Seq::empty(), Seq::empty());
    lemma_one_more(text, indent, lines, read(rs2));
    let text = text + (indent + read(rs2) + seq!['\n']);
    let lines = lines.push(read(rs2));
    lemma_lines(indent, 0, 0, "i64"@, less_than(signed), Seq::empty());
    lemma_one_more(text, indent, lines, does("i64"@, less_than(signed)));
    let text = text + (indent + does("i64"@, less_than(signed)) + seq!['\n']);
    let lines = lines.push(does("i64"@, less_than(signed)));
    lemma_lines(indent, 0, 0, Seq::empty(), Seq::empty(), "(i64.extend_i32_u)"@);
    lemma_one_more(text, indent, lines, "(i64.extend_i32_u)"@);
    let text = text + (indent + "(i64.extend_i32_u)"@ + seq!['\n']);
    let lines = lines.push("(i64.extend_i32_u)"@);
    lemma_lines(indent, rd, 0, Seq::empty(), Seq::empty(), Seq::empty());
    lemma_one_more(text, indent, lines, write(rd));
    let text = text + (indent + write(rd) + seq!['\n']);
    let lines = lines.push(write(rd));
    assert(lines =~= seq![read(rs1), read(rs2), does("i64"@, less_than(signed)), "(i64.extend_i32_u)"@, write(rd)]);
}

proof fn lemma_slti_text(indent: Seq<char>, rd: u8, rs1: u8, imm: i64, signed: bool)
    requires
        rd != 0,
    ensures
        ends_in(
            slti_text(indent, rd, rs1, imm, signed),
            indent,
            seq![read(rs1), pushes(imm as int), does("i64"@, less_than(signed)), "(i64.extend_i32_u)"@, write(rd)],
        ),
{
    let text = indent + ";; x"@ + dec(rd as nat) + " = (x"@ + dec(rs1 as nat) + " < "@ + dec_signed(imm as int) + ")? 1 : 0\n"@;
    lemma_none(text, indent);
    let lines: Seq<Seq<char>> = Seq::empty();
    lemma_lines(indent, rs1, 0, Seq::empty(), Seq::empty(), Seq::empty());
    lemma_one_more(text, indent, lines, read(rs1));
    let text = text + (indent + read(rs1) + seq!['\n']);
    let lines = lines.push(read(rs1));
    lemma_lines(indent, 0, imm as int, Seq::empty(), Seq::empty(), Seq::empty());
    lemma_one_more(text, indent, lines, pushes(imm as int));
    let text = text + (indent + pushes(imm as int) + seq!['\n']);
    let lines = lines.push(pushes(imm as int));
    lemma_lines(indent, 0, 0, "i64"@, less_than(signed), Seq::empty());
    lemma_one_more(text, indent, lines, does("i64"@, less_than(signed)));
    let text = text + (indent + does("i64"@, less_than(signed)) + seq!['\n']);
    let lines = lines.push(does("i64"@, less_than(signed)));
    lemma_lines(indent, 0, 0, Seq::empty(), Seq::empty(), "(i64.extend_i32_u)"@);
    lemma_one_more(text, indent, lines, "(i64.extend_i32_u)"@);
    let text = text + (indent + "(i64.extend_i32_u)"@ + seq!['\n']);
    let lines = lines.push("(i64.extend_i32_u)"@);
    lemma_lines(indent, rd, 0, Seq::empty(), Seq::empty(), Seq::empty());
    lemma_one_more(text, indent, lines, write(rd));
    let text = text + (indent + write(rd) + seq!['\n']);
    let lines = lines.push(write(rd));
    assert(lines =~= seq![read(rs1), pushes(imm as int), does("i64"@, less_than(signed)), "(i64.extend_i32_u)"@, write(rd)]);
}

proof fn lemma_alu_reg_w_text(indent: Seq<char>, op: Seq<char>, rd: u8, rs1: u8, rs2: u8)
    requires
        rd != 0,
    ensures
        ends_in(
            alu_reg_w_text(indent, op, rd, rs1, rs2),
            indent,
            seq![read(rs1), "(i32.wrap_i64)"@, read(rs2), "(i32.wrap_i64)"@, does("i32"@, op), "(i64.extend_i32_s)  ;; sign-extend to 64-bit"@, write(rd)],
        ),
{
    let text = indent + ";; x"@ + dec(rd as nat) + " = sext32(x"@ + dec(rs1 as nat) + " "@ + op + " x"@ + dec(rs2 as nat) + ")\n"@;
    lemma_none(text, indent);
    let lines: Seq<Seq<char>> = Seq::empty();
    lemma_lines(indent, rs1, 0, Seq::empty(), Seq::empty(), Seq::empty());
    lemma_one_more(text, indent, lines, read(rs1));
    let text = text + (indent + read(rs1) + seq!['\n']);
    let lines = lines.push(read(rs1));
    lemma_lines(indent, 0, 0, Seq::empty(), Seq::empty(), "(i32.wrap_i64)"@);
    lemma_one_more(text, indent, lines, "(i32.wrap_i64)"@);
    let text = text + (indent + "(i32.wrap_i64)"@ + seq!['\n']);
    let lines = lines.push("(i32.wrap_i64)"@);
    lemma_lines(indent, rs2, 0, Seq::empty(), Seq::empty(), Seq::empty());
    lemma_one_more(text, indent, lines, read(rs2));
    let text = text + (indent + read(rs2) + seq!['\n']);
    let lines = lines.push(read(rs2));
    lemma_lines(indent, 0, 0, Seq::empty(), Seq::empty(), "(i32.wrap_i64)"@);
    lemma_one_more(text, indent, lines, "(i32.wrap_i64)"@);
    let text = text + (indent + "(i32.wrap_i64)"@ + seq!['\n']);
    let lines = lines.push("(i32.wrap_i64)"@);
    lemma_lines(indent, 0, 0, "i32"@, op, Seq::empty());
    lemma_one_more(text, indent, lines, does("i32"@, op));
    let text = text + (indent + does("i32"@, op) + seq!['\n']);
    let lines = lines.push(does("i32"@, op));
    lemma_lines(indent, 0, 0, Seq::empty(), Seq::empty(), "(i64.extend_i32_s)  ;; sign-extend to 64-bit"@);
    lemma_one_more(text, indent, lines, "(i64.extend_i32_s)  ;; sign-extend to 64-bit"@);
    let text = text + (indent + "(i64.extend_i32_s)  ;; sign-extend to 64-bit"@ + seq!['\n']);
    let lines = lines.push("(i64.extend_i32_s)  ;; sign-extend to 64-bit"@);
    lemma_lines(indent, rd, 0, Seq::empty(), Seq::empty(), Seq::empty());
    lemma_one_more(text, indent, lines, write(rd));
    let text = text + (indent + write(rd) + seq!['\n']);
    let lines = lines.push(write(rd));
    assert(lines =~= seq![read(rs1), "(i32.wrap_i64)"@, read(rs2), "(i32.wrap_i64)"@, does("i32"@, op), "(i64.extend_i32_s)  ;; sign-extend to 64-bit"@, write(rd)]);
}

proof fn lemma_shift_reg_w_text(indent: Seq<char>, op: Seq<char>, rd: u8, rs1: u8, rs2: u8)
    requires
        rd != 0,
    ensures
        ends_in(
            shift_reg_w_text(indent, op, rd, rs1, rs2),
            indent,
            seq![read(rs1), "(i32.wrap_i64)"@, read(rs2), "(i32.wrap_i64)"@, "(i32.const 31)"@, "(i32.and)  ;; mask shift amount"@, does("i32"@, op), "(i64.extend_i32_s)  ;; sign-extend to 64-bit"@, write(rd)],
        ),
{
    let text = indent + ";; x"@ + dec(rd as nat) + " = sext32(x"@ + dec(rs1 as nat) + " "@ + op + " (x"@ + dec(rs2 as nat) + " & 0x1F))\n"@;
    lemma_none(text, indent);
    let lines: Seq<Seq<char>> = Seq::empty();
    lemma_lines(indent, rs1, 0, Seq::empty(), Seq::empty(), Seq::empty());
    lemma_one_more(text, indent, lines, read(rs1));
    let text = text + (indent + read(rs1) + seq!['\n']);
    let lines = lines.push(read(rs1));
    lemma_lines(indent, 0, 0, Seq::empty(), Seq::empty(), "(i32.wrap_i64)"@);
    lemma_one_more(text, indent, lines, "(i32.wrap_i64)"@);
    let text = text + (indent + "(i32.wrap_i64)"@ + seq!['\n']);
    let lines = lines.push("(i32.wrap_i64)"@);
    lemma_lines(indent, rs2, 0, Seq::empty(), Seq::empty(), Seq::empty());
    lemma_one_more(text, indent, lines, read(rs2));
    let text = text + (indent + read(rs2) + seq!['\n']);
    let lines = lines.push(read(rs2));
    lemma_lines(indent, 0, 0, Seq::empty(), Seq::empty(), "(i32.wrap_i64)"@);
    lemma_one_more(text, indent, lines, "(i32.wrap_i64)"@);
    let text = text + (indent + "(i32.wrap_i64)"@ + seq!['\n']);
    let lines = lines.push("(i32.wrap_i64)"@);
    lemma_lines(indent, 0, 0, Seq::empty(), Seq::empty(), "(i32.const 31)"@);
    lemma_one_more(text, indent, lines, "(i32.const 31)"@);
    let text = text + (indent + "(i32.const 31)"@ + seq!['\n']);
    let lines = lines.push("(i32.const 31)"@);
    lemma_lines(indent, 0, 0, Seq::empty(), Seq::empty(), "(i32.and)  ;; mask shift amount"@);
    lemma_one_more(text, indent, lines, "(i32.and)  ;; mask shift amount"@);
    let text = text + (indent + "(i32.and)  ;; mask shift amount"@ + seq!['\n']);
    let lines = lines.push("(i32.and)  ;; mask shift amount"@);
    lemma_lines(indent, 0, 0, "i32"@, op, Seq::empty());
    lemma_one_more(text, indent, lines, does("i32"@, op));
    let text = text + (indent + does("i32"@, op) + seq!['\n']);
    let lines = lines.push(does("i32"@, op));
    lemma_lines(indent, 0, 0, Seq::empty(), Seq::empty(), "(i64.extend_i32_s)  ;; sign-extend to 64-bit"@);
    lemma_one_more(text, indent, lines, "(i64.extend_i32_s)  ;; sign-extend to 64-bit"@);
    let text = text + (indent + "(i64.extend_i32_s)  ;; sign-extend to 64-bit"@ + seq!['\n']);
    let lines = lines.push("(i64.extend_i32_s)  ;; sign-extend to 64-bit"@);
    lemma_lines(indent, rd, 0, Seq::empty(), Seq::empty(), Seq::empty());
    lemma_one_more(text, indent, lines, write(rd));
    let text = text + (indent + write(rd) + seq!['\n']);
    let lines = lines.push(write(rd));
    assert(lines =~= seq![read(rs1), "(i32.wrap_i64)"@, read(rs2), "(i32.wrap_i64)"@, "(i32.const 31)"@, "(i32.and)  ;; mask shift amount"@, does("i32"@, op), "(i64.extend_i32_s)  ;; sign-extend to 64-bit"@, write(rd)]);
}

proof fn lemma_div_long_text(indent: Seq<char>, rd: u8, rs1: u8, rs2: u8, op: Seq<char>)
    requires
        rd != 0,
    ensures
        ends_in(
            div_long_text(indent, rd, rs1, rs2, op),
            indent,
            seq![read(rs1), read(rs2), ";; TODO: division by zero check"@, does("i64"@, op), write(rd)],
        ),
{
    let text = indent + ";; x"@ + dec(rd as nat) + " = x"@ + dec(rs1 as nat) + " / x"@ + dec(rs2 as nat) + "\n"@;
    lemma_none(text, indent);
    let lines: Seq<Seq<char>> = Seq::empty();
    lemma_lines(indent, rs1, 0, Seq::empty(), Seq::empty(), Seq::empty());
    lemma_one_more(text, indent, lines, read(rs1));
    let text = text + (indent + read(rs1) + seq!['\n']);
    let lines = lines.push(read(rs1));
    lemma_lines(indent, rs2, 0, Seq::empty(), Seq::empty(), Seq::empty());
    lemma_one_more(text, indent, lines, read(rs2));
    let text = text + (indent + read(rs2) + seq!['\n']);
    let lines = lines.push(read(rs2));
    lemma_lines(indent, 0, 0, Seq::empty(), Seq::empty(), ";; TODO: division by zero check"@);
    lemma_one_more(text, indent, lines, ";; TODO: division by zero check"@);
    let text = text + (indent + ";; TODO: division by zero check"@ + seq!['\n']);
    let lines = lines.push(";; TODO: division by zero check"@);
    lemma_lines(indent, 0, 0, "i64"@, op, Seq::empty());
    lemma_one_more(text, indent, lines, does("i64"@, op));
    let text = text + (indent + does("i64"@, op) + seq!['\n']);
    let lines = lines.push(does("i64"@, op));
    lemma_lines(indent, rd, 0, Seq::empty(), Seq::empty(), Seq::empty());
    lemma_one_more(text, indent, lines, write(rd));
    let text = text + (indent + write(rd) + seq!['\n']);
    let lines = lines.push(write(rd));
    assert(lines =~= seq![read(rs1), read(rs2), ";; TODO: division by zero check"@, does("i64"@, op), write(rd)]);
}

proof fn lemma_div_word_text(indent: Seq<char>, rd: u8, rs1: u8, rs2: u8, op: Seq<char>)
    requires
        rd != 0,
    ensures
        ends_in(
            div_word_text(indent, rd, rs1, rs2, op),
            indent,
            seq![read(rs1), "(i32.wrap_i64)"@, read(rs2), "(i32.wrap_i64)"@, ";; TODO: division by zero check"@, does("i32"@, op), "(i64.extend_i32_s)"@, write(rd)],
        ),
{
    let text = indent + ";; x"@ + dec(rd as nat) + " = sext32(x"@ + dec(rs1 as nat) + " / x"@ + dec(rs2 as nat) + ") (w)\n"@;
    lemma_none(text, indent);
    let lines: Seq<Seq<char>> = Seq::empty();
    lemma_lines(indent, rs1, 0, Seq::empty(), Seq::empty(), Seq::empty());
    lemma_one_more(text, indent, lines, read(rs1));
    let text = text + (indent + read(rs1) + seq!['\n']);
    let lines = lines.push(read(rs1));
    lemma_lines(indent, 0, 0, Seq::empty(), Seq::empty(), "(i32.wrap_i64)"@);
    lemma_one_more(text, indent, lines, "(i32.wrap_i64)"@);
    let text = text + (indent + "(i32.wrap_i64)"@ + seq!['\n']);
    let lines = lines.push("(i32.wrap_i64)"@);
    lemma_lines(indent, rs2, 0, Seq::empty(), Seq::empty(), Seq::empty());
    lemma_one_more(text, indent, lines, read(rs2));
    let text = text + (indent + read(rs2) + seq!['\n']);
    let lines = lines.push(read(rs2));
    lemma_lines(indent, 0, 0, Seq::empty(), Seq::empty(), "(i32.wrap_i64)"@);
    lemma_one_more(text, indent, lines, "(i32.wrap_i64)"@);
    let text = text + (indent + "(i32.wrap_i64)"@ + seq!['\n']);
    let lines = lines.push("(i32.wrap_i64)"@);
    lemma_lines(indent, 0, 0, Seq::empty(), Seq::empty(), ";; TODO: division by zero check"@);
    lemma_one_more(text, indent, lines, ";; TODO: division by zero check"@);
    let text = text + (indent + ";; TODO: division by zero check"@ + seq!['\n']);
    let lines = lines.push(";; TODO: division by zero check"@);
    lemma_lines(indent, 0, 0, "i32"@, op, Seq::empty());
    lemma_one_more(text, indent, lines, does("i32"@, op));
    let text = text + (indent + does("i32"@, op) + seq!['\n']);
    let lines = lines.push(does("i32"@, op));
    lemma_lines(indent, 0, 0, Seq::empty(), Seq::empty(), "(i64.extend_i32_s)"@);
    lemma_one_more(text, indent, lines, "(i64.extend_i32_s)"@);
    let text = text + (indent + "(i64.extend_i32_s)"@ + seq!['\n']);
    let lines = lines.push("(i64.extend_i32_s)"@);
    lemma_lines(indent, rd, 0, Seq::empty(), Seq::empty(), Seq::empty());
    lemma_one_more(text, indent, lines, write(rd));
    let text = text + (indent + write(rd) + seq!['\n']);
    let lines = lines.push(write(rd));
    assert(lines =~= seq![read(rs1), "(i32.wrap_i64)"@, read(rs2), "(i32.wrap_i64)"@, ";; TODO: division by zero check"@, does("i32"@, op), "(i64.extend_i32_s)"@, write(rd)]);
}

proof fn lemma_rem_long_text(indent: Seq<char>, rd: u8, rs1: u8, rs2: u8, op: Seq<char>)
    requires
        rd != 0,
    ensures
        ends_in(
            rem_long_text(indent, rd, rs1, rs2, op),
            indent,
            seq![read(rs1), read(rs2), ";; TODO: division by zero check"@, does("i64"@, op), write(rd)],
        ),
{
    let text = indent + ";; x"@ + dec(rd as nat) + " = x"@ + dec(rs1 as nat) + " %% x"@ + dec(rs2 as nat) + "\n"@;
    lemma_none(text, indent);
    let lines: Seq<Seq<char>> = Seq::empty();
    lemma_lines(indent, rs1, 0, Seq::empty(), Seq::empty(), Seq::empty());
    lemma_one_more(text, indent, lines, read(rs1));
    let text = text + (indent + read(rs1) + seq!['\n']);
    let lines = lines.push(read(rs1));
    lemma_lines(indent, rs2, 0, Seq::empty(), Seq::empty(), Seq::empty());
    lemma_one_more(text, indent, lines, read(rs2));
    let text = text + (indent + read(rs2) + seq!['\n']);
    let lines = lines.push(read(rs2));
    lemma_lines(indent, 0, 0, Seq::empty(), Seq::empty(), ";; TODO: division by zero check"@);
    lemma_one_more(text, indent, lines, ";; TODO: division by zero check"@);
    let text = text + (indent + ";; TODO: division by zero check"@ + seq!['\n']);
    let lines = lines.push(";; TODO: division by zero check"@);
    lemma_lines(indent, 0, 0, "i64"@, op, Seq::empty());
    lemma_one_more(text, indent, lines, does("i64"@, op));
    let text = text + (indent + does("i64"@, op) + seq!['\n']);
    let lines = lines.push(does("i64"@, op));
    lemma_lines(indent, rd, 0, Seq::empty(), Seq::empty(), Seq::empty());
    lemma_one_more(text, indent, lines, write(rd));
    let text = text + (indent + write(rd) + seq!['\n']);
    let lines = lines.push(write(rd));
    assert(lines =~= seq![read(rs1), read(rs2), ";; TODO: division by zero check"@, does("i64"@, op), write(rd)]);
}

proof fn lemma_rem_word_text(indent: Seq<char>, rd: u8, rs1: u8, rs2: u8, op: Seq<char>)
    requires
        rd != 0,
    ensures
        ends_in(
            rem_word_text(indent, rd, rs1, rs2, op),
            indent,
            seq![read(rs1), "(i32.wrap_i64)"@, read(rs2), "(i32.wrap_i64)"@, ";; TODO: division by zero check"@, does("i32"@, op), "(i64.extend_i32_s)"@, write(rd)],
        ),
{
    let text = indent + ";; x"@ + dec(rd as nat) + " = sext32(x"@ + dec(rs1 as nat) + " %% x"@ + dec(rs2 as nat) + ") (w)\n"@;
    lemma_none(text, indent);
    let lines: Seq<Seq<char>> = Seq::empty();
    lemma_lines(indent, rs1, 0, Seq::empty(), Seq::empty(), Seq::empty());
    lemma_one_more(text, indent, lines, read(rs1));
    let text = text + (indent + read(rs1) + seq!['\n']);
    let lines = lines.push(read(rs1));
    lemma_lines(indent, 0, 0, Seq::empty(), Seq::empty(), "(i32.wrap_i64)"@);
    lemma_one_more(text, indent, lines, "(i32.wrap_i64)"@);
    let text = text + (indent + "(i32.wrap_i64)"@ + seq!['\n']);
    let lines = lines.push("(i32.wrap_i64)"@);
    lemma_lines(indent, rs2, 0, Seq::empty(), Seq::empty(), Seq::empty());
    lemma_one_more(text, indent, lines, read(rs2));
    let text = text + (indent + read(rs2) + seq!['\n']);
    let lines = lines.push(read(rs2));
    lemma_lines(indent, 0, 0, Seq::empty(), Seq::empty(), "(i32.wrap_i64)"@);
    lemma_one_more(text, indent, lines, "(i32.wrap_i64)"@);
    let text = text + (indent + "(i32.wrap_i64)"@ + seq!['\n']);
    let lines = lines.push("(i32.wrap_i64)"@);
    lemma_lines(indent, 0, 0, Seq::empty(), Seq::empty(), ";; TODO: division by zero check"@);
    lemma_one_more(text, indent, lines, ";; TODO: division by zero check"@);
    let text = text + (indent + ";; TODO: division by zero check"@ + seq!['\n']);
    let lines = lines.push(";; TODO: division by zero check"@);
    lemma_lines(indent, 0, 0, "i32"@, op, Seq::empty());
    lemma_one_more(text, indent, lines, does("i32"@, op));
    let text = text + (indent + does("i32"@, op) + seq!['\n']);
    let lines = lines.push(does("i32"@, op));
    lemma_lines(indent, 0, 0, Seq::empty(), Seq::empty(), "(i64.extend_i32_s)"@);
    lemma_one_more(text, indent, lines, "(i64.extend_i32_s)"@);
    let text = text + (indent + "(i64.extend_i32_s)"@ + seq!['\n']);
    let lines = lines.push("(i64.extend_i32_s)"@);
    lemma_lines(indent, rd, 0, Seq::empty(), Seq::empty(), Seq::empty());
    lemma_one_more(text, indent, lines, write(rd));
    let text = text + (indent + write(rd) + seq!['\n']);
    let lines = lines.push(write(rd));
    assert(lines =~= seq![read(rs1), "(i32.wrap_i64)"@, read(rs2), "(i32.wrap_i64)"@, ";; TODO: division by zero check"@, does("i32"@, op), "(i64.extend_i32_s)"@, write(rd)]);
}

proof fn lemma_alu_imm_w_text(indent: Seq<char>, op: Seq<char>, rd: u8, rs1: u8, imm: i64)
    requires
        rd != 0,
    ensures
        ends_in(
            alu_imm_w_text(indent, op, rd, rs1, imm),
            indent,
            seq![read(rs1), "(i32.wrap_i64)"@, pushes_word(imm as i32 as int), does("i32"@, op), "(i64.extend_i32_s)  ;; sign-extend to 64-bit"@, write(rd)],
        ),
{
    let text = indent + ";; x"@ + dec(rd as nat) + " = sext32(x"@ + dec(rs1 as nat) + " "@ + op + " "@ + dec_signed(imm as int) + ")\n"@;
    lemma_none(text, indent);
    let lines: Seq<Seq<char>> = Seq::empty();
    lemma_lines(indent, rs1, 0, Seq::empty(), Seq::empty(), Seq::empty());
    lemma_one_more(text, indent, lines, read(rs1));
    let text = text + (indent + read(rs1) + seq!['\n']);
    let lines = lines.push(read(rs1));
    lemma_lines(indent, 0, 0, Seq::empty(), Seq::empty(), "(i32.wrap_i64)"@);
    lemma_one_more(text, indent, lines, "(i32.wrap_i64)"@);
    let text = text + (indent + "(i32.wrap_i64)"@ + seq!['\n']);
    let lines = lines.push("(i32.wrap_i64)"@);
    reveal_strlit(")");
    reveal_strlit(")\n");
    assert(")\n"@ =~= ")"@ + seq!['\n']);
    assert(text + indent + "(i32.const "@ + dec_signed(imm as i32 as int) + ")\n"@ =~= text + (indent + (pushes_word(imm as i32 as int)) + seq!['\n']));
    lemma_one_more(text, indent, lines, pushes_word(imm as i32 as int));
    let text = text + (indent + (pushes_word(imm as i32 as int)) + seq!['\n']);
    let lines = lines.push(pushes_word(imm as i32 as int));
    lemma_lines(indent, 0, 0, "i32"@, op, Seq::empty());
    lemma_one_more(text, indent, lines, does("i32"@, op));
    let text = text + (indent + does("i32"@, op) + seq!['\n']);
    let lines = lines.push(does("i32"@, op));
    lemma_lines(indent, 0, 0, Seq::empty(), Seq::empty(), "(i64.extend_i32_s)  ;; sign-extend to 64-bit"@);
    lemma_one_more(text, indent, lines, "(i64.extend_i32_s)  ;; sign-extend to 64-bit"@);
    let text = text + (indent + "(i64.extend_i32_s)  ;; sign-extend to 64-bit"@ + seq!['\n']);
    let lines = lines.push("(i64.extend_i32_s)  ;; sign-extend to 64-bit"@);
    lemma_lines(indent, rd, 0, Seq::empty(), Seq::empty(), Seq::empty());
    lemma_one_more(text, indent, lines, write(rd));
    let text = text + (indent + write(rd) + seq!['\n']);
    let lines = lines.push(write(rd));
    assert(lines =~= seq![read(rs1), "(i32.wrap_i64)"@, pushes_word(imm as i32 as int), does("i32"@, op), "(i64.extend_i32_s)  ;; sign-extend to 64-bit"@, write(rd)]);
}

proof fn lemma_shift_imm_w_text(indent: Seq<char>, op: Seq<char>, rd: u8, rs1: u8, shamt: u8)
    requires
        rd != 0,
    ensures
        ends_in(
            shift_imm_w_text(indent, op, rd, rs1, shamt),
            indent,
            seq![read(rs1), "(i32.wrap_i64)"@, pushes_word(shamt as int), does("i32"@, op), "(i64.extend_i32_s)  ;; sign-extend to 64-bit"@, write(rd)],
        ),
{
    let text = indent + ";; x"@ + dec(rd as nat) + " = sext32(x"@ + dec(rs1 as nat) + " "@ + op + " "@ + dec(shamt as nat) + ")\n"@;
    lemma_none(text, indent);
    let lines: Seq<Seq<char>> = Seq::empty();
    lemma_lines(indent, rs1, 0, Seq::empty(), Seq::empty(), Seq::empty());
    lemma_one_more(text, indent, lines, read(rs1));
    let text = text + (indent + read(rs1) + seq!['\n']);
    let lines = lines.push(read(rs1));
    lemma_lines(indent, 0, 0, Seq::empty(), Seq::empty(), "(i32.wrap_i64)"@);
    lemma_one_more(text, indent, lines, "(i32.wrap_i64)"@);
    let text = text + (indent + "(i32.wrap_i64)"@ + seq!['\n']);
    let lines = lines.push("(i32.wrap_i64)"@);
    reveal_strlit(")");
    reveal_strlit(")\n");
    assert(")\n"@ =~= ")"@ + seq!['\n']);
    assert(text + indent + "(i32.const "@ + dec(shamt as nat) + ")\n"@ =~= text + (indent + (pushes_word(shamt as int)) + seq!['\n']));
    lemma_one_more(text, indent, lines, pushes_word(shamt as int));
    let text = text + (indent + (pushes_word(shamt as int)) + seq!['\n']);
    let lines = lines.push(pushes_word(shamt as int));
    lemma_lines(indent, 0, 0, "i32"@, op, Seq::empty());
    lemma_one_more(text, indent, lines, does("i32"@, op));
    let text = text + (indent + does("i32"@, op) + seq!['\n']);
    let lines = lines.push(does("i32"@, op));
    lemma_lines(indent, 0, 0, Seq::empty(), Seq::empty(), "(i64.extend_i32_s)  ;; sign-extend to 64-bit"@);
    lemma_one_more(text, indent, lines, "(i64.extend_i32_s)  ;; sign-extend to 64-bit"@);
    let text = text + (indent + "(i64.extend_i32_s)  ;; sign-extend to 64-bit"@ + seq!['\n']);
    let lines = lines.push("(i64.extend_i32_s)  ;; sign-extend to 64-bit"@);
    lemma_lines(indent, rd, 0, Seq::empty(), Seq::empty(), Seq::empty());
    lemma_one_more(text, indent, lines, write(rd));
    let text = text + (indent + write(rd) + seq!['\n']);
    let lines = lines.push(write(rd));
    assert(lines =~= seq![read(rs1), "(i32.wrap_i64)"@, pushes_word(shamt as int), does("i32"@, op), "(i64.extend_i32_s)  ;; sign-extend to 64-bit"@, write(rd)]);
}

#[verifier::rlimit(40)]
proof fn lemma_kept_load_text(indent: Seq<char>, size: Seq<char>, ext: Seq<char>, read_func: Seq<char>, extend: Seq<char>, rd: u8, rs1: u8, imm: i64)
    requires
        rd != 0,
    ensures
        ends_in(
            kept_load_text(indent, size, ext, read_func, extend, rd, rs1, imm),
            indent,
            seq![read(rs1), pushes(imm as int), "(i64.add)  ;; vaddr"@, "(call "@ + read_func + ")  ;; read"@, extend, write(rd)],
        ),
{
    let text = indent + ";; x"@ + dec(rd as nat) + " = mem[x"@ + dec(rs1 as nat) + " + "@ + dec_signed(imm as int) + "] ("@ + size + ext + ")\n"@;
    lemma_none(text, indent);
    let lines: Seq<Seq<char>> = Seq::empty();
    lemma_lines(indent, rs1, 0, Seq::empty(), Seq::empty(), Seq::empty());
    lemma_one_more(text, indent, lines, read(rs1));
    let text = text + (indent + read(rs1) + seq!['\n']);
    let lines = lines.push(read(rs1));
    lemma_lines(indent, 0, imm as int, Seq::empty(), Seq::empty(), Seq::empty());
    lemma_one_more(text, indent, lines, pushes(imm as int));
    let text = text + (indent + pushes(imm as int) + seq!['\n']);
    let lines = lines.push(pushes(imm as int));
    lemma_lines(indent, 0, 0, Seq::empty(), Seq::empty(), "(i64.add)  ;; vaddr"@);
    lemma_one_more(text, indent, lines, "(i64.add)  ;; vaddr"@);
    let text = text + (indent + "(i64.add)  ;; vaddr"@ + seq!['\n']);
    let lines = lines.push("(i64.add)  ;; vaddr"@);
    reveal_strlit(")  ;; read");
    reveal_strlit(")  ;; read\n");
    assert(")  ;; read\n"@ =~= ")  ;; read"@ + seq!['\n']);
    assert(text + indent + "(call "@ + read_func + ")  ;; read\n"@ =~= text + (indent + ("(call "@ + read_func + ")  ;; read"@) + seq!['\n']));
    lemma_one_more(text, indent, lines, "(call "@ + read_func + ")  ;; read"@);
    let text = text + (indent + ("(call "@ + read_func + ")  ;; read"@) + seq!['\n']);
    let lines = lines.push("(call "@ + read_func + ")  ;; read"@);
    reveal_strlit("");
    reveal_strlit("\n");
    assert("\n"@ =~= ""@ + seq!['\n']);
    assert(text + indent + extend + "\n"@ =~= text + (indent + (extend) + seq!['\n']));
    lemma_one_more(text, indent, lines, extend);
    let text = text + (indent + (extend) + seq!['\n']);
    let lines = lines.push(extend);
    lemma_lines(indent, rd, 0, Seq::empty(), Seq::empty(), Seq::empty());
    lemma_one_more(text, indent, lines, write(rd));
    let text = text + (indent + write(rd) + seq!['\n']);
    let lines = lines.push(write(rd));
    assert(lines =~= seq![read(rs1), pushes(imm as int), "(i64.add)  ;; vaddr"@, "(call "@ + read_func + ")  ;; read"@, extend, write(rd)]);
}

proof fn lemma_branch_text(indent: Seq<char>, test: Seq<char>, rs1: u8, rs2: u8, imm: i64, pc_offset: u16, pc: u64, goal: u64)
    requires
        goal == pc.wrapping_add(pc_offset as u64).wrapping_add(imm as u64),
    ensures
        ends_in(
            branch_text(indent, test, rs1, rs2, imm, pc_offset, pc),
            indent,
            seq![read(rs1), read(rs2), does("i64"@, test), "(if"@, "  (then"@, "    (i64.const 0x"@ + hex(goal as nat) + ")  ;; target PC"@, "    (return)"@, "  )"@, ")"@],
        ),
{
    let text = indent + ";; if x"@ + dec(rs1 as nat) + " "@ + test + " x"@ + dec(rs2 as nat) + " then jump to 0x"@ + hex(goal as nat) + "\n"@;
    lemma_none(text, indent);
    let lines: Seq<Seq<char>> = Seq::empty();
    lemma_lines(indent, rs1, 0, Seq::empty(), Seq::empty(), Seq::empty());
    lemma_one_more(text, indent, lines, read(rs1));
    let text = text + (indent + read(rs1) + seq!['\n']);
    let lines = lines.push(read(rs1));
    lemma_lines(indent, rs2, 0, Seq::empty(), Seq::empty(), Seq::empty());
    lemma_one_more(text, indent, lines, read(rs2));
    let text = text + (indent + read(rs2) + seq!['\n']);
    let lines = lines.push(read(rs2));
    lemma_lines(indent, 0, 0, "i64"@, test, Seq::empty());
    lemma_one_more(text, indent, lines, does("i64"@, test));
    let text = text + (indent + does("i64"@, test) + seq!['\n']);
    let lines = lines.push(does("i64"@, test));
    lemma_lines(indent, 0, 0, Seq::empty(), Seq::empty(), "(if"@);
    lemma_one_more(text, indent, lines, "(if"@);
    let text = text + (indent + "(if"@ + seq!['\n']);
    let lines = lines.push("(if"@);
    lemma_lines(indent, 0, 0, Seq::empty(), Seq::empty(), "  (then"@);
    lemma_one_more(text, indent, lines, "  (then"@);
    let text = text + (indent + "  (then"@ + seq!['\n']);
    let lines = lines.push("  (then"@);
    reveal_strlit(")  ;; target PC");
    reveal_strlit(")  ;; target PC\n");
    assert(")  ;; target PC\n"@ =~= ")  ;; target PC"@ + seq!['\n']);
    assert(text + indent + "    (i64.const 0x"@ + hex(goal as nat) + ")  ;; target PC\n"@ =~= text + (indent + ("    (i64.const 0x"@ + hex(goal as nat) + ")  ;; target PC"@) + seq!['\n']));
    lemma_one_more(text, indent, lines, "    (i64.const 0x"@ + hex(goal as nat) + ")  ;; target PC"@);
    let text = text + (indent + ("    (i64.const 0x"@ + hex(goal as nat) + ")  ;; target PC"@) + seq!['\n']);
    let lines = lines.push("    (i64.const 0x"@ + hex(goal as nat) + ")  ;; target PC"@);
    lemma_lines(indent, 0, 0, Seq::empty(), Seq::empty(), "    (return)"@);
    lemma_one_more(text, indent, lines, "    (return)"@);
    let text = text + (indent + "    (return)"@ + seq!['\n']);
    let lines = lines.push("    (return)"@);
    lemma_lines(indent, 0, 0, Seq::empty(), Seq::empty(), "  )"@);
    lemma_one_more(text, indent, lines, "  )"@);
    let text = text + (indent + "  )"@ + seq!['\n']);
    let lines = lines.push("  )"@);
    lemma_lines(indent, 0, 0, Seq::empty(), Seq::empty(), ")"@);
    lemma_one_more(text, indent, lines, ")"@);
    let text = text + (indent + ")"@ + seq!['\n']);
    let lines = lines.push(")"@);
    assert(lines =~= seq![read(rs1), read(rs2), does("i64"@, test), "(if"@, "  (then"@, "    (i64.const 0x"@ + hex(goal as nat) + ")  ;; target PC"@, "    (return)"@, "  )"@, ")"@]);
}

/// Operations on two registers read both in order, do one thing, and write the result.
#[verifier::spinoff_prover]
pub proof fn law_listed_register_operations(indent: Seq<char>, pc: u64, rd: u8, rs1: u8, rs2: u8)
    requires
        rd != 0,
    ensures
        ends_in(
            microop_text(indent, MicroOp::Add { rd, rs1, rs2 }, pc),
            indent,
            seq![read(rs1), read(rs2), does("i64"@, "add"@), write(rd)],
        ),
        ends_in(
            microop_text(indent, MicroOp::Sub { rd, rs1, rs2 }, pc),
            indent,
            seq![read(rs1), read(rs2), does("i64"@, "sub"@), write(rd)],
        ),
        ends_in(
            microop_text(indent, MicroOp::Xor { rd, rs1, rs2 }, pc),
            indent,
            seq![read(rs1), read(rs2), does("i64"@, "xor"@), write(rd)],
        ),
        ends_in(
            microop_text(indent, MicroOp::Or { rd, rs1, rs2 }, pc),
            indent,
            seq![read(rs1), read(rs2), does("i64"@, "or"@), write(rd)],
        ),
        ends_in(
            microop_text(indent, MicroOp::And { rd, rs1, rs2 }, pc),
            indent,
            seq![read(rs1), read(rs2), does("i64"@, "and"@), write(rd)],
        ),
        ends_in(
            microop_text(indent, MicroOp::Mul { rd, rs1, rs2 }, pc),
            indent,
            seq![read(rs1), read(rs2), does("i64"@, "mul"@), write(rd)],
        ),
        ends_in(
            microop_text(indent, MicroOp::Sll { rd, rs1, rs2 }, pc),
            indent,
            seq![read(rs1), read(rs2), "(i64.const 63)"@, "(i64.and)  ;; mask shift amount"@, does("i64"@, "shl"@), write(rd)],
        ),
        ends_in(
            microop_text(indent, MicroOp::Srl { rd, rs1, rs2 }, pc),
            indent,
            seq![read(rs1), read(rs2), "(i64.const 63)"@, "(i64.and)  ;; mask shift amount"@, does("i64"@, "shr_u"@), write(rd)],
        ),
        ends_in(
            microop_text(indent, MicroOp::Sra { rd, rs1, rs2 }, pc),
            indent,
            seq![read(rs1), read(rs2), "(i64.const 63)"@, "(i64.and)  ;; mask shift amount"@, does("i64"@, "shr_s"@), write(rd)],
        ),
        ends_in(
            microop_text(indent, MicroOp::Slt { rd, rs1, rs2 }, pc),
            indent,
            seq![read(rs1), read(rs2), does("i64"@, "lt_s"@), "(i64.extend_i32_u)"@, write(rd)],
        ),
        ends_in(
            microop_text(indent, MicroOp::Sltu { rd, rs1, rs2 }, pc),
            indent,
            seq![read(rs1), read(rs2), does("i64"@, "lt_u"@), "(i64.extend_i32_u)"@, write(rd)],
        ),
{
    lemma_alu_reg_text(indent, "add"@, rd, rs1, rs2);
    lemma_alu_reg_text(indent, "sub"@, rd, rs1, rs2);
    lemma_alu_reg_text(indent, "xor"@, rd, rs1, rs2);
    lemma_alu_reg_text(indent, "or"@, rd, rs1, rs2);
    lemma_alu_reg_text(indent, "and"@, rd, rs1, rs2);
    lemma_alu_reg_text(indent, "mul"@, rd, rs1, rs2);
    lemma_shift_reg_text(indent, "shl"@, rd, rs1, rs2);
    lemma_shift_reg_text(indent, "shr_u"@, rd, rs1, rs2);
    lemma_shift_reg_text(indent, "shr_s"@, rd, rs1, rs2);
    lemma_slt_text(indent, rd, rs1, rs2, true);
    lemma_slt_text(indent, rd, rs1, rs2, false);
}

/// Operations on the low words of two registers cut both to words, do one thing, and extend the
/// result.
#[verifier::spinoff_prover]
pub proof fn law_listed_word_operations(indent: Seq<char>, pc: u64, rd: u8, rs1: u8, rs2: u8)
    requires
        rd != 0,
    ensures
        ends_in(
            microop_text(indent, MicroOp::Addw { rd, rs1, rs2 }, pc),
            indent,
            seq![read(rs1), "(i32.wrap_i64)"@, read(rs2), "(i32.wrap_i64)"@, does("i32"@, "add"@), "(i64.extend_i32_s)  ;; sign-extend to 64-bit"@, write(rd)],
        ),
        ends_in(
            microop_text(indent, MicroOp::Subw { rd, rs1, rs2 }, pc),
            indent,
            seq![read(rs1), "(i32.wrap_i64)"@, read(rs2), "(i32.wrap_i64)"@, does("i32"@, "sub"@), "(i64.extend_i32_s)  ;; sign-extend to 64-bit"@, write(rd)],
        ),
        ends_in(
            microop_text(indent, MicroOp::Mulw { rd, rs1, rs2 }, pc),
            indent,
            seq![read(rs1), "(i32.wrap_i64)"@, read(rs2), "(i32.wrap_i64)"@, does("i32"@, "mul"@), "(i64.extend_i32_s)  ;; sign-extend to 64-bit"@, write(rd)],
        ),
        ends_in(
            microop_text(indent, MicroOp::Sllw { rd, rs1, rs2 }, pc),
            indent,
            seq![read(rs1), "(i32.wrap_i64)"@, read(rs2), "(i32.wrap_i64)"@, "(i32.const 31)"@, "(i32.and)  ;; mask shift amount"@, does("i32"@, "shl"@), "(i64.extend_i32_s)  ;; sign-extend to 64-bit"@, write(rd)],
        ),
        ends_in(
            microop_text(indent, MicroOp::Srlw { rd, rs1, rs2 }, pc),
            indent,
            seq![read(rs1), "(i32.wrap_i64)"@, read(rs2), "(i32.wrap_i64)"@, "(i32.const 31)"@, "(i32.and)  ;; mask shift amount"@, does("i32"@, "shr_u"@), "(i64.extend_i32_s)  ;; sign-extend to 64-bit"@, write(rd)],
        ),
        ends_in(
            microop_text(indent, MicroOp::Sraw { rd, rs1, rs2 }, pc),
            indent,
            seq![read(rs1), "(i32.wrap_i64)"@, read(rs2), "(i32.wrap_i64)"@, "(i32.const 31)"@, "(i32.and)  ;; mask shift amount"@, does("i32"@, "shr_s"@), "(i64.extend_i32_s)  ;; sign-extend to 64-bit"@, write(rd)],
        ),
{
    lemma_alu_reg_w_text(indent, "add"@, rd, rs1, rs2);
    lemma_alu_reg_w_text(indent, "sub"@, rd, rs1, rs2);
    lemma_alu_reg_w_text(indent, "mul"@, rd, rs1, rs2);
    lemma_shift_reg_w_text(indent, "shl"@, rd, rs1, rs2);
    lemma_shift_reg_w_text(indent, "shr_u"@, rd, rs1, rs2);
    lemma_shift_reg_w_text(indent, "shr_s"@, rd, rs1, rs2);
}

/// Divisions read dividend and divisor, divide, and write the result.
#[verifier::spinoff_prover]
pub proof fn law_listed_divisions(indent: Seq<char>, pc: u64, rd: u8, rs1: u8, rs2: u8)
    requires
        rd != 0,
    ensures
        ends_in(
            microop_text(indent, MicroOp::Div { rd, rs1, rs2 }, pc),
            indent,
            seq![read(rs1), read(rs2), ";; TODO: division by zero check"@, does("i64"@, "div_s"@), write(rd)],
        ),
        ends_in(
            microop_text(indent, MicroOp::Divu { rd, rs1, rs2 }, pc),
            indent,
            seq![read(rs1), read(rs2), ";; TODO: division by zero check"@, does("i64"@, "div_u"@), write(rd)],
        ),
        ends_in(
            microop_text(indent, MicroOp::Rem { rd, rs1, rs2 }, pc),
            indent,
            seq![read(rs1), read(rs2), ";; TODO: division by zero check"@, does("i64"@, "rem_s"@), write(rd)],
        ),
        ends_in(
            microop_text(indent, MicroOp::Remu { rd, rs1, rs2 }, pc),
            indent,
            seq![read(rs1), read(rs2), ";; TODO: division by zero check"@, does("i64"@, "rem_u"@), write(rd)],
        ),
        ends_in(
            microop_text(indent, MicroOp::Divw { rd, rs1, rs2 }, pc),
            indent,
            seq![read(rs1), "(i32.wrap_i64)"@, read(rs2), "(i32.wrap_i64)"@, ";; TODO: division by zero check"@, does("i32"@, "div_s"@), "(i64.extend_i32_s)"@, write(rd)],
        ),
        ends_in(
            microop_text(indent, MicroOp::Divuw { rd, rs1, rs2 }, pc),
            indent,
            seq![read(rs1), "(i32.wrap_i64)"@, read(rs2), "(i32.wrap_i64)"@, ";; TODO: division by zero check"@, does("i32"@, "div_u"@), "(i64.extend_i32_s)"@, write(rd)],
        ),
        ends_in(
            microop_text(indent, MicroOp::Remw { rd, rs1, rs2 }, pc),
            indent,
            seq![read(rs1), "(i32.wrap_i64)"@, read(rs2), "(i32.wrap_i64)"@, ";; TODO: division by zero check"@, does("i32"@, "rem_s"@), "(i64.extend_i32_s)"@, write(rd)],
        ),
        ends_in(
            microop_text(indent, MicroOp::Remuw { rd, rs1, rs2 }, pc),
            indent,
            seq![read(rs1), "(i32.wrap_i64)"@, read(rs2), "(i32.wrap_i64)"@, ";; TODO: division by zero check"@, does("i32"@, "rem_u"@), "(i64.extend_i32_s)"@, write(rd)],
        ),
{
    lemma_div_long_text(indent, rd, rs1, rs2, "div_s"@);
    lemma_div_long_text(indent, rd, rs1, rs2, "div_u"@);
    lemma_rem_long_text(indent, rd, rs1, rs2, "rem_s"@);
    lemma_rem_long_text(indent, rd, rs1, rs2, "rem_u"@);
    lemma_div_word_text(indent, rd, rs1, rs2, "div_s"@);
    lemma_div_word_text(indent, rd, rs1, rs2, "div_u"@);
    lemma_rem_word_text(indent, rd, rs1, rs2, "rem_s"@);
    lemma_rem_word_text(indent, rd, rs1, rs2, "rem_u"@);
}

/// Operations on a register and a constant read the one, push the other, do one thing, and
/// write the result.
#[verifier::spinoff_prover]
pub proof fn law_listed_constant_operations(indent: Seq<char>, pc: u64, rd: u8, rs1: u8, imm: i64, shamt: u8)
    requires
        rd != 0,
    ensures
        ends_in(
            microop_text(indent, MicroOp::Addi { rd, rs1, imm }, pc),
            indent,
            seq![read(rs1), pushes(imm as int), does("i64"@, "add"@), write(rd)],
        ),
        ends_in(
            microop_text(indent, MicroOp::Xori { rd, rs1, imm }, pc),
            indent,
            seq![read(rs1), pushes(imm as int), does("i64"@, "xor"@), write(rd)],
        ),
        ends_in(
            microop_text(indent, MicroOp::Ori { rd, rs1, imm }, pc),
            indent,
            seq![read(rs1), pushes(imm as int), does("i64"@, "or"@), write(rd)],
        ),
        ends_in(
            microop_text(indent, MicroOp::Andi { rd, rs1, imm }, pc),
            indent,
            seq![read(rs1), pushes(imm as int), does("i64"@, "and"@), write(rd)],
        ),
        ends_in(
            microop_text(indent, MicroOp::Slti { rd, rs1, imm }, pc),
            indent,
            seq![read(rs1), pushes(imm as int), does("i64"@, "lt_s"@), "(i64.extend_i32_u)"@, write(rd)],
        ),
        ends_in(
            microop_text(indent, MicroOp::Sltiu { rd, rs1, imm }, pc),
            indent,
            seq![read(rs1), pushes(imm as int), does("i64"@, "lt_u"@), "(i64.extend_i32_u)"@, write(rd)],
        ),
        ends_in(
            microop_text(indent, MicroOp::Slli { rd, rs1, shamt }, pc),
            indent,
            seq![read(rs1), pushes(shamt as int), does("i64"@, "shl"@), write(rd)],
        ),
        ends_in(
            microop_text(indent, MicroOp::Srli { rd, rs1, shamt }, pc),
            indent,
            seq![read(rs1), pushes(shamt as int), does("i64"@, "shr_u"@), write(rd)],
        ),
        ends_in(
            microop_text(indent, MicroOp::Srai { rd, rs1, shamt }, pc),
            indent,
            seq![read(rs1), pushes(shamt as int), does("i64"@, "shr_s"@), write(rd)],
        ),
{
    lemma_alu_imm_text(indent, "add"@, rd, rs1, imm);
    lemma_alu_imm_text(indent, "xor"@, rd, rs1, imm);
    lemma_alu_imm_text(indent, "or"@, rd, rs1, imm);
    lemma_alu_imm_text(indent, "and"@, rd, rs1, imm);
    lemma_slti_text(indent, rd, rs1, imm, true);
    lemma_slti_text(indent, rd, rs1, imm, false);
    lemma_shift_imm_text(indent, "shl"@, rd, rs1, shamt);
    lemma_shift_imm_text(indent, "shr_u"@, rd, rs1, shamt);
    lemma_shift_imm_text(indent, "shr_s"@, rd, rs1, shamt);
}

/// Loads add a constant to a register, call the service of their width, extend what it gives,
/// and write the result.
#[verifier::spinoff_prover]
pub proof fn law_listed_loads(indent: Seq<char>, pc: u64, rd: u8, rs1: u8, imm: i64, pc_offset: u16)
    requires
        rd != 0,
    ensures
        ends_in(
            microop_text(indent, MicroOp::Lb { rd, rs1, imm, pc_offset }, pc),
            indent,
            seq![read(rs1), pushes(imm as int), "(i64.add)  ;; vaddr"@, "(call "@ + "$read_u8"@ + ")  ;; read"@, "(i64.extend_i32_s) (i64.shl (i64.const 56)) (i64.shr_s (i64.const 56))"@, write(rd)],
        ),
        ends_in(
            microop_text(indent, MicroOp::Lbu { rd, rs1, imm, pc_offset }, pc),
            indent,
            seq![read(rs1), pushes(imm as int), "(i64.add)  ;; vaddr"@, "(call "@ + "$read_u8"@ + ")  ;; read"@, "(i64.extend_i32_u)"@, write(rd)],
        ),
        ends_in(
            microop_text(indent, MicroOp::Lh { rd, rs1, imm, pc_offset }, pc),
            indent,
            seq![read(rs1), pushes(imm as int), "(i64.add)  ;; vaddr"@, "(call "@ + "$read_u16"@ + ")  ;; read"@, "(i64.extend_i32_s) (i64.shl (i64.const 48)) (i64.shr_s (i64.const 48))"@, write(rd)],
        ),
        ends_in(
            microop_text(indent, MicroOp::Lhu { rd, rs1, imm, pc_offset }, pc),
            indent,
            seq![read(rs1), pushes(imm as int), "(i64.add)  ;; vaddr"@, "(call "@ + "$read_u16"@ + ")  ;; read"@, "(i64.extend_i32_u)"@, write(rd)],
        ),
        ends_in(
            microop_text(indent, MicroOp::Lw { rd, rs1, imm, pc_offset }, pc),
            indent,
            seq![read(rs1), pushes(imm as int), "(i64.add)  ;; vaddr"@, "(call "@ + "$read_u32"@ + ")  ;; read"@, "(i64.extend_i32_s)"@, write(rd)],
        ),
        ends_in(
            microop_text(indent, MicroOp::Lwu { rd, rs1, imm, pc_offset }, pc),
            indent,
            seq![read(rs1), pushes(imm as int), "(i64.add)  ;; vaddr"@, "(call "@ + "$read_u32"@ + ")  ;; read"@, "(i64.extend_i32_u)"@, write(rd)],
        ),
        ends_in(
            microop_text(indent, MicroOp::Ld { rd, rs1, imm, pc_offset }, pc),
            indent,
            seq![read(rs1), pushes(imm as int), "(i64.add)  ;; vaddr"@, "(call "@ + "$read_u64"@ + ")  ;; read"@, ""@, write(rd)],
        ),
{
    lemma_kept_load_text(indent, "i8"@, "s"@, "$read_u8"@, "(i64.extend_i32_s) (i64.shl (i64.const 56)) (i64.shr_s (i64.const 56))"@, rd, rs1, imm);
    lemma_kept_load_text(indent, "u8"@, "u"@, "$read_u8"@, "(i64.extend_i32_u)"@, rd, rs1, imm);
    lemma_kept_load_text(indent, "i16"@, "s"@, "$read_u16"@, "(i64.extend_i32_s) (i64.shl (i64.const 48)) (i64.shr_s (i64.const 48))"@, rd, rs1, imm);
    lemma_kept_load_text(indent, "u16"@, "u"@, "$read_u16"@, "(i64.extend_i32_u)"@, rd, rs1, imm);
    lemma_kept_load_text(indent, "i32"@, "s"@, "$read_u32"@, "(i64.extend_i32_s)"@, rd, rs1, imm);
    lemma_kept_load_text(indent, "u32"@, "u"@, "$read_u32"@, "(i64.extend_i32_u)"@, rd, rs1, imm);
    lemma_kept_load_text(indent, "i64"@, ""@, "$read_u64"@, ""@, rd, rs1, imm);
}

proof fn lemma_goal(pc: u64, pc_offset: u16, imm: i64, goal: u64)
    requires
        is_cut(goal, pc + pc_offset + imm),
    ensures
        goal == pc.wrapping_add(pc_offset as u64).wrapping_add(imm as u64),
{
    meaning::lemma_casts(0, imm);
}

/// Branches read two registers in order, test them, and return the target where the test holds.
#[verifier::spinoff_prover]
pub proof fn law_listed_branches(indent: Seq<char>, pc: u64, rs1: u8, rs2: u8, imm: i64, pc_offset: u16, insn_len: u8, goal: u64)
    requires
        is_cut(goal, pc + pc_offset + imm),
    ensures
        ends_in(
            microop_text(indent, MicroOp::Beq { rs1, rs2, imm, pc_offset, insn_len }, pc),
            indent,
            seq![read(rs1), read(rs2), does("i64"@, "eq"@), "(if"@, "  (then"@, "    (i64.const 0x"@ + hex(goal as nat) + ")  ;; target PC"@, "    (return)"@, "  )"@, ")"@],
        ),
        ends_in(
            microop_text(indent, MicroOp::Bne { rs1, rs2, imm, pc_offset, insn_len }, pc),
            indent,
            seq![read(rs1), read(rs2), does("i64"@, "ne"@), "(if"@, "  (then"@, "    (i64.const 0x"@ + hex(goal as nat) + ")  ;; target PC"@, "    (return)"@, "  )"@, ")"@],
        ),
        ends_in(
            microop_text(indent, MicroOp::Blt { rs1, rs2, imm, pc_offset, insn_len }, pc),
            indent,
            seq![read(rs1), read(rs2), does("i64"@, "lt_s"@), "(if"@, "  (then"@, "    (i64.const 0x"@ + hex(goal as nat) + ")  ;; target PC"@, "    (return)"@, "  )"@, ")"@],
        ),
        ends_in(
            microop_text(indent, MicroOp::Bge { rs1, rs2, imm, pc_offset, insn_len }, pc),
            indent,
            seq![read(rs1), read(rs2), does("i64"@, "ge_s"@), "(if"@, "  (then"@, "    (i64.const 0x"@ + hex(goal as nat) + ")  ;; target PC"@, "    (return)"@, "  )"@, ")"@],
        ),
        ends_in(
            microop_text(indent, MicroOp::Bltu { rs1, rs2, imm, pc_offset, insn_len }, pc),
            indent,
            seq![read(rs1), read(rs2), does("i64"@, "lt_u"@), "(if"@, "  (then"@, "    (i64.const 0x"@ + hex(goal as nat) + ")  ;; target PC"@, "    (return)"@, "  )"@, ")"@],
        ),
        ends_in(
            microop_text(indent, MicroOp::Bgeu { rs1, rs2, imm, pc_offset, insn_len }, pc),
            indent,
            seq![read(rs1), read(rs2), does("i64"@, "ge_u"@), "(if"@, "  (then"@, "    (i64.const 0x"@ + hex(goal as nat) + ")  ;; target PC"@, "    (return)"@, "  )"@, ")"@],
        ),
{
    lemma_goal(pc, pc_offset, imm, goal);
    lemma_branch_text(indent, "eq"@, rs1, rs2, imm, pc_offset, pc, goal);
    lemma_branch_text(indent, "ne"@, rs1, rs2, imm, pc_offset, pc, goal);
    lemma_branch_text(indent, "lt_s"@, rs1, rs2, imm, pc_offset, pc, goal);
    lemma_branch_text(indent, "ge_s"@, rs1, rs2, imm, pc_offset, pc, goal);
    lemma_branch_text(indent, "lt_u"@, rs1, rs2, imm, pc_offset, pc, goal);
    lemma_branch_text(indent, "ge_u"@, rs1, rs2, imm, pc_offset, pc, goal);
}

/// Operations on the low word of a register and a constant.
#[verifier::spinoff_prover]
pub proof fn law_listed_word_constant_operations(indent: Seq<char>, pc: u64, rd: u8, rs1: u8, imm: i32, shamt: u8)
    requires
        rd != 0,
    ensures
        ends_in(
            microop_text(indent, MicroOp::Addiw { rd, rs1, imm }, pc),
            indent,
            seq![read(rs1), "(i32.wrap_i64)"@, pushes_word(imm as int), does("i32"@, "add"@), "(i64.extend_i32_s)  ;; sign-extend to 64-bit"@, write(rd)],
        ),
        ends_in(
            microop_text(indent, MicroOp::Slliw { rd, rs1, shamt }, pc),
            indent,
            seq![read(rs1), "(i32.wrap_i64)"@, pushes_word(shamt as int), does("i32"@, "shl"@), "(i64.extend_i32_s)  ;; sign-extend to 64-bit"@, write(rd)],
        ),
        ends_in(
            microop_text(indent, MicroOp::Srliw { rd, rs1, shamt }, pc),
            indent,
            seq![read(rs1), "(i32.wrap_i64)"@, pushes_word(shamt as int), does("i32"@, "shr_u"@), "(i64.extend_i32_s)  ;; sign-extend to 64-bit"@, write(rd)],
        ),
        ends_in(
            microop_text(indent, MicroOp::Sraiw { rd, rs1, shamt }, pc),
            indent,
            seq![read(rs1), "(i32.wrap_i64)"@, pushes_word(shamt as int), does("i32"@, "shr_s"@), "(i64.extend_i32_s)  ;; sign-extend to 64-bit"@, write(rd)],
        ),
{
    lemma_alu_imm_w_text(indent, "add"@, rd, rs1, imm as i64);
    lemma_shift_imm_w_text(indent, "shl"@, rd, rs1, shamt);
    lemma_shift_imm_w_text(indent, "shr_u"@, rd, rs1, shamt);
    lemma_shift_imm_w_text(indent, "shr_s"@, rd, rs1, shamt);
}

#[verifier::rlimit(60)]
proof fn lemma_store_text(indent: Seq<char>, size: Seq<char>, write_func: Seq<char>, wrap: Seq<char>, rs1: u8, rs2: u8, imm: i64)
    ensures
        ends_in(
            store_text(indent, size, write_func, wrap, rs1, rs2, imm),
            indent,
            seq![read(rs1) + " (base)"@, pushes(imm as int), "(i64.add)  ;; vaddr"@, read(rs2) + " (value)"@ + wrap, "(call "@ + write_func + ")  ;; write"@, "(drop)  ;; ignore result"@],
        ),
{
    let text = indent + ";; mem[x"@ + dec(rs1 as nat) + " + "@ + dec_signed(imm as int) + "] = x"@ + dec(rs2 as nat) + "["@ + size + ":0]\n"@;
    lemma_none(text, indent);
    let lines: Seq<Seq<char>> = Seq::empty();
    reveal_strlit(" (base)");
    reveal_strlit(" (base)\n");
    assert(" (base)\n"@ =~= " (base)"@ + seq!['\n']);
    assert(text + indent + "(i64.load (i32.add (local.get $state_ptr) (i32.const "@ + dec(rs1 as nat * 8) + ")))  ;; load x"@ + dec(rs1 as nat) + " (base)\n"@ =~= text + (indent + (read(rs1) + " (base)"@) + seq!['\n']));
    lemma_one_more(text, indent, lines, read(rs1) + " (base)"@);
    let text = text + (indent + (read(rs1) + " (base)"@) + seq!['\n']);
    let lines = lines.push(read(rs1) + " (base)"@);
    lemma_lines(indent, 0, imm as int, Seq::empty(), Seq::empty(), Seq::empty());
    lemma_one_more(text, indent, lines, pushes(imm as int));
    let text = text + (indent + pushes(imm as int) + seq!['\n']);
    let lines = lines.push(pushes(imm as int));
    lemma_lines(indent, 0, 0, Seq::empty(), Seq::empty(), "(i64.add)  ;; vaddr"@);
    lemma_one_more(text, indent, lines, "(i64.add)  ;; vaddr"@);
    let text = text + (indent + "(i64.add)  ;; vaddr"@ + seq!['\n']);
    let lines = lines.push("(i64.add)  ;; vaddr"@);
    reveal_strlit("");
    reveal_strlit("\n");
    assert("\n"@ =~= ""@ + seq!['\n']);
    assert(text + indent + "(i64.load (i32.add (local.get $state_ptr) (i32.const "@ + dec(rs2 as nat * 8) + ")))  ;; load x"@ + dec(rs2 as nat) + " (value)"@ + wrap + "\n"@ =~= text + (indent + (read(rs2) + " (value)"@ + wrap) + seq!['\n']));
    lemma_one_more(text, indent, lines, read(rs2) + " (value)"@ + wrap);
    let text = text + (indent + (read(rs2) + " (value)"@ + wrap) + seq!['\n']);
    let lines = lines.push(read(rs2) + " (value)"@ + wrap);
    reveal_strlit(")  ;; write");
    reveal_strlit(")  ;; write\n");
    assert(")  ;; write\n"@ =~= ")  ;; write"@ + seq!['\n']);
    assert(text + indent + "(call "@ + write_func + ")  ;; write\n"@ =~= text + (indent + ("(call "@ + write_func + ")  ;; write"@) + seq!['\n']));
    lemma_one_more(text, indent, lines, "(call "@ + write_func + ")  ;; write"@);
    let text = text + (indent + ("(call "@ + write_func + ")  ;; write"@) + seq!['\n']);
    let lines = lines.push("(call "@ + write_func + ")  ;; write"@);
    lemma_lines(indent, 0, 0, Seq::empty(), Seq::empty(), "(drop)  ;; ignore result"@);
    lemma_one_more(text, indent, lines, "(drop)  ;; ignore result"@);
    let text = text + (indent + "(drop)  ;; ignore result"@ + seq!['\n']);
    let lines = lines.push("(drop)  ;; ignore result"@);
    assert(lines =~= seq![read(rs1) + " (base)"@, pushes(imm as int), "(i64.add)  ;; vaddr"@, read(rs2) + " (value)"@ + wrap, "(call "@ + write_func + ")  ;; write"@, "(drop)  ;; ignore result"@]);
}

/// Stores add a constant to a register, read the value from another, and call the service of
/// their width.
#[verifier::spinoff_prover]
pub proof fn law_listed_stores(indent: Seq<char>, pc: u64, rs1: u8, rs2: u8, imm: i64, pc_offset: u16)
    ensures
        ends_in(
            microop_text(indent, MicroOp::Sb { rs1, rs2, imm, pc_offset }, pc),
            indent,
            seq![
                read(rs1) + " (base)"@,
                pushes(imm as int),
                "(i64.add)  ;; vaddr"@,
                read(rs2) + " (value)"@ + "\n        (i32.wrap_i64)  ;; truncate value"@,
                "(call "@ + "$write_u8"@ + ")  ;; write"@,
                "(drop)  ;; ignore result"@,
            ],
        ),
        ends_in(
            microop_text(indent, MicroOp::Sh { rs1, rs2, imm, pc_offset }, pc),
            indent,
            seq![
                read(rs1) + " (base)"@,
                pushes(imm as int),
                "(i64.add)  ;; vaddr"@,
                read(rs2) + " (value)"@ + "\n        (i32.wrap_i64)  ;; truncate value"@,
                "(call "@ + "$write_u16"@ + ")  ;; write"@,
                "(drop)  ;; ignore result"@,
            ],
        ),
        ends_in(
            microop_text(indent, MicroOp::Sw { rs1, rs2, imm, pc_offset }, pc),
            indent,
            seq![
                read(rs1) + " (base)"@,
                pushes(imm as int),
                "(i64.add)  ;; vaddr"@,
                read(rs2) + " (value)"@ + "\n        (i32.wrap_i64)  ;; truncate value"@,
                "(call "@ + "$write_u32"@ + ")  ;; write"@,
                "(drop)  ;; ignore result"@,
            ],
        ),
        ends_in(
            microop_text(indent, MicroOp::Sd { rs1, rs2, imm, pc_offset }, pc),
            indent,
            seq![
                read(rs1) + " (base)"@,
                pushes(imm as int),
                "(i64.add)  ;; vaddr"@,
                read(rs2) + " (value)"@ + ""@,
                "(call "@ + "$write_u64"@ + ")  ;; write"@,
                "(drop)  ;; ignore result"@,
            ],
        ),
{
    lemma_store_text(indent, "8"@, "$write_u8"@, "\n        (i32.wrap_i64)  ;; truncate value"@, rs1, rs2, imm);
    lemma_store_text(indent, "16"@, "$write_u16"@, "\n        (i32.wrap_i64)  ;; truncate value"@, rs1, rs2, imm);
    lemma_store_text(indent, "32"@, "$write_u32"@, "\n        (i32.wrap_i64)  ;; truncate value"@, rs1, rs2, imm);
    lemma_store_text(indent, "64"@, "$write_u64"@, ""@, rs1, rs2, imm);
}

/// Computations for register 0 are listed as nothing to do.
#[verifier::spinoff_prover]
pub proof fn law_listed_for_register_zero(
    indent: Seq<char>,
    pc: u64,
    rs1: u8,
    rs2: u8,
    imm: i64,
    shamt: u8,
)
    ensures
        ({
            let nothing = indent + "(nop)  ;; write to x0 ignored\n"@;
            &&& microop_text(indent, MicroOp::Add { rd: 0, rs1, rs2 }, pc) == nothing
            &&& microop_text(indent, MicroOp::Sub { rd: 0, rs1, rs2 }, pc) == nothing
            &&& microop_text(indent, MicroOp::Xor { rd: 0, rs1, rs2 }, pc) == nothing
            &&& microop_text(indent, MicroOp::Or { rd: 0, rs1, rs2 }, pc) == nothing
            &&& microop_text(indent, MicroOp::And { rd: 0, rs1, rs2 }, pc) == nothing
            &&& microop_text(indent, MicroOp::Mul { rd: 0, rs1, rs2 }, pc) == nothing
            &&& microop_text(indent, MicroOp::Sll { rd: 0, rs1, rs2 }, pc) == nothing
            &&& microop_text(indent, MicroOp::Srl { rd: 0, rs1, rs2 }, pc) == nothing
            &&& microop_text(indent, MicroOp::Sra { rd: 0, rs1, rs2 }, pc) == nothing
            &&& microop_text(indent, MicroOp::Slt { rd: 0, rs1, rs2 }, pc) == nothing
            &&& microop_text(indent, MicroOp::Sltu { rd: 0, rs1, rs2 }, pc) == nothing
            &&& microop_text(indent, MicroOp::Addw { rd: 0, rs1, rs2 }, pc) == nothing
            &&& microop_text(indent, MicroOp::Subw { rd: 0, rs1, rs2 }, pc) == nothing
            &&& microop_text(indent, MicroOp::Mulw { rd: 0, rs1, rs2 }, pc) == nothing
            &&& microop_text(indent, MicroOp::Sllw { rd: 0, rs1, rs2 }, pc) == nothing
            &&& microop_text(indent, MicroOp::Srlw { rd: 0, rs1, rs2 }, pc) == nothing
            &&& microop_text(indent, MicroOp::Sraw { rd: 0, rs1, rs2 }, pc) == nothing
            &&& microop_text(indent, MicroOp::Div { rd: 0, rs1, rs2 }, pc) == nothing
            &&& microop_text(indent, MicroOp::Divu { rd: 0, rs1, rs2 }, pc) == nothing
            &&& microop_text(indent, MicroOp::Rem { rd: 0, rs1, rs2 }, pc) == nothing
            &&& microop_text(indent, MicroOp::Remu { rd: 0, rs1, rs2 }, pc) == nothing
            &&& microop_text(indent, MicroOp::Divw { rd: 0, rs1, rs2 }, pc) == nothing
            &&& microop_text(indent, MicroOp::Divuw { rd: 0, rs1, rs2 }, pc) == nothing
            &&& microop_text(indent, MicroOp::Remw { rd: 0, rs1, rs2 }, pc) == nothing
            &&& microop_text(indent, MicroOp::Remuw { rd: 0, rs1, rs2 }, pc) == nothing
            &&& microop_text(indent, MicroOp::Addi { rd: 0, rs1, imm }, pc) == nothing
            &&& microop_text(indent, MicroOp::Xori { rd: 0, rs1, imm }, pc) == nothing
            &&& microop_text(indent, MicroOp::Ori { rd: 0, rs1, imm }, pc) == nothing
            &&& microop_text(indent, MicroOp::Andi { rd: 0, rs1, imm }, pc) == nothing
            &&& microop_text(indent, MicroOp::Slti { rd: 0, rs1, imm }, pc) == nothing
            &&& microop_text(indent, MicroOp::Sltiu { rd: 0, rs1, imm }, pc) == nothing
            &&& microop_text(indent, MicroOp::Slli { rd: 0, rs1, shamt }, pc) == nothing
            &&& microop_text(indent, MicroOp::Srli { rd: 0, rs1, shamt }, pc) == nothing
            &&& microop_text(indent, MicroOp::Srai { rd: 0, rs1, shamt }, pc) == nothing
            &&& microop_text(indent, MicroOp::Slliw { rd: 0, rs1, shamt }, pc) == nothing
            &&& microop_text(indent, MicroOp::Srliw { rd: 0, rs1, shamt }, pc) == nothing
            &&& microop_text(indent, MicroOp::Sraiw { rd: 0, rs1, shamt }, pc) == nothing
        }),
{
}

/// Branches and jumps have the length that they tell, and the others four bytes.
pub proof fn law_lengths(
    op: MicroOp,
    rs1: u8,
    rs2: u8,
    imm: i64,
    pc_offset: u16,
    insn_len: u8,
)
    ensures
        estimated_length(MicroOp::Beq { rs1, rs2, imm, pc_offset, insn_len }) == insn_len,
        estimated_length(MicroOp::Bne { rs1, rs2, imm, pc_offset, insn_len }) == insn_len,
        estimated_length(MicroOp::Blt { rs1, rs2, imm, pc_offset, insn_len }) == insn_len,
        estimated_length(MicroOp::Bge { rs1, rs2, imm, pc_offset, insn_len }) == insn_len,
        estimated_length(MicroOp::Bltu { rs1, rs2, imm, pc_offset, insn_len }) == insn_len,
        estimated_length(MicroOp::Bgeu { rs1, rs2, imm, pc_offset, insn_len }) == insn_len,
        estimated_length(MicroOp::Jal { rd: rs1, imm, pc_offset, insn_len }) == insn_len,
        estimated_length(MicroOp::Jalr { rd: rs1, rs1: rs2, imm, pc_offset, insn_len }) == insn_len,
        !(op is Beq || op is Bne || op is Blt || op is Bge || op is Bltu || op is Bgeu || op is Jal
            || op is Jalr) ==> estimated_length(op) == 4,
{
}

/// A listing shows one instruction after another, each at the address behind the one before it.
pub proof fn law_listings_go_on(start_pc: u64, code: Seq<MicroOp>, op: MicroOp, config: DisasmConfig)
    ensures
        pc_after(start_pc, Seq::<MicroOp>::empty()) == start_pc,
        is_cut(
            pc_after(start_pc, code.push(op)),
            pc_after(start_pc, code) + estimated_length(op),
        ),
        code_text(start_pc, code.push(op), config) == code_text(start_pc, code, config)
            + instruction_text(start_pc, pc_after(start_pc, code), op, config),
{
    assert(code.push(op).drop_last() =~= code);
}

proof fn lemma_lui_text(indent: Seq<char>, rd: u8, imm: i64)
    requires
        rd != 0,
    ensures
        ends_in(
            lui_text(indent, rd, imm),
            indent,
            seq![pushes(imm as int), write(rd)],
        ),
{
    let text = indent + ";; x"@ + dec(rd as nat) + " = 0x"@ + hex(imm as u64 as nat) + "\n"@;
    lemma_none(text, indent);
    let lines: Seq<Seq<char>> = Seq::empty();
    lemma_lines(indent, 0, imm as int, Seq::empty(), Seq::empty(), Seq::empty());
    lemma_one_more(text, indent, lines, pushes(imm as int));
    let text = text + (indent + pushes(imm as int) + seq!['\n']);
    let lines = lines.push(pushes(imm as int));
    lemma_lines(indent, rd, 0, Seq::empty(), Seq::empty(), Seq::empty());
    lemma_one_more(text, indent, lines, write(rd));
    let text = text + (indent + write(rd) + seq!['\n']);
    let lines = lines.push(write(rd));
    assert(lines =~= seq![pushes(imm as int), write(rd)]);
}

proof fn lemma_auipc_text(indent: Seq<char>, rd: u8, imm: i64, pc_offset: u16, pc: u64, here: u64, goal: u64)
    requires
        rd != 0,
        here == pc.wrapping_add(pc_offset as u64),
        goal == here.wrapping_add(imm as u64),
    ensures
        ends_in(
            auipc_text(indent, rd, imm, pc_offset, pc),
            indent,
            seq![pushes(goal as i64 as int), write(rd)],
        ),
{
    let text = indent + ";; x"@ + dec(rd as nat) + " = PC(0x"@ + hex(here as nat) + ") + 0x"@ + hex(imm as u64 as nat) + " = 0x"@ + hex(goal as nat) + "\n"@;
    lemma_none(text, indent);
    let lines: Seq<Seq<char>> = Seq::empty();
    lemma_lines(indent, 0, goal as i64 as int, Seq::empty(), Seq::empty(), Seq::empty());
    lemma_one_more(text, indent, lines, pushes(goal as i64 as int));
    let text = text + (indent + pushes(goal as i64 as int) + seq!['\n']);
    let lines = lines.push(pushes(goal as i64 as int));
    lemma_lines(indent, rd, 0, Seq::empty(), Seq::empty(), Seq::empty());
    lemma_one_more(text, indent, lines, write(rd));
    let text = text + (indent + write(rd) + seq!['\n']);
    let lines = lines.push(write(rd));
    assert(lines =~= seq![pushes(goal as i64 as int), write(rd)]);
}

proof fn lemma_system_text(indent: Seq<char>, name: Seq<char>, pc_offset: u16, pc: u64, here: u64)
    requires
        here == pc.wrapping_add(pc_offset as u64),
    ensures
        ends_in(
            system_text(indent, name, pc_offset, pc),
            indent,
            seq!["(i64.const 0x"@ + hex(here as nat) + ")  ;; PC of this instruction"@, "(return)"@],
        ),
{
    let text = indent + ";; "@ + name + " @ 0x"@ + hex(here as nat) + " (exit to interpreter)\n"@;
    lemma_none(text, indent);
    let lines: Seq<Seq<char>> = Seq::empty();
    reveal_strlit(")  ;; PC of this instruction");
    reveal_strlit(")  ;; PC of this instruction\n");
    assert(")  ;; PC of this instruction\n"@ =~= ")  ;; PC of this instruction"@ + seq!['\n']);
    assert(text + indent + "(i64.const 0x"@ + hex(here as nat) + ")  ;; PC of this instruction\n"@ =~= text + (indent + ("(i64.const 0x"@ + hex(here as nat) + ")  ;; PC of this instruction"@) + seq!['\n']));
    lemma_one_more(text, indent, lines, "(i64.const 0x"@ + hex(here as nat) + ")  ;; PC of this instruction"@);
    let text = text + (indent + ("(i64.const 0x"@ + hex(here as nat) + ")  ;; PC of this instruction"@) + seq!['\n']);
    let lines = lines.push("(i64.const 0x"@ + hex(here as nat) + ")  ;; PC of this instruction"@);
    lemma_lines(indent, 0, 0, Seq::empty(), Seq::empty(), "(return)"@);
    lemma_one_more(text, indent, lines, "(return)"@);
    let text = text + (indent + "(return)"@ + seq!['\n']);
    let lines = lines.push("(return)"@);
    assert(lines =~= seq!["(i64.const 0x"@ + hex(here as nat) + ")  ;; PC of this instruction"@, "(return)"@]);
}

proof fn lemma_csr_text(indent: Seq<char>, name: Seq<char>, rd: u8, rs1_or_zimm: u16, csr: u16, pc_offset: u16, pc: u64, here: u64)
    requires
        here == pc.wrapping_add(pc_offset as u64),
    ensures
        ends_in(
            csr_text(indent, name, rd, rs1_or_zimm, csr, pc_offset, pc),
            indent,
            seq![";; CSR operations require full CPU context"@, "(i64.const 0x"@ + hex(here as nat) + ")  ;; PC of this instruction"@, "(return)"@],
        ),
{
    let text = indent + ";; "@ + name + " x"@ + dec(rd as nat) + ", 0x"@ + hex_pad(csr as nat, 3) + ", "@ + dec(rs1_or_zimm as nat) + " @ 0x"@ + hex(here as nat) + " (exit to interpreter)\n"@;
    lemma_none(text, indent);
    let lines: Seq<Seq<char>> = Seq::empty();
    lemma_lines(indent, 0, 0, Seq::empty(), Seq::empty(), ";; CSR operations require full CPU context"@);
    lemma_one_more(text, indent, lines, ";; CSR operations require full CPU context"@);
    let text = text + (indent + ";; CSR operations require full CPU context"@ + seq!['\n']);
    let lines = lines.push(";; CSR operations require full CPU context"@);
    reveal_strlit(")  ;; PC of this instruction");
    reveal_strlit(")  ;; PC of this instruction\n");
    assert(")  ;; PC of this instruction\n"@ =~= ")  ;; PC of this instruction"@ + seq!['\n']);
    assert(text + indent + "(i64.const 0x"@ + hex(here as nat) + ")  ;; PC of this instruction\n"@ =~= text + (indent + ("(i64.const 0x"@ + hex(here as nat) + ")  ;; PC of this instruction"@) + seq!['\n']));
    lemma_one_more(text, indent, lines, "(i64.const 0x"@ + hex(here as nat) + ")  ;; PC of this instruction"@);
    let text = text + (indent + ("(i64.const 0x"@ + hex(here as nat) + ")  ;; PC of this instruction"@) + seq!['\n']);
    let lines = lines.push("(i64.const 0x"@ + hex(here as nat) + ")  ;; PC of this instruction"@);
    lemma_lines(indent, 0, 0, Seq::empty(), Seq::empty(), "(return)"@);
    lemma_one_more(text, indent, lines, "(return)"@);
    let text = text + (indent + "(return)"@ + seq!['\n']);
    let lines = lines.push("(return)"@);
    assert(lines =~= seq![";; CSR operations require full CPU context"@, "(i64.const 0x"@ + hex(here as nat) + ")  ;; PC of this instruction"@, "(return)"@]);
}

proof fn lemma_amo_text(indent: Seq<char>, op: Seq<char>, rd: u8, rs1: u8, rs2: u8, is_word: bool, pc_offset: u16, pc: u64, here: u64)
    requires
        here == pc.wrapping_add(pc_offset as u64),
    ensures
        ends_in(
            amo_text(indent, op, rd, rs1, rs2, is_word, pc_offset, pc),
            indent,
            seq!["(i64.const 0x"@ + hex(here as nat) + ")"@, "(return)"@],
        ),
{
    let text = indent + ";; amo"@ + op + width_suffix(is_word) + " x"@ + dec(rd as nat) + ", x"@ + dec(rs2 as nat) + ", (x"@ + dec(rs1 as nat) + ") @ 0x"@ + hex(here as nat) + " (exit to interpreter for atomics)\n"@;
    lemma_none(text, indent);
    let lines: Seq<Seq<char>> = Seq::empty();
    reveal_strlit(")");
    reveal_strlit(")\n");
    assert(")\n"@ =~= ")"@ + seq!['\n']);
    assert(text + indent + "(i64.const 0x"@ + hex(here as nat) + ")\n"@ =~= text + (indent + ("(i64.const 0x"@ + hex(here as nat) + ")"@) + seq!['\n']));
    lemma_one_more(text, indent, lines, "(i64.const 0x"@ + hex(here as nat) + ")"@);
    let text = text + (indent + ("(i64.const 0x"@ + hex(here as nat) + ")"@) + seq!['\n']);
    let lines = lines.push("(i64.const 0x"@ + hex(here as nat) + ")"@);
    lemma_lines(indent, 0, 0, Seq::empty(), Seq::empty(), "(return)"@);
    lemma_one_more(text, indent, lines, "(return)"@);
    let text = text + (indent + "(return)"@ + seq!['\n']);
    let lines = lines.push("(return)"@);
    assert(lines =~= seq!["(i64.const 0x"@ + hex(here as nat) + ")"@, "(return)"@]);
}

proof fn lemma_lr_text(indent: Seq<char>, rd: u8, rs1: u8, pc_offset: u16, pc: u64, is_word: bool, here: u64)
    requires
        here == pc.wrapping_add(pc_offset as u64),
    ensures
        ends_in(
            lr_text(indent, rd, rs1, pc_offset, pc, is_word),
            indent,
            seq!["(i64.const 0x"@ + hex(here as nat) + ")"@, "(return)"@],
        ),
{
    let text = indent + ";; lr"@ + width_suffix(is_word) + " x"@ + dec(rd as nat) + ", (x"@ + dec(rs1 as nat) + ") @ 0x"@ + hex(here as nat) + " (exit to interpreter for atomics)\n"@;
    lemma_none(text, indent);
    let lines: Seq<Seq<char>> = Seq::empty();
    reveal_strlit(")");
    reveal_strlit(")\n");
    assert(")\n"@ =~= ")"@ + seq!['\n']);
    assert(text + indent + "(i64.const 0x"@ + hex(here as nat) + ")\n"@ =~= text + (indent + ("(i64.const 0x"@ + hex(here as nat) + ")"@) + seq!['\n']));
    lemma_one_more(text, indent, lines, "(i64.const 0x"@ + hex(here as nat) + ")"@);
    let text = text + (indent + ("(i64.const 0x"@ + hex(here as nat) + ")"@) + seq!['\n']);
    let lines = lines.push("(i64.const 0x"@ + hex(here as nat) + ")"@);
    lemma_lines(indent, 0, 0, Seq::empty(), Seq::empty(), "(return)"@);
    lemma_one_more(text, indent, lines, "(return)"@);
    let text = text + (indent + "(return)"@ + seq!['\n']);
    let lines = lines.push("(return)"@);
    assert(lines =~= seq!["(i64.const 0x"@ + hex(here as nat) + ")"@, "(return)"@]);
}

proof fn lemma_sc_text(indent: Seq<char>, rd: u8, rs1: u8, rs2: u8, pc_offset: u16, pc: u64, is_word: bool, here: u64)
    requires
        here == pc.wrapping_add(pc_offset as u64),
    ensures
        ends_in(
            sc_text(indent, rd, rs1, rs2, pc_offset, pc, is_word),
            indent,
            seq!["(i64.const 0x"@ + hex(here as nat) + ")"@, "(return)"@],
        ),
{
    let text = indent + ";; sc"@ + width_suffix(is_word) + " x"@ + dec(rd as nat) + ", x"@ + dec(rs2 as nat) + ", (x"@ + dec(rs1 as nat) + ") @ 0x"@ + hex(here as nat) + " (exit to interpreter for atomics)\n"@;
    lemma_none(text, indent);
    let lines: Seq<Seq<char>> = Seq::empty();
    reveal_strlit(")");
    reveal_strlit(")\n");
    assert(")\n"@ =~= ")"@ + seq!['\n']);
    assert(text + indent + "(i64.const 0x"@ + hex(here as nat) + ")\n"@ =~= text + (indent + ("(i64.const 0x"@ + hex(here as nat) + ")"@) + seq!['\n']));
    lemma_one_more(text, indent, lines, "(i64.const 0x"@ + hex(here as nat) + ")"@);
    let text = text + (indent + ("(i64.const 0x"@ + hex(here as nat) + ")"@) + seq!['\n']);
    let lines = lines.push("(i64.const 0x"@ + hex(here as nat) + ")"@);
    lemma_lines(indent, 0, 0, Seq::empty(), Seq::empty(), "(return)"@);
    lemma_one_more(text, indent, lines, "(return)"@);
    let text = text + (indent + "(return)"@ + seq!['\n']);
    let lines = lines.push("(return)"@);
    assert(lines =~= seq!["(i64.const 0x"@ + hex(here as nat) + ")"@, "(return)"@]);
}

proof fn lemma_jal_text(indent: Seq<char>, rd: u8, imm: i64, pc_offset: u16, insn_len: u8, pc: u64, here: u64, behind: u64, goal: u64)
    requires
        here == pc.wrapping_add(pc_offset as u64),
        behind == here.wrapping_add(insn_len as u64),
        goal == here.wrapping_add(imm as u64),
    ensures
        ends_in(
            jal_text(indent, rd, imm, pc_offset, insn_len, pc),
            indent,
            seq!["(i64.const 0x"@ + hex(goal as nat) + ")  ;; target PC"@, "(return)"@],
        ),
{
    let text = indent + ";; x"@ + dec(rd as nat) + " = 0x"@ + hex(behind as nat) + "; jump to 0x"@ + hex(goal as nat) + "\n"@ + link_lines(indent, rd, behind);
    lemma_none(text, indent);
    let lines: Seq<Seq<char>> = Seq::empty();
    reveal_strlit(")  ;; target PC");
    reveal_strlit(")  ;; target PC\n");
    assert(")  ;; target PC\n"@ =~= ")  ;; target PC"@ + seq!['\n']);
    assert(text + indent + "(i64.const 0x"@ + hex(goal as nat) + ")  ;; target PC\n"@ =~= text + (indent + ("(i64.const 0x"@ + hex(goal as nat) + ")  ;; target PC"@) + seq!['\n']));
    lemma_one_more(text, indent, lines, "(i64.const 0x"@ + hex(goal as nat) + ")  ;; target PC"@);
    let text = text + (indent + ("(i64.const 0x"@ + hex(goal as nat) + ")  ;; target PC"@) + seq!['\n']);
    let lines = lines.push("(i64.const 0x"@ + hex(goal as nat) + ")  ;; target PC"@);
    lemma_lines(indent, 0, 0, Seq::empty(), Seq::empty(), "(return)"@);
    lemma_one_more(text, indent, lines, "(return)"@);
    let text = text + (indent + "(return)"@ + seq!['\n']);
    let lines = lines.push("(return)"@);
    assert(lines =~= seq!["(i64.const 0x"@ + hex(goal as nat) + ")  ;; target PC"@, "(return)"@]);
}

proof fn lemma_jalr_text(indent: Seq<char>, rd: u8, rs1: u8, imm: i64, pc_offset: u16, insn_len: u8, pc: u64, here: u64, behind: u64)
    requires
        here == pc.wrapping_add(pc_offset as u64),
        behind == here.wrapping_add(insn_len as u64),
    ensures
        ends_in(
            jalr_text(indent, rd, rs1, imm, pc_offset, insn_len, pc),
            indent,
            seq![read(rs1), pushes(imm as int), "(i64.add)"@, "(i64.const -2)  ;; mask off low bit"@, "(i64.and)"@, "(return)  ;; exit with computed target"@],
        ),
{
    let text = indent + ";; x"@ + dec(rd as nat) + " = 0x"@ + hex(behind as nat) + "; jump to (x"@ + dec(rs1 as nat) + " + "@ + dec_signed(imm as int) + ") & ~1\n"@ + link_lines(indent, rd, behind);
    lemma_none(text, indent);
    let lines: Seq<Seq<char>> = Seq::empty();
    lemma_lines(indent, rs1, 0, Seq::empty(), Seq::empty(), Seq::empty());
    lemma_one_more(text, indent, lines, read(rs1));
    let text = text + (indent + read(rs1) + seq!['\n']);
    let lines = lines.push(read(rs1));
    lemma_lines(indent, 0, imm as int, Seq::empty(), Seq::empty(), Seq::empty());
    lemma_one_more(text, indent, lines, pushes(imm as int));
    let text = text + (indent + pushes(imm as int) + seq!['\n']);
    let lines = lines.push(pushes(imm as int));
    lemma_lines(indent, 0, 0, Seq::empty(), Seq::empty(), "(i64.add)"@);
    lemma_one_more(text, indent, lines, "(i64.add)"@);
    let text = text + (indent + "(i64.add)"@ + seq!['\n']);
    let lines = lines.push("(i64.add)"@);
    lemma_lines(indent, 0, 0, Seq::empty(), Seq::empty(), "(i64.const -2)  ;; mask off low bit"@);
    lemma_one_more(text, indent, lines, "(i64.const -2)  ;; mask off low bit"@);
    let text = text + (indent + "(i64.const -2)  ;; mask off low bit"@ + seq!['\n']);
    let lines = lines.push("(i64.const -2)  ;; mask off low bit"@);
    lemma_lines(indent, 0, 0, Seq::empty(), Seq::empty(), "(i64.and)"@);
    lemma_one_more(text, indent, lines, "(i64.and)"@);
    let text = text + (indent + "(i64.and)"@ + seq!['\n']);
    let lines = lines.push("(i64.and)"@);
    lemma_lines(indent, 0, 0, Seq::empty(), Seq::empty(), "(return)  ;; exit with computed target"@);
    lemma_one_more(text, indent, lines, "(return)  ;; exit with computed target"@);
    let text = text + (indent + "(return)  ;; exit with computed target"@ + seq!['\n']);
    let lines = lines.push("(return)  ;; exit with computed target"@);
    assert(lines =~= seq![read(rs1), pushes(imm as int), "(i64.add)"@, "(i64.const -2)  ;; mask off low bit"@, "(i64.and)"@, "(return)  ;; exit with computed target"@]);
}

proof fn lemma_here(pc: u64, pc_offset: u16, here: u64)
    requires
        is_cut(here, pc + pc_offset),
    ensures
        here == pc.wrapping_add(pc_offset as u64),
{
}

/// Constants are written as they are, or behind the address of the instruction.
pub proof fn law_listed_constants(
    indent: Seq<char>,
    pc: u64,
    rd: u8,
    imm: i64,
    pc_offset: u16,
    goal: u64,
    number: i64,
)
    requires
        rd != 0,
        is_cut(goal, pc + pc_offset + imm),
        meaning::signed(goal) == number,
    ensures
        ends_in(
            microop_text(indent, MicroOp::Lui { rd, imm }, pc),
            indent,
            seq![pushes(imm as int), write(rd)],
        ),
        ends_in(
            microop_text(indent, MicroOp::Auipc { rd, imm, pc_offset }, pc),
            indent,
            seq![pushes(number as int), write(rd)],
        ),
{
    lemma_lui_text(indent, rd, imm);
    lemma_goal(pc, pc_offset, imm, goal);
    meaning::lemma_casts(goal, 0);
    lemma_auipc_text(indent, rd, imm, pc_offset, pc, pc.wrapping_add(pc_offset as u64), goal);
}

/// Instructions on the hart itself, on control registers and atomic ones return their own
/// address, where the interpreter goes on.
#[verifier::spinoff_prover]
pub proof fn law_listed_exits(
    indent: Seq<char>,
    pc: u64,
    rd: u8,
    rs1: u8,
    rs2: u8,
    csr: u16,
    is_word: bool,
    pc_offset: u16,
    here: u64,
)
    requires
        is_cut(here, pc + pc_offset),
    ensures
        ends_in(
            microop_text(indent, MicroOp::Ecall { pc_offset }, pc),
            indent,
            seq!["(i64.const 0x"@ + hex(here as nat) + ")  ;; PC of this instruction"@, "(return)"@],
        ),
        ends_in(
            microop_text(indent, MicroOp::Ebreak { pc_offset }, pc),
            indent,
            seq!["(i64.const 0x"@ + hex(here as nat) + ")  ;; PC of this instruction"@, "(return)"@],
        ),
        ends_in(
            microop_text(indent, MicroOp::Mret { pc_offset }, pc),
            indent,
            seq!["(i64.const 0x"@ + hex(here as nat) + ")  ;; PC of this instruction"@, "(return)"@],
        ),
        ends_in(
            microop_text(indent, MicroOp::Sret { pc_offset }, pc),
            indent,
            seq!["(i64.const 0x"@ + hex(here as nat) + ")  ;; PC of this instruction"@, "(return)"@],
        ),
        ends_in(
            microop_text(indent, MicroOp::Wfi { pc_offset }, pc),
            indent,
            seq!["(i64.const 0x"@ + hex(here as nat) + ")  ;; PC of this instruction"@, "(return)"@],
        ),
        ends_in(
            microop_text(indent, MicroOp::SfenceVma { pc_offset }, pc),
            indent,
            seq!["(i64.const 0x"@ + hex(here as nat) + ")  ;; PC of this instruction"@, "(return)"@],
        ),
        ends_in(
            microop_text(indent, MicroOp::Csrrw { rd, rs1, csr, pc_offset }, pc),
            indent,
            seq![";; CSR operations require full CPU context"@, "(i64.const 0x"@ + hex(here as nat) + ")  ;; PC of this instruction"@, "(return)"@],
        ),
        ends_in(
            microop_text(indent, MicroOp::Csrrs { rd, rs1, csr, pc_offset }, pc),
            indent,
            seq![";; CSR operations require full CPU context"@, "(i64.const 0x"@ + hex(here as nat) + ")  ;; PC of this instruction"@, "(return)"@],
        ),
        ends_in(
            microop_text(indent, MicroOp::Csrrc { rd, rs1, csr, pc_offset }, pc),
            indent,
            seq![";; CSR operations require full CPU context"@, "(i64.const 0x"@ + hex(here as nat) + ")  ;; PC of this instruction"@, "(return)"@],
        ),
        ends_in(
            microop_text(indent, MicroOp::Csrrwi { rd, zimm: rs1, csr, pc_offset }, pc),
            indent,
            seq![";; CSR operations require full CPU context"@, "(i64.const 0x"@ + hex(here as nat) + ")  ;; PC of this instruction"@, "(return)"@],
        ),
        ends_in(
            microop_text(indent, MicroOp::Csrrsi { rd, zimm: rs1, csr, pc_offset }, pc),
            indent,
            seq![";; CSR operations require full CPU context"@, "(i64.const 0x"@ + hex(here as nat) + ")  ;; PC of this instruction"@, "(return)"@],
        ),
        ends_in(
            microop_text(indent, MicroOp::Csrrci { rd, zimm: rs1, csr, pc_offset }, pc),
            indent,
            seq![";; CSR operations require full CPU context"@, "(i64.const 0x"@ + hex(here as nat) + ")  ;; PC of this instruction"@, "(return)"@],
        ),
        ends_in(
            microop_text(indent, MicroOp::LrW { rd, rs1, pc_offset }, pc),
            indent,
            seq!["(i64.const 0x"@ + hex(here as nat) + ")"@, "(return)"@],
        ),
        ends_in(
            microop_text(indent, MicroOp::LrD { rd, rs1, pc_offset }, pc),
            indent,
            seq!["(i64.const 0x"@ + hex(here as nat) + ")"@, "(return)"@],
        ),
        ends_in(
            microop_text(indent, MicroOp::ScW { rd, rs1, rs2, pc_offset }, pc),
            indent,
            seq!["(i64.const 0x"@ + hex(here as nat) + ")"@, "(return)"@],
        ),
        ends_in(
            microop_text(indent, MicroOp::ScD { rd, rs1, rs2, pc_offset }, pc),
            indent,
            seq!["(i64.const 0x"@ + hex(here as nat) + ")"@, "(return)"@],
        ),
        ends_in(
            microop_text(indent, MicroOp::AmoSwap { rd, rs1, rs2, is_word, pc_offset }, pc),
            indent,
            seq!["(i64.const 0x"@ + hex(here as nat) + ")"@, "(return)"@],
        ),
        ends_in(
            microop_text(indent, MicroOp::AmoAdd { rd, rs1, rs2, is_word, pc_offset }, pc),
            indent,
            seq!["(i64.const 0x"@ + hex(here as nat) + ")"@, "(return)"@],
        ),
        ends_in(
            microop_text(indent, MicroOp::AmoXor { rd, rs1, rs2, is_word, pc_offset }, pc),
            indent,
            seq!["(i64.const 0x"@ + hex(here as nat) + ")"@, "(return)"@],
        ),
        ends_in(
            microop_text(indent, MicroOp::AmoAnd { rd, rs1, rs2, is_word, pc_offset }, pc),
            indent,
            seq!["(i64.const 0x"@ + hex(here as nat) + ")"@, "(return)"@],
        ),
        ends_in(
            microop_text(indent, MicroOp::AmoOr { rd, rs1, rs2, is_word, pc_offset }, pc),
            indent,
            seq!["(i64.const 0x"@ + hex(here as nat) + ")"@, "(return)"@],
        ),
        ends_in(
            microop_text(indent, MicroOp::AmoMin { rd, rs1, rs2, is_word, pc_offset }, pc),
            indent,
            seq!["(i64.const 0x"@ + hex(here as nat) + ")"@, "(return)"@],
        ),
        ends_in(
            microop_text(indent, MicroOp::AmoMax { rd, rs1, rs2, is_word, pc_offset }, pc),
            indent,
            seq!["(i64.const 0x"@ + hex(here as nat) + ")"@, "(return)"@],
        ),
        ends_in(
            microop_text(indent, MicroOp::AmoMinu { rd, rs1, rs2, is_word, pc_offset }, pc),
            indent,
            seq!["(i64.const 0x"@ + hex(here as nat) + ")"@, "(return)"@],
        ),
        ends_in(
            microop_text(indent, MicroOp::AmoMaxu { rd, rs1, rs2, is_word, pc_offset }, pc),
            indent,
            seq!["(i64.const 0x"@ + hex(here as nat) + ")"@, "(return)"@],
        ),
{
    lemma_here(pc, pc_offset, here);
    lemma_system_text(indent, "ecall"@, pc_offset, pc, here);
    lemma_system_text(indent, "ebreak"@, pc_offset, pc, here);
    lemma_system_text(indent, "mret"@, pc_offset, pc, here);
    lemma_system_text(indent, "sret"@, pc_offset, pc, here);
    lemma_system_text(indent, "wfi"@, pc_offset, pc, here);
    lemma_system_text(indent, "sfence.vma"@, pc_offset, pc, here);
    lemma_csr_text(indent, "csrrw"@, rd, rs1 as u16, csr, pc_offset, pc, here);
    lemma_csr_text(indent, "csrrs"@, rd, rs1 as u16, csr, pc_offset, pc, here);
    lemma_csr_text(indent, "csrrc"@, rd, rs1 as u16, csr, pc_offset, pc, here);
    lemma_csr_text(indent, "csrrwi"@, rd, rs1 as u16, csr, pc_offset, pc, here);
    lemma_csr_text(indent, "csrrsi"@, rd, rs1 as u16, csr, pc_offset, pc, here);
    lemma_csr_text(indent, "csrrci"@, rd, rs1 as u16, csr, pc_offset, pc, here);
    lemma_lr_text(indent, rd, rs1, pc_offset, pc, true, here);
    lemma_lr_text(indent, rd, rs1, pc_offset, pc, false, here);
    lemma_sc_text(indent, rd, rs1, rs2, pc_offset, pc, true, here);
    lemma_sc_text(indent, rd, rs1, rs2, pc_offset, pc, false, here);
    lemma_amo_text(indent, "swap"@, rd, rs1, rs2, is_word, pc_offset, pc, here);
    lemma_amo_text(indent, "add"@, rd, rs1, rs2, is_word, pc_offset, pc, here);
    lemma_amo_text(indent, "xor"@, rd, rs1, rs2, is_word, pc_offset, pc, here);
    lemma_amo_text(indent, "and"@, rd, rs1, rs2, is_word, pc_offset, pc, here);
    lemma_amo_text(indent, "or"@, rd, rs1, rs2, is_word, pc_offset, pc, here);
    lemma_amo_text(indent, "min"@, rd, rs1, rs2, is_word, pc_offset, pc, here);
    lemma_amo_text(indent, "max"@, rd, rs1, rs2, is_word, pc_offset, pc, here);
    lemma_amo_text(indent, "minu"@, rd, rs1, rs2, is_word, pc_offset, pc, here);
    lemma_amo_text(indent, "maxu"@, rd, rs1, rs2, is_word, pc_offset, pc, here);
}

/// Jumps return where they go to.
pub proof fn law_listed_jumps(
    indent: Seq<char>,
    pc: u64,
    rd: u8,
    rs1: u8,
    imm: i64,
    pc_offset: u16,
    insn_len: u8,
    goal: u64,
)
    requires
        is_cut(goal, pc + pc_offset + imm),
    ensures
        ends_in(
            microop_text(indent, MicroOp::Jal { rd, imm, pc_offset, insn_len }, pc),
            indent,
            seq!["(i64.const 0x"@ + hex(goal as nat) + ")  ;; target PC"@, "(return)"@],
        ),
        ends_in(
            microop_text(indent, MicroOp::Jalr { rd, rs1, imm, pc_offset, insn_len }, pc),
            indent,
            seq![read(rs1), pushes(imm as int), "(i64.add)"@, "(i64.const -2)  ;; mask off low bit"@, "(i64.and)"@, "(return)  ;; exit with computed target"@],
        ),
{
    lemma_goal(pc, pc_offset, imm, goal);
    let here = pc.wrapping_add(pc_offset as u64);
    let behind = here.wrapping_add(insn_len as u64);
    lemma_jal_text(indent, rd, imm, pc_offset, insn_len, pc, here, behind, goal);
    lemma_jalr_text(indent, rd, rs1, imm, pc_offset, insn_len, pc, here, behind);
}

} // verus!
