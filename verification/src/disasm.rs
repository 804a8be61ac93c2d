//! The disassembler: the text of the instruction at an address, for every
//! word that the emulator can meet.
//!
//! An instruction that the assembler can produce from a mnemonic of its
//! own is written in the assembler's syntax, so that the text assembles to
//! the same word again: the shifts under their mnemonics, a store with its
//! address first, a displacement before the parenthesis, a branch or a
//! jump with its byte distance as a plain number. A word that no mnemonic
//! of the assembler produces keeps a name of its own (`SLL4`, `INX`) or
//! shows its function code (`LOAD R1, (R2) f=9`).

use crate::cpu::Cpu;
use crate::isa::{
    func_field, func_of, opcode, opcode_of, rd_field, rd_of, rs1_field, rs1_of, signed12, signed8,
};
use crate::machine::{load_displacement, low, next, store_displacement, word_at};
use crate::text::{dec_digits, dec_text, hex_digits, push_dec, push_hex, push_int};
use vstd::prelude::*;
use vstd::string::*;

verus! {

/// The name of a register: `R` and its number.
pub open spec fn reg_text(n: u16) -> Seq<char> {
    "R"@ + dec_digits(n as nat)
}

/// A hexadecimal number with its `0x` prefix and at least `width` digits.
pub open spec fn hex_text(v: u16, width: nat) -> Seq<char> {
    "0x"@ + hex_digits(v as nat, width)
}

/// `NAME Ra, Rb, Rc`.
pub open spec fn regs3_text(name: Seq<char>, a: u16, b: u16, c: u16) -> Seq<char> {
    name + " "@ + reg_text(a) + ", "@ + reg_text(b) + ", "@ + reg_text(c)
}

/// `NAME Ra, Rb`.
pub open spec fn regs2_text(name: Seq<char>, a: u16, b: u16) -> Seq<char> {
    name + " "@ + reg_text(a) + ", "@ + reg_text(b)
}

/// `NAME Ra`.
pub open spec fn regs1_text(name: Seq<char>, a: u16) -> Seq<char> {
    name + " "@ + reg_text(a)
}

/// `NAME Ra, (Rb)`.
pub open spec fn indirect_text(name: Seq<char>, a: u16, b: u16) -> Seq<char> {
    name + " "@ + reg_text(a) + ", ("@ + reg_text(b) + ")"@
}

/// `NAME (Ra), Rb`.
pub open spec fn indirect_first_text(name: Seq<char>, a: u16, b: u16) -> Seq<char> {
    name + " ("@ + reg_text(a) + "), "@ + reg_text(b)
}

/// `NAME head(Ra), Rb`.
pub open spec fn displaced_first_text(name: Seq<char>, head: Seq<char>, a: u16, b: u16) -> Seq<
    char,
> {
    name + " "@ + head + "("@ + reg_text(a) + "), "@ + reg_text(b)
}

/// `NAME Ra, (Rb) f=F`: a load or store with a function code that names
/// no operation.
pub open spec fn indirect_func_text(name: Seq<char>, a: u16, b: u16, f: u16) -> Seq<char> {
    indirect_text(name, a, b) + " f="@ + dec_digits(f as nat)
}

/// `NAME Ra, tail`.
pub open spec fn reg_then_text(name: Seq<char>, a: u16, tail: Seq<char>) -> Seq<char> {
    name + " "@ + reg_text(a) + ", "@ + tail
}

/// `NAME Ra, Rb, tail`.
pub open spec fn regs2_then_text(name: Seq<char>, a: u16, b: u16, tail: Seq<char>) -> Seq<char> {
    name + " "@ + reg_text(a) + ", "@ + reg_text(b) + ", "@ + tail
}

/// `NAME tail`.
pub open spec fn word_then_text(name: Seq<char>, tail: Seq<char>) -> Seq<char> {
    name + " "@ + tail
}

/// `NAME head, Ra`.
pub open spec fn then_reg_text(name: Seq<char>, head: Seq<char>, a: u16) -> Seq<char> {
    name + " "@ + head + ", "@ + reg_text(a)
}

/// `NAME Ra, head(Rb)`.
pub open spec fn displaced_text(name: Seq<char>, a: u16, head: Seq<char>, b: u16) -> Seq<char> {
    name + " "@ + reg_text(a) + ", "@ + head + "("@ + reg_text(b) + ")"@
}

/// `f=F`: a function code that names no operation.
pub open spec fn func_text(f: u16) -> Seq<char> {
    "f="@ + dec_digits(f as nat)
}

/// The name of a three-register or extended arithmetic operation.
pub open spec fn alu_name(op: u16) -> Seq<char> {
    if op == 0 {
        "ADD"@
    } else if op == 1 {
        "SUB"@
    } else if op == 2 {
        "AND"@
    } else if op == 3 {
        "OR"@
    } else {
        "XOR"@
    }
}

/// The name of a branch condition.
pub open spec fn condition_name(cond: u16) -> Seq<char> {
    if cond == 0x0 {
        "BEQ"@
    } else if cond == 0x1 {
        "BNE"@
    } else if cond == 0x2 {
        "BLT"@
    } else if cond == 0x3 {
        "BGE"@
    } else if cond == 0x4 {
        "BLTU"@
    } else if cond == 0x5 {
        "BGEU"@
    } else if cond == 0x6 {
        "BMI"@
    } else if cond == 0x7 {
        "BPL"@
    } else if cond == 0x8 {
        "BVS"@
    } else if cond == 0x9 {
        "BVC"@
    } else if cond == 0xA {
        "BCS"@
    } else if cond == 0xB {
        "BCC"@
    } else if cond == 0xC {
        "BGT"@
    } else if cond == 0xD {
        "BLE"@
    } else if cond == 0xE {
        "BHI"@
    } else {
        "BLS"@
    }
}

/// The name of a shift operation: the assembler's mnemonic for the
/// shifts and rotations by one and for `SWAP`; the rotations through carry
/// and the wide rotations share the name `SHIFT`.
pub open spec fn shift_name(func: u16) -> Seq<char> {
    if func == 0x0 {
        "SLL"@
    } else if func == 0x1 {
        "SRL"@
    } else if func == 0x2 {
        "SRA"@
    } else if func == 0x3 {
        "ROL"@
    } else if func == 0x4 {
        "ROR"@
    } else if func == 0x7 {
        "SWAP"@
    } else if func == 0x8 {
        "SLL4"@
    } else if func == 0x9 {
        "SRL4"@
    } else if func == 0xA {
        "SRA4"@
    } else if func == 0xC {
        "SLL8"@
    } else if func == 0xD {
        "SRL8"@
    } else if func == 0xE {
        "SRA8"@
    } else {
        "SHIFT"@
    }
}

/// The name of a multiply or divide operation.
pub open spec fn muldiv_name(func: u16) -> Seq<char> {
    if func == 0x0 {
        "MUL"@
    } else if func == 0x1 {
        "MULH"@
    } else if func == 0x2 {
        "MULHU"@
    } else if func == 0x3 {
        "DIV"@
    } else if func == 0x4 {
        "DIVU"@
    } else if func == 0x5 {
        "REM"@
    } else if func == 0x6 {
        "REMU"@
    } else if func == 0x7 {
        "DAA"@
    } else {
        "MULDIV"@
    }
}

/// The text of a multiply or divide operation: opcode 11. `DAA` names
/// the one register that it adjusts.
pub open spec fn muldiv_text(rd: u16, rs1: u16, func: u16) -> Seq<char> {
    if func == 0x7 {
        regs1_text("DAA"@, rd)
    } else {
        regs2_text(muldiv_name(func), rd, rs1)
    }
}

/// The text of a load: opcode 6. A word load with a displacement is
/// written as the assembler reads it, `LW Rd, off(Rs)`.
pub open spec fn load_text(rd: u16, rs1: u16, func: u16) -> Seq<char> {
    if func == 0x0 {
        indirect_text("LW"@, rd, rs1)
    } else if func == 0x1 {
        indirect_text("LB"@, rd, rs1)
    } else if func == 0x2 {
        indirect_text("LBU"@, rd, rs1)
    } else if func < 0x8 {
        displaced_text("LW"@, rd, dec_text(load_displacement(func)), rs1)
    } else if func == 0x8 {
        reg_then_text("LUI"@, rd, hex_text((rs1 * 16) as u16, 2))
    } else {
        indirect_func_text("LOAD"@, rd, rs1, func)
    }
}

/// The text of a store: opcode 7, with the source register in the Rd
/// field. The address comes first, as the assembler reads it: `SW (Rs1),
/// Rs2`, and `SW off(Rs1), Rs2` for a word store with a displacement.
pub open spec fn store_text(rd: u16, rs1: u16, func: u16) -> Seq<char> {
    if func == 0x0 {
        indirect_first_text("SW"@, rs1, rd)
    } else if func == 0x1 {
        indirect_first_text("SB"@, rs1, rd)
    } else if func < 0x7 {
        displaced_first_text("SW"@, dec_text(store_displacement(func)), rs1, rd)
    } else {
        indirect_func_text("STORE"@, rd, rs1, func)
    }
}

/// Whether a word of opcode 9 is a jump through a register: `JR` or
/// `JALR`.
pub open spec fn is_register_jump(instr: u16) -> bool {
    (rd_of(instr) == 0xF && func_of(instr) == 0) || (func_of(instr) == 0x1 && rd_of(instr) != 0)
}

/// The text of a jump: opcode 9.
pub open spec fn jump_text(instr: u16) -> Seq<char> {
    let rd = rd_of(instr);
    let rs1 = rs1_of(instr);
    if rd == 0xF && func_of(instr) == 0 {
        regs1_text("JR"@, rs1)
    } else if func_of(instr) == 0x1 && rd != 0 {
        regs2_text("JALR"@, rd, rs1)
    } else {
        word_then_text("J"@, dec_text(signed12(instr) * 2))
    }
}

/// The text of a stack, move or block operation: opcode 12.
pub open spec fn misc_text(rd: u16, rs1: u16, func: u16) -> Seq<char> {
    if func == 0x0 {
        regs1_text("PUSH"@, rs1)
    } else if func == 0x1 {
        regs1_text("POP"@, rd)
    } else if func == 0x2 {
        regs2_text("CMP"@, rd, rs1)
    } else if func == 0x3 {
        regs2_text("TEST"@, rd, rs1)
    } else if func == 0x4 {
        regs2_text("MOV"@, rd, rs1)
    } else if func == 0x5 {
        "LDI"@
    } else if func == 0x6 {
        "LDD"@
    } else if func == 0x7 {
        "LDIR"@
    } else if func == 0x8 {
        "LDDR"@
    } else if func == 0x9 {
        "CPIR"@
    } else if func == 0xA {
        "FILL"@
    } else if func == 0xB {
        "EXX"@
    } else if func == 0xC {
        regs1_text("GETF"@, rd)
    } else if func == 0xD {
        regs1_text("SETF"@, rs1)
    } else {
        word_then_text("MISC"@, func_text(func))
    }
}

/// The text of a port operation: opcode 13.
pub open spec fn io_text(rd: u16, rs1: u16, func: u16) -> Seq<char> {
    if func == 0x0 {
        reg_then_text("INI"@, rd, hex_text(rs1, 1))
    } else if func == 0x1 {
        then_reg_text("OUTI"@, hex_text(rs1, 1), rd)
    } else if func == 0x2 {
        indirect_text("IN"@, rd, rs1)
    } else if func == 0x3 {
        indirect_first_text("OUT"@, rd, rs1)
    } else {
        word_then_text("I/O"@, func_text(func))
    }
}

/// The text of a system operation: opcode 14.
pub open spec fn system_text(instr: u16) -> Seq<char> {
    let rd = rd_of(instr);
    if rd == 0x0 {
        "NOP"@
    } else if rd == 0x1 {
        "HALT"@
    } else if rd == 0x2 {
        "DI"@
    } else if rd == 0x3 {
        "EI"@
    } else if rd == 0x4 {
        "RETI"@
    } else if rd == 0x5 {
        word_then_text("SWI"@, hex_text((instr % 256) as u16, 2))
    } else if rd == 0x6 {
        "SCF"@
    } else if rd == 0x7 {
        "CCF"@
    } else {
        word_then_text("SYS"@, func_text(rd))
    }
}

/// The text of an extended operation: opcode 15, with its immediate word.
/// `JALX` with the return address in register 1, which is what the
/// assembler encodes, is written as the assembler reads it, without the
/// register.
pub open spec fn extended_text(rd: u16, rs1: u16, sub: u16, imm: u16) -> Seq<char> {
    if sub <= 0x4 {
        regs2_then_text(alu_name(sub) + "IX"@, rd, rs1, hex_text(imm, 4))
    } else if sub == 0x5 {
        displaced_text("LWX"@, rd, hex_text(imm, 4), rs1)
    } else if sub == 0x6 {
        displaced_text("SWX"@, rd, hex_text(imm, 4), rs1)
    } else if sub == 0x7 {
        reg_then_text("LIX"@, rd, hex_text(imm, 4))
    } else if sub == 0x8 {
        word_then_text("JX"@, hex_text(imm, 4))
    } else if sub == 0x9 {
        if rd == 1 {
            word_then_text("JALX"@, hex_text(imm, 4))
        } else {
            reg_then_text("JALX"@, rd, hex_text(imm, 4))
        }
    } else if sub == 0xA {
        reg_then_text("CMPIX"@, rd, hex_text(imm, 4))
    } else if sub == 0xB {
        reg_then_text("INX"@, rd, hex_text((imm % 256) as u16, 2))
    } else if sub == 0xC {
        then_reg_text("OUTX"@, hex_text((imm % 256) as u16, 2), rs1)
    } else if sub == 0xD {
        regs2_then_text("SLLX"@, rd, rs1, dec_digits((imm % 16) as nat))
    } else if sub == 0xE {
        regs2_then_text("SRLX"@, rd, rs1, dec_digits((imm % 16) as nat))
    } else {
        regs2_then_text("SRAX"@, rd, rs1, dec_digits((imm % 16) as nat))
    }
}

/// The text of the instruction whose first word is `instr` and whose next
/// word is `imm`.
pub open spec fn instruction_text(instr: u16, imm: u16) -> Seq<char> {
    let op = opcode_of(instr);
    let rd = rd_of(instr);
    let rs1 = rs1_of(instr);
    let func = func_of(instr);
    if op <= 0x4 {
        regs3_text(alu_name(op), rd, rs1, func)
    } else if op == 0x5 {
        reg_then_text("ADDI"@, rd, dec_text(signed8(low(instr))))
    } else if op == 0x6 {
        load_text(rd, rs1, func)
    } else if op == 0x7 {
        store_text(rd, rs1, func)
    } else if op == 0x8 {
        word_then_text(condition_name(rd), dec_text(signed8(low(instr)) * 2))
    } else if op == 0x9 {
        jump_text(instr)
    } else if op == 0xA {
        regs2_text(shift_name(func), rd, rs1)
    } else if op == 0xB {
        muldiv_text(rd, rs1, func)
    } else if op == 0xC {
        misc_text(rd, rs1, func)
    } else if op == 0xD {
        io_text(rd, rs1, func)
    } else if op == 0xE {
        system_text(instr)
    } else {
        extended_text(rd, rs1, func, imm)
    }
}

/// Bytes that the instruction with first word `instr` occupies.
pub open spec fn instruction_len(instr: u16) -> u16 {
    if opcode_of(instr) == 0xF {
        4
    } else {
        2
    }
}

fn push_reg(s: &mut String, n: u16)
    ensures
        final(s)@ == old(s)@ + reg_text(n),
{
    s.append("R");
    push_dec(s, n as u64);
    assert(final(s)@ =~= old(s)@ + reg_text(n));
}

fn hex_string(v: u16, width: u32) -> (s: String)
    ensures
        s@ == hex_text(v, width as nat),
{
    let mut s = String::from_str("0x");
    push_hex(&mut s, v as u32, width);
    s
}

fn dec_string(n: u16) -> (s: String)
    ensures
        s@ == dec_digits(n as nat),
{
    let mut s = String::new();
    push_dec(&mut s, n as u64);
    assert(s@ =~= dec_digits(n as nat));
    s
}

fn int_string(i: i32) -> (s: String)
    ensures
        s@ == dec_text(i as int),
{
    let mut s = String::new();
    push_int(&mut s, i);
    assert(s@ =~= dec_text(i as int));
    s
}

fn func_string(f: u16) -> (s: String)
    ensures
        s@ == func_text(f),
{
    let mut s = String::from_str("f=");
    push_dec(&mut s, f as u64);
    s
}

fn regs3(name: &str, a: u16, b: u16, c: u16) -> (s: String)
    ensures
        s@ == regs3_text(name@, a, b, c),
{
    let mut s = String::from_str(name);
    s.append(" ");
    push_reg(&mut s, a);
    s.append(", ");
    push_reg(&mut s, b);
    s.append(", ");
    push_reg(&mut s, c);
    s
}

fn regs2(name: &str, a: u16, b: u16) -> (s: String)
    ensures
        s@ == regs2_text(name@, a, b),
{
    let mut s = String::from_str(name);
    s.append(" ");
    push_reg(&mut s, a);
    s.append(", ");
    push_reg(&mut s, b);
    s
}

fn regs1(name: &str, a: u16) -> (s: String)
    ensures
        s@ == regs1_text(name@, a),
{
    let mut s = String::from_str(name);
    s.append(" ");
    push_reg(&mut s, a);
    s
}

fn indirect(name: &str, a: u16, b: u16) -> (s: String)
    ensures
        s@ == indirect_text(name@, a, b),
{
    let mut s = String::from_str(name);
    s.append(" ");
    push_reg(&mut s, a);
    s.append(", (");
    push_reg(&mut s, b);
    s.append(")");
    s
}

fn indirect_first(name: &str, a: u16, b: u16) -> (s: String)
    ensures
        s@ == indirect_first_text(name@, a, b),
{
    let mut s = String::from_str(name);
    s.append(" (");
    push_reg(&mut s, a);
    s.append("), ");
    push_reg(&mut s, b);
    s
}

fn displaced_first(name: &str, head: &str, a: u16, b: u16) -> (s: String)
    ensures
        s@ == displaced_first_text(name@, head@, a, b),
{
    let mut s = String::from_str(name);
    s.append(" ");
    s.append(head);
    s.append("(");
    push_reg(&mut s, a);
    s.append("), ");
    push_reg(&mut s, b);
    s
}

/// The byte displacement of a word load.
fn load_offset(func: u16) -> (d: i32)
    ensures
        d == load_displacement(func),
{
    if func == 0x3 {
        2
    } else if func == 0x4 {
        4
    } else if func == 0x5 {
        6
    } else if func == 0x6 {
        -2
    } else if func == 0x7 {
        -4
    } else {
        0
    }
}

/// The byte displacement of a word store.
fn store_offset(func: u16) -> (d: i32)
    ensures
        d == store_displacement(func),
{
    if func == 0x2 {
        2
    } else if func == 0x3 {
        4
    } else if func == 0x4 {
        6
    } else if func == 0x5 {
        -2
    } else if func == 0x6 {
        -4
    } else {
        0
    }
}

fn indirect_func(name: &str, a: u16, b: u16, f: u16) -> (s: String)
    ensures
        s@ == indirect_func_text(name@, a, b, f),
{
    let mut s = indirect(name, a, b);
    s.append(" f=");
    push_dec(&mut s, f as u64);
    s
}

fn reg_then(name: &str, a: u16, tail: &str) -> (s: String)
    ensures
        s@ == reg_then_text(name@, a, tail@),
{
    let mut s = String::from_str(name);
    s.append(" ");
    push_reg(&mut s, a);
    s.append(", ");
    s.append(tail);
    s
}

fn regs2_then(name: &str, a: u16, b: u16, tail: &str) -> (s: String)
    ensures
        s@ == regs2_then_text(name@, a, b, tail@),
{
    let mut s = String::from_str(name);
    s.append(" ");
    push_reg(&mut s, a);
    s.append(", ");
    push_reg(&mut s, b);
    s.append(", ");
    s.append(tail);
    s
}

fn word_then(name: &str, tail: &str) -> (s: String)
    ensures
        s@ == word_then_text(name@, tail@),
{
    let mut s = String::from_str(name);
    s.append(" ");
    s.append(tail);
    s
}

fn then_reg(name: &str, head: &str, a: u16) -> (s: String)
    ensures
        s@ == then_reg_text(name@, head@, a),
{
    let mut s = String::from_str(name);
    s.append(" ");
    s.append(head);
    s.append(", ");
    push_reg(&mut s, a);
    s
}

fn displaced(name: &str, a: u16, head: &str, b: u16) -> (s: String)
    ensures
        s@ == displaced_text(name@, a, head@, b),
{
    let mut s = String::from_str(name);
    s.append(" ");
    push_reg(&mut s, a);
    s.append(", ");
    s.append(head);
    s.append("(");
    push_reg(&mut s, b);
    s.append(")");
    s
}

fn alu_name_of(op: u16) -> (s: &'static str)
    ensures
        s@ == alu_name(op),
{
    if op == 0 {
        "ADD"
    } else if op == 1 {
        "SUB"
    } else if op == 2 {
        "AND"
    } else if op == 3 {
        "OR"
    } else {
        "XOR"
    }
}

fn condition_name_of(cond: u16) -> (s: &'static str)
    ensures
        s@ == condition_name(cond),
{
    if cond == 0x0 {
        "BEQ"
    } else if cond == 0x1 {
        "BNE"
    } else if cond == 0x2 {
        "BLT"
    } else if cond == 0x3 {
        "BGE"
    } else if cond == 0x4 {
        "BLTU"
    } else if cond == 0x5 {
        "BGEU"
    } else if cond == 0x6 {
        "BMI"
    } else if cond == 0x7 {
        "BPL"
    } else if cond == 0x8 {
        "BVS"
    } else if cond == 0x9 {
        "BVC"
    } else if cond == 0xA {
        "BCS"
    } else if cond == 0xB {
        "BCC"
    } else if cond == 0xC {
        "BGT"
    } else if cond == 0xD {
        "BLE"
    } else if cond == 0xE {
        "BHI"
    } else {
        "BLS"
    }
}

fn shift_name_of(func: u16) -> (s: &'static str)
    ensures
        s@ == shift_name(func),
{
    if func == 0x0 {
        "SLL"
    } else if func == 0x1 {
        "SRL"
    } else if func == 0x2 {
        "SRA"
    } else if func == 0x3 {
        "ROL"
    } else if func == 0x4 {
        "ROR"
    } else if func == 0x7 {
        "SWAP"
    } else if func == 0x8 {
        "SLL4"
    } else if func == 0x9 {
        "SRL4"
    } else if func == 0xA {
        "SRA4"
    } else if func == 0xC {
        "SLL8"
    } else if func == 0xD {
        "SRL8"
    } else if func == 0xE {
        "SRA8"
    } else {
        "SHIFT"
    }
}

fn muldiv_name_of(func: u16) -> (s: &'static str)
    ensures
        s@ == muldiv_name(func),
{
    if func == 0x0 {
        "MUL"
    } else if func == 0x1 {
        "MULH"
    } else if func == 0x2 {
        "MULHU"
    } else if func == 0x3 {
        "DIV"
    } else if func == 0x4 {
        "DIVU"
    } else if func == 0x5 {
        "REM"
    } else if func == 0x6 {
        "REMU"
    } else if func == 0x7 {
        "DAA"
    } else {
        "MULDIV"
    }
}

fn load_string(rd: u16, rs1: u16, func: u16) -> (s: String)
    requires
        rs1 < 16,
    ensures
        s@ == load_text(rd, rs1, func),
{
    if func == 0x0 {
        indirect("LW", rd, rs1)
    } else if func == 0x1 {
        indirect("LB", rd, rs1)
    } else if func == 0x2 {
        indirect("LBU", rd, rs1)
    } else if func < 0x8 {
        displaced("LW", rd, int_string(load_offset(func)).as_str(), rs1)
    } else if func == 0x8 {
        reg_then("LUI", rd, hex_string(rs1 * 16, 2).as_str())
    } else {
        indirect_func("LOAD", rd, rs1, func)
    }
}

fn store_string(rd: u16, rs1: u16, func: u16) -> (s: String)
    ensures
        s@ == store_text(rd, rs1, func),
{
    if func == 0x0 {
        indirect_first("SW", rs1, rd)
    } else if func == 0x1 {
        indirect_first("SB", rs1, rd)
    } else if func < 0x7 {
        displaced_first("SW", int_string(store_offset(func)).as_str(), rs1, rd)
    } else {
        indirect_func("STORE", rd, rs1, func)
    }
}

fn jump_string(instr: u16) -> (s: String)
    ensures
        s@ == jump_text(instr),
{
    let rd = rd_field(instr);
    let rs1 = rs1_field(instr);
    let func = func_field(instr);
    if rd == 0xF && func == 0 {
        regs1("JR", rs1)
    } else if func == 0x1 && rd != 0 {
        regs2("JALR", rd, rs1)
    } else {
        let field = instr % 0x1000;
        let off: i32 = if field < 0x800 {
            field as i32
        } else {
            field as i32 - 0x1000
        };
        word_then("J", int_string(off * 2).as_str())
    }
}

fn misc_string(rd: u16, rs1: u16, func: u16) -> (s: String)
    ensures
        s@ == misc_text(rd, rs1, func),
{
    if func == 0x0 {
        regs1("PUSH", rs1)
    } else if func == 0x1 {
        regs1("POP", rd)
    } else if func == 0x2 {
        regs2("CMP", rd, rs1)
    } else if func == 0x3 {
        regs2("TEST", rd, rs1)
    } else if func == 0x4 {
        regs2("MOV", rd, rs1)
    } else if func == 0x5 {
        String::from_str("LDI")
    } else if func == 0x6 {
        String::from_str("LDD")
    } else if func == 0x7 {
        String::from_str("LDIR")
    } else if func == 0x8 {
        String::from_str("LDDR")
    } else if func == 0x9 {
        String::from_str("CPIR")
    } else if func == 0xA {
        String::from_str("FILL")
    } else if func == 0xB {
        String::from_str("EXX")
    } else if func == 0xC {
        regs1("GETF", rd)
    } else if func == 0xD {
        regs1("SETF", rs1)
    } else {
        word_then("MISC", func_string(func).as_str())
    }
}

fn io_string(rd: u16, rs1: u16, func: u16) -> (s: String)
    ensures
        s@ == io_text(rd, rs1, func),
{
    if func == 0x0 {
        reg_then("INI", rd, hex_string(rs1, 1).as_str())
    } else if func == 0x1 {
        then_reg("OUTI", hex_string(rs1, 1).as_str(), rd)
    } else if func == 0x2 {
        indirect("IN", rd, rs1)
    } else if func == 0x3 {
        indirect_first("OUT", rd, rs1)
    } else {
        word_then("I/O", func_string(func).as_str())
    }
}

fn system_string(instr: u16) -> (s: String)
    ensures
        s@ == system_text(instr),
{
    let rd = rd_field(instr);
    if rd == 0x0 {
        String::from_str("NOP")
    } else if rd == 0x1 {
        String::from_str("HALT")
    } else if rd == 0x2 {
        String::from_str("DI")
    } else if rd == 0x3 {
        String::from_str("EI")
    } else if rd == 0x4 {
        String::from_str("RETI")
    } else if rd == 0x5 {
        word_then("SWI", hex_string(instr % 256, 2).as_str())
    } else if rd == 0x6 {
        String::from_str("SCF")
    } else if rd == 0x7 {
        String::from_str("CCF")
    } else {
        word_then("SYS", func_string(rd).as_str())
    }
}

fn extended_string(rd: u16, rs1: u16, sub: u16, imm: u16) -> (s: String)
    ensures
        s@ == extended_text(rd, rs1, sub, imm),
{
    if sub <= 0x4 {
        let mut name = String::from_str(alu_name_of(sub));
        name.append("IX");
        regs2_then(name.as_str(), rd, rs1, hex_string(imm, 4).as_str())
    } else if sub == 0x5 {
        displaced("LWX", rd, hex_string(imm, 4).as_str(), rs1)
    } else if sub == 0x6 {
        displaced("SWX", rd, hex_string(imm, 4).as_str(), rs1)
    } else if sub == 0x7 {
        reg_then("LIX", rd, hex_string(imm, 4).as_str())
    } else if sub == 0x8 {
        word_then("JX", hex_string(imm, 4).as_str())
    } else if sub == 0x9 {
        if rd == 1 {
            word_then("JALX", hex_string(imm, 4).as_str())
        } else {
            reg_then("JALX", rd, hex_string(imm, 4).as_str())
        }
    } else if sub == 0xA {
        reg_then("CMPIX", rd, hex_string(imm, 4).as_str())
    } else if sub == 0xB {
        reg_then("INX", rd, hex_string(imm % 256, 2).as_str())
    } else if sub == 0xC {
        then_reg("OUTX", hex_string(imm % 256, 2).as_str(), rs1)
    } else if sub == 0xD {
        regs2_then("SLLX", rd, rs1, dec_string(imm % 16).as_str())
    } else if sub == 0xE {
        regs2_then("SRLX", rd, rs1, dec_string(imm % 16).as_str())
    } else {
        regs2_then("SRAX", rd, rs1, dec_string(imm % 16).as_str())
    }
}

/// The signed value of the low byte of a word.
fn low_signed(instr: u16) -> (i: i32)
    ensures
        i == signed8(low(instr)),
{
    let b = instr % 256;
    if b < 128 {
        b as i32
    } else {
        b as i32 - 256
    }
}

/// Renders the instruction whose first word is `instr` and whose next word
/// is `imm`.
pub fn render_instruction(instr: u16, imm: u16) -> (s: String)
    ensures
        s@ == instruction_text(instr, imm),
{
    let op = opcode(instr);
    let rd = rd_field(instr);
    let rs1 = rs1_field(instr);
    let func = func_field(instr);
    if op <= 0x4 {
        regs3(alu_name_of(op), rd, rs1, func)
    } else if op == 0x5 {
        reg_then("ADDI", rd, int_string(low_signed(instr)).as_str())
    } else if op == 0x6 {
        load_string(rd, rs1, func)
    } else if op == 0x7 {
        store_string(rd, rs1, func)
    } else if op == 0x8 {
        word_then(condition_name_of(rd), int_string(low_signed(instr) * 2).as_str())
    } else if op == 0x9 {
        jump_string(instr)
    } else if op == 0xA {
        regs2(shift_name_of(func), rd, rs1)
    } else if op == 0xB {
        if func == 0x7 {
            regs1("DAA", rd)
        } else {
            regs2(muldiv_name_of(func), rd, rs1)
        }
    } else if op == 0xC {
        misc_string(rd, rs1, func)
    } else if op == 0xD {
        io_string(rd, rs1, func)
    } else if op == 0xE {
        system_string(instr)
    } else {
        extended_string(rd, rs1, func, imm)
    }
}

/// Disassembles the instruction at `addr`: its text, and the number of
/// bytes it occupies, which is 4 for the extended forms and 2 otherwise.
/// The processor is only read.
pub fn disassemble(cpu: &Cpu, addr: u16) -> (r: (String, u16))
    ensures
        r.0@ == instruction_text(
            word_at(cpu@, addr),
            word_at(cpu@, crate::isa::wrap16(addr + 2)),
        ),
        r.1 == instruction_len(word_at(cpu@, addr)),
{
    let instr = cpu.read_word(addr);
    let imm = cpu.read_word(addr.wrapping_add(2));
    let size: u16 = if opcode(instr) == 0xF {
        4
    } else {
        2
    };
    (render_instruction(instr, imm), size)
}

} // verus!
