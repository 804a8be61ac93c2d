//! The instruction set shared by the assembler and the emulator: the
//! mnemonics, the fields of an instruction word, and the bytes of a word
//! in memory.

use crate::text::{spells, to_chars};
use vstd::prelude::*;

verus! {

/// Every mnemonic the assembler knows by name.
///
/// The last thirteen (`Addix` to `Srax`) are the extended forms that the
/// assembler sizes but has no operand syntax for: it reserves four bytes for
/// them and then refuses to encode them.
#[derive(Clone, Copy, Debug, PartialEq, Eq, Structural)]
pub enum Mnemonic {
    Add,
    Sub,
    And,
    Or,
    Xor,
    Addi,
    Lw,
    Lb,
    Lbu,
    Lui,
    Sw,
    Sb,
    Beq,
    Bne,
    Blt,
    Bge,
    Bltu,
    Bgeu,
    Bmi,
    Bpl,
    Bvs,
    Bvc,
    Bcs,
    Bcc,
    Bgt,
    Ble,
    Bhi,
    Bls,
    J,
    Jr,
    Jalr,
    Jal,
    Sll,
    Srl,
    Sra,
    Rol,
    Ror,
    Swap,
    Mul,
    Mulh,
    Mulhu,
    Div,
    Divu,
    Rem,
    Remu,
    Daa,
    Push,
    Pop,
    Compare,
    Test,
    Mov,
    Ldi,
    Ldd,
    Ldir,
    Lddr,
    Cpir,
    Fill,
    Exx,
    Getf,
    Setf,
    In,
    Ini,
    Out,
    Outi,
    Nop,
    Halt,
    Di,
    Ei,
    Reti,
    Swi,
    Scf,
    Ccf,
    Lix,
    Jx,
    Jalx,
    Neg,
    Not,
    Addix,
    Subix,
    Andix,
    Orix,
    Xorix,
    Lwx,
    Swx,
    CompareIx,
    Inx,
    Outx,
    Sllx,
    Srlx,
    Srax,
}

/// The mnemonic spelled by an upper-case name.
pub open spec fn mnemonic_of(name: Seq<char>) -> Option<Mnemonic> {
    if name == "ADD"@ {
        Some(Mnemonic::Add)
    } else if name == "SUB"@ {
        Some(Mnemonic::Sub)
    } else if name == "AND"@ {
        Some(Mnemonic::And)
    } else if name == "OR"@ {
        Some(Mnemonic::Or)
    } else if name == "XOR"@ {
        Some(Mnemonic::Xor)
    } else if name == "ADDI"@ {
        Some(Mnemonic::Addi)
    } else if name == "LW"@ {
        Some(Mnemonic::Lw)
    } else if name == "LB"@ {
        Some(Mnemonic::Lb)
    } else if name == "LBU"@ {
        Some(Mnemonic::Lbu)
    } else if name == "LUI"@ {
        Some(Mnemonic::Lui)
    } else if name == "SW"@ {
        Some(Mnemonic::Sw)
    } else if name == "SB"@ {
        Some(Mnemonic::Sb)
    } else if name == "BEQ"@ {
        Some(Mnemonic::Beq)
    } else if name == "BNE"@ {
        Some(Mnemonic::Bne)
    } else if name == "BLT"@ {
        Some(Mnemonic::Blt)
    } else if name == "BGE"@ {
        Some(Mnemonic::Bge)
    } else if name == "BLTU"@ {
        Some(Mnemonic::Bltu)
    } else if name == "BGEU"@ {
        Some(Mnemonic::Bgeu)
    } else if name == "BMI"@ {
        Some(Mnemonic::Bmi)
    } else if name == "BPL"@ {
        Some(Mnemonic::Bpl)
    } else if name == "BVS"@ {
        Some(Mnemonic::Bvs)
    } else if name == "BVC"@ {
        Some(Mnemonic::Bvc)
    } else if name == "BCS"@ {
        Some(Mnemonic::Bcs)
    } else if name == "BCC"@ {
        Some(Mnemonic::Bcc)
    } else if name == "BGT"@ {
        Some(Mnemonic::Bgt)
    } else if name == "BLE"@ {
        Some(Mnemonic::Ble)
    } else if name == "BHI"@ {
        Some(Mnemonic::Bhi)
    } else if name == "BLS"@ {
        Some(Mnemonic::Bls)
    } else if name == "J"@ {
        Some(Mnemonic::J)
    } else if name == "JR"@ {
        Some(Mnemonic::Jr)
    } else if name == "JALR"@ {
        Some(Mnemonic::Jalr)
    } else if name == "JAL"@ {
        Some(Mnemonic::Jal)
    } else if name == "SLL"@ {
        Some(Mnemonic::Sll)
    } else if name == "SRL"@ {
        Some(Mnemonic::Srl)
    } else if name == "SRA"@ {
        Some(Mnemonic::Sra)
    } else if name == "ROL"@ {
        Some(Mnemonic::Rol)
    } else if name == "ROR"@ {
        Some(Mnemonic::Ror)
    } else if name == "SWAP"@ {
        Some(Mnemonic::Swap)
    } else if name == "MUL"@ {
        Some(Mnemonic::Mul)
    } else if name == "MULH"@ {
        Some(Mnemonic::Mulh)
    } else if name == "MULHU"@ {
        Some(Mnemonic::Mulhu)
    } else if name == "DIV"@ {
        Some(Mnemonic::Div)
    } else if name == "DIVU"@ {
        Some(Mnemonic::Divu)
    } else if name == "REM"@ {
        Some(Mnemonic::Rem)
    } else if name == "REMU"@ {
        Some(Mnemonic::Remu)
    } else if name == "DAA"@ {
        Some(Mnemonic::Daa)
    } else if name == "PUSH"@ {
        Some(Mnemonic::Push)
    } else if name == "POP"@ {
        Some(Mnemonic::Pop)
    } else if name == "CMP"@ {
        Some(Mnemonic::Compare)
    } else if name == "TEST"@ {
        Some(Mnemonic::Test)
    } else if name == "MOV"@ {
        Some(Mnemonic::Mov)
    } else if name == "LDI"@ {
        Some(Mnemonic::Ldi)
    } else if name == "LDD"@ {
        Some(Mnemonic::Ldd)
    } else if name == "LDIR"@ {
        Some(Mnemonic::Ldir)
    } else if name == "LDDR"@ {
        Some(Mnemonic::Lddr)
    } else if name == "CPIR"@ {
        Some(Mnemonic::Cpir)
    } else if name == "FILL"@ {
        Some(Mnemonic::Fill)
    } else if name == "EXX"@ {
        Some(Mnemonic::Exx)
    } else if name == "GETF"@ {
        Some(Mnemonic::Getf)
    } else if name == "SETF"@ {
        Some(Mnemonic::Setf)
    } else if name == "IN"@ {
        Some(Mnemonic::In)
    } else if name == "INI"@ {
        Some(Mnemonic::Ini)
    } else if name == "OUT"@ {
        Some(Mnemonic::Out)
    } else if name == "OUTI"@ {
        Some(Mnemonic::Outi)
    } else if name == "NOP"@ {
        Some(Mnemonic::Nop)
    } else if name == "HALT"@ {
        Some(Mnemonic::Halt)
    } else if name == "DI"@ {
        Some(Mnemonic::Di)
    } else if name == "EI"@ {
        Some(Mnemonic::Ei)
    } else if name == "RETI"@ {
        Some(Mnemonic::Reti)
    } else if name == "SWI"@ {
        Some(Mnemonic::Swi)
    } else if name == "SCF"@ {
        Some(Mnemonic::Scf)
    } else if name == "CCF"@ {
        Some(Mnemonic::Ccf)
    } else if name == "LIX"@ {
        Some(Mnemonic::Lix)
    } else if name == "JX"@ {
        Some(Mnemonic::Jx)
    } else if name == "JALX"@ {
        Some(Mnemonic::Jalx)
    } else if name == "NEG"@ {
        Some(Mnemonic::Neg)
    } else if name == "NOT"@ {
        Some(Mnemonic::Not)
    } else if name == "ADDIX"@ {
        Some(Mnemonic::Addix)
    } else if name == "SUBIX"@ {
        Some(Mnemonic::Subix)
    } else if name == "ANDIX"@ {
        Some(Mnemonic::Andix)
    } else if name == "ORIX"@ {
        Some(Mnemonic::Orix)
    } else if name == "XORIX"@ {
        Some(Mnemonic::Xorix)
    } else if name == "LWX"@ {
        Some(Mnemonic::Lwx)
    } else if name == "SWX"@ {
        Some(Mnemonic::Swx)
    } else if name == "CMPIX"@ {
        Some(Mnemonic::CompareIx)
    } else if name == "INX"@ {
        Some(Mnemonic::Inx)
    } else if name == "OUTX"@ {
        Some(Mnemonic::Outx)
    } else if name == "SLLX"@ {
        Some(Mnemonic::Sllx)
    } else if name == "SRLX"@ {
        Some(Mnemonic::Srlx)
    } else if name == "SRAX"@ {
        Some(Mnemonic::Srax)
    } else {
        None
    }
}

/// Looks an upper-case name up among the mnemonics.
pub fn lookup_mnemonic(name: &str) -> (m: Option<Mnemonic>)
    ensures
        m == mnemonic_of(name@),
{
    let v = to_chars(name);
    if spells(&v, "ADD") {
        Some(Mnemonic::Add)
    } else if spells(&v, "SUB") {
        Some(Mnemonic::Sub)
    } else if spells(&v, "AND") {
        Some(Mnemonic::And)
    } else if spells(&v, "OR") {
        Some(Mnemonic::Or)
    } else if spells(&v, "XOR") {
        Some(Mnemonic::Xor)
    } else if spells(&v, "ADDI") {
        Some(Mnemonic::Addi)
    } else if spells(&v, "LW") {
        Some(Mnemonic::Lw)
    } else if spells(&v, "LB") {
        Some(Mnemonic::Lb)
    } else if spells(&v, "LBU") {
        Some(Mnemonic::Lbu)
    } else if spells(&v, "LUI") {
        Some(Mnemonic::Lui)
    } else if spells(&v, "SW") {
        Some(Mnemonic::Sw)
    } else if spells(&v, "SB") {
        Some(Mnemonic::Sb)
    } else if spells(&v, "BEQ") {
        Some(Mnemonic::Beq)
    } else if spells(&v, "BNE") {
        Some(Mnemonic::Bne)
    } else if spells(&v, "BLT") {
        Some(Mnemonic::Blt)
    } else if spells(&v, "BGE") {
        Some(Mnemonic::Bge)
    } else if spells(&v, "BLTU") {
        Some(Mnemonic::Bltu)
    } else if spells(&v, "BGEU") {
        Some(Mnemonic::Bgeu)
    } else if spells(&v, "BMI") {
        Some(Mnemonic::Bmi)
    } else if spells(&v, "BPL") {
        Some(Mnemonic::Bpl)
    } else if spells(&v, "BVS") {
        Some(Mnemonic::Bvs)
    } else if spells(&v, "BVC") {
        Some(Mnemonic::Bvc)
    } else if spells(&v, "BCS") {
        Some(Mnemonic::Bcs)
    } else if spells(&v, "BCC") {
        Some(Mnemonic::Bcc)
    } else if spells(&v, "BGT") {
        Some(Mnemonic::Bgt)
    } else if spells(&v, "BLE") {
        Some(Mnemonic::Ble)
    } else if spells(&v, "BHI") {
        Some(Mnemonic::Bhi)
    } else if spells(&v, "BLS") {
        Some(Mnemonic::Bls)
    } else if spells(&v, "J") {
        Some(Mnemonic::J)
    } else if spells(&v, "JR") {
        Some(Mnemonic::Jr)
    } else if spells(&v, "JALR") {
        Some(Mnemonic::Jalr)
    } else if spells(&v, "JAL") {
        Some(Mnemonic::Jal)
    } else if spells(&v, "SLL") {
        Some(Mnemonic::Sll)
    } else if spells(&v, "SRL") {
        Some(Mnemonic::Srl)
    } else if spells(&v, "SRA") {
        Some(Mnemonic::Sra)
    } else if spells(&v, "ROL") {
        Some(Mnemonic::Rol)
    } else if spells(&v, "ROR") {
        Some(Mnemonic::Ror)
    } else if spells(&v, "SWAP") {
        Some(Mnemonic::Swap)
    } else if spells(&v, "MUL") {
        Some(Mnemonic::Mul)
    } else if spells(&v, "MULH") {
        Some(Mnemonic::Mulh)
    } else if spells(&v, "MULHU") {
        Some(Mnemonic::Mulhu)
    } else if spells(&v, "DIV") {
        Some(Mnemonic::Div)
    } else if spells(&v, "DIVU") {
        Some(Mnemonic::Divu)
    } else if spells(&v, "REM") {
        Some(Mnemonic::Rem)
    } else if spells(&v, "REMU") {
        Some(Mnemonic::Remu)
    } else if spells(&v, "DAA") {
        Some(Mnemonic::Daa)
    } else if spells(&v, "PUSH") {
        Some(Mnemonic::Push)
    } else if spells(&v, "POP") {
        Some(Mnemonic::Pop)
    } else if spells(&v, "CMP") {
        Some(Mnemonic::Compare)
    } else if spells(&v, "TEST") {
        Some(Mnemonic::Test)
    } else if spells(&v, "MOV") {
        Some(Mnemonic::Mov)
    } else if spells(&v, "LDI") {
        Some(Mnemonic::Ldi)
    } else if spells(&v, "LDD") {
        Some(Mnemonic::Ldd)
    } else if spells(&v, "LDIR") {
        Some(Mnemonic::Ldir)
    } else if spells(&v, "LDDR") {
        Some(Mnemonic::Lddr)
    } else if spells(&v, "CPIR") {
        Some(Mnemonic::Cpir)
    } else if spells(&v, "FILL") {
        Some(Mnemonic::Fill)
    } else if spells(&v, "EXX") {
        Some(Mnemonic::Exx)
    } else if spells(&v, "GETF") {
        Some(Mnemonic::Getf)
    } else if spells(&v, "SETF") {
        Some(Mnemonic::Setf)
    } else if spells(&v, "IN") {
        Some(Mnemonic::In)
    } else if spells(&v, "INI") {
        Some(Mnemonic::Ini)
    } else if spells(&v, "OUT") {
        Some(Mnemonic::Out)
    } else if spells(&v, "OUTI") {
        Some(Mnemonic::Outi)
    } else if spells(&v, "NOP") {
        Some(Mnemonic::Nop)
    } else if spells(&v, "HALT") {
        Some(Mnemonic::Halt)
    } else if spells(&v, "DI") {
        Some(Mnemonic::Di)
    } else if spells(&v, "EI") {
        Some(Mnemonic::Ei)
    } else if spells(&v, "RETI") {
        Some(Mnemonic::Reti)
    } else if spells(&v, "SWI") {
        Some(Mnemonic::Swi)
    } else if spells(&v, "SCF") {
        Some(Mnemonic::Scf)
    } else if spells(&v, "CCF") {
        Some(Mnemonic::Ccf)
    } else if spells(&v, "LIX") {
        Some(Mnemonic::Lix)
    } else if spells(&v, "JX") {
        Some(Mnemonic::Jx)
    } else if spells(&v, "JALX") {
        Some(Mnemonic::Jalx)
    } else if spells(&v, "NEG") {
        Some(Mnemonic::Neg)
    } else if spells(&v, "NOT") {
        Some(Mnemonic::Not)
    } else if spells(&v, "ADDIX") {
        Some(Mnemonic::Addix)
    } else if spells(&v, "SUBIX") {
        Some(Mnemonic::Subix)
    } else if spells(&v, "ANDIX") {
        Some(Mnemonic::Andix)
    } else if spells(&v, "ORIX") {
        Some(Mnemonic::Orix)
    } else if spells(&v, "XORIX") {
        Some(Mnemonic::Xorix)
    } else if spells(&v, "LWX") {
        Some(Mnemonic::Lwx)
    } else if spells(&v, "SWX") {
        Some(Mnemonic::Swx)
    } else if spells(&v, "CMPIX") {
        Some(Mnemonic::CompareIx)
    } else if spells(&v, "INX") {
        Some(Mnemonic::Inx)
    } else if spells(&v, "OUTX") {
        Some(Mnemonic::Outx)
    } else if spells(&v, "SLLX") {
        Some(Mnemonic::Sllx)
    } else if spells(&v, "SRLX") {
        Some(Mnemonic::Srlx)
    } else if spells(&v, "SRAX") {
        Some(Mnemonic::Srax)
    } else {
        None
    }
}

/// The upper-case spelling of a mnemonic.
pub open spec fn mnemonic_name(m: Mnemonic) -> Seq<char> {
    match m {
        Mnemonic::Add => "ADD"@,
        Mnemonic::Sub => "SUB"@,
        Mnemonic::And => "AND"@,
        Mnemonic::Or => "OR"@,
        Mnemonic::Xor => "XOR"@,
        Mnemonic::Addi => "ADDI"@,
        Mnemonic::Lw => "LW"@,
        Mnemonic::Lb => "LB"@,
        Mnemonic::Lbu => "LBU"@,
        Mnemonic::Lui => "LUI"@,
        Mnemonic::Sw => "SW"@,
        Mnemonic::Sb => "SB"@,
        Mnemonic::Beq => "BEQ"@,
        Mnemonic::Bne => "BNE"@,
        Mnemonic::Blt => "BLT"@,
        Mnemonic::Bge => "BGE"@,
        Mnemonic::Bltu => "BLTU"@,
        Mnemonic::Bgeu => "BGEU"@,
        Mnemonic::Bmi => "BMI"@,
        Mnemonic::Bpl => "BPL"@,
        Mnemonic::Bvs => "BVS"@,
        Mnemonic::Bvc => "BVC"@,
        Mnemonic::Bcs => "BCS"@,
        Mnemonic::Bcc => "BCC"@,
        Mnemonic::Bgt => "BGT"@,
        Mnemonic::Ble => "BLE"@,
        Mnemonic::Bhi => "BHI"@,
        Mnemonic::Bls => "BLS"@,
        Mnemonic::J => "J"@,
        Mnemonic::Jr => "JR"@,
        Mnemonic::Jalr => "JALR"@,
        Mnemonic::Jal => "JAL"@,
        Mnemonic::Sll => "SLL"@,
        Mnemonic::Srl => "SRL"@,
        Mnemonic::Sra => "SRA"@,
        Mnemonic::Rol => "ROL"@,
        Mnemonic::Ror => "ROR"@,
        Mnemonic::Swap => "SWAP"@,
        Mnemonic::Mul => "MUL"@,
        Mnemonic::Mulh => "MULH"@,
        Mnemonic::Mulhu => "MULHU"@,
        Mnemonic::Div => "DIV"@,
        Mnemonic::Divu => "DIVU"@,
        Mnemonic::Rem => "REM"@,
        Mnemonic::Remu => "REMU"@,
        Mnemonic::Daa => "DAA"@,
        Mnemonic::Push => "PUSH"@,
        Mnemonic::Pop => "POP"@,
        Mnemonic::Compare => "CMP"@,
        Mnemonic::Test => "TEST"@,
        Mnemonic::Mov => "MOV"@,
        Mnemonic::Ldi => "LDI"@,
        Mnemonic::Ldd => "LDD"@,
        Mnemonic::Ldir => "LDIR"@,
        Mnemonic::Lddr => "LDDR"@,
        Mnemonic::Cpir => "CPIR"@,
        Mnemonic::Fill => "FILL"@,
        Mnemonic::Exx => "EXX"@,
        Mnemonic::Getf => "GETF"@,
        Mnemonic::Setf => "SETF"@,
        Mnemonic::In => "IN"@,
        Mnemonic::Ini => "INI"@,
        Mnemonic::Out => "OUT"@,
        Mnemonic::Outi => "OUTI"@,
        Mnemonic::Nop => "NOP"@,
        Mnemonic::Halt => "HALT"@,
        Mnemonic::Di => "DI"@,
        Mnemonic::Ei => "EI"@,
        Mnemonic::Reti => "RETI"@,
        Mnemonic::Swi => "SWI"@,
        Mnemonic::Scf => "SCF"@,
        Mnemonic::Ccf => "CCF"@,
        Mnemonic::Lix => "LIX"@,
        Mnemonic::Jx => "JX"@,
        Mnemonic::Jalx => "JALX"@,
        Mnemonic::Neg => "NEG"@,
        Mnemonic::Not => "NOT"@,
        Mnemonic::Addix => "ADDIX"@,
        Mnemonic::Subix => "SUBIX"@,
        Mnemonic::Andix => "ANDIX"@,
        Mnemonic::Orix => "ORIX"@,
        Mnemonic::Xorix => "XORIX"@,
        Mnemonic::Lwx => "LWX"@,
        Mnemonic::Swx => "SWX"@,
        Mnemonic::CompareIx => "CMPIX"@,
        Mnemonic::Inx => "INX"@,
        Mnemonic::Outx => "OUTX"@,
        Mnemonic::Sllx => "SLLX"@,
        Mnemonic::Srlx => "SRLX"@,
        Mnemonic::Srax => "SRAX"@,
    }
}

/// Whether a mnemonic is assembled in the extended form: a header word
/// followed by a 16-bit immediate.
pub open spec fn is_extended(m: Mnemonic) -> bool {
    match m {
        Mnemonic::Lix
        | Mnemonic::Addix
        | Mnemonic::Subix
        | Mnemonic::Andix
        | Mnemonic::Orix
        | Mnemonic::Xorix
        | Mnemonic::Lwx
        | Mnemonic::Swx
        | Mnemonic::Jx
        | Mnemonic::Jalx
        | Mnemonic::CompareIx
        | Mnemonic::Inx
        | Mnemonic::Outx
        | Mnemonic::Sllx
        | Mnemonic::Srlx
        | Mnemonic::Srax
        | Mnemonic::Ini
        | Mnemonic::Outi
        | Mnemonic::Jal
        | Mnemonic::Not => true,
        _ => false,
    }
}

/// Bytes that the sizing pass reserves for an instruction: four for the
/// extended forms, two for every other name, known or not.
pub open spec fn size_of(m: Option<Mnemonic>) -> u16 {
    match m {
        Some(k) => if is_extended(k) {
            4
        } else {
            2
        },
        None => 2,
    }
}

/// Computes [`size_of`].
pub fn instruction_bytes(m: Option<Mnemonic>) -> (n: u16)
    ensures
        n == size_of(m),
{
    match m {
        Some(
            Mnemonic::Lix
            | Mnemonic::Addix
            | Mnemonic::Subix
            | Mnemonic::Andix
            | Mnemonic::Orix
            | Mnemonic::Xorix
            | Mnemonic::Lwx
            | Mnemonic::Swx
            | Mnemonic::Jx
            | Mnemonic::Jalx
            | Mnemonic::CompareIx
            | Mnemonic::Inx
            | Mnemonic::Outx
            | Mnemonic::Sllx
            | Mnemonic::Srlx
            | Mnemonic::Srax
            | Mnemonic::Ini
            | Mnemonic::Outi
            | Mnemonic::Jal
            | Mnemonic::Not,
        ) => 4,
        _ => 2,
    }
}

/// The primary opcode: bits 15..12 of an instruction word.
pub open spec fn opcode_of(w: u16) -> u16 {
    (w >> 12) & 0xF
}

/// The Rd field: bits 11..8.
pub open spec fn rd_of(w: u16) -> u16 {
    (w >> 8) & 0xF
}

/// The Rs1 field: bits 7..4.
pub open spec fn rs1_of(w: u16) -> u16 {
    (w >> 4) & 0xF
}

/// The Rs2 or function field: bits 3..0.
pub open spec fn func_of(w: u16) -> u16 {
    w & 0xF
}

/// The low byte of a word, stored first in memory.
pub open spec fn low_byte(w: u16) -> u8 {
    (w & 0xFF) as u8
}

/// The high byte of a word, stored second in memory.
pub open spec fn high_byte(w: u16) -> u8 {
    (w >> 8) as u8
}

/// The word whose low byte is `lo` and whose high byte is `hi`.
pub open spec fn word_of(lo: u8, hi: u8) -> u16 {
    (lo as u16) | ((hi as u16) << 8)
}

/// The two bytes of a word in memory order.
pub open spec fn word_bytes(w: u16) -> Seq<u8> {
    seq![low_byte(w), high_byte(w)]
}

/// The value of a byte read as a two's complement number.
pub open spec fn signed8(b: u8) -> int {
    if b < 128 {
        b as int
    } else {
        b - 256
    }
}

/// The value of a word read as a two's complement number.
pub open spec fn signed16(w: u16) -> int {
    if w < 0x8000 {
        w as int
    } else {
        w - 0x10000
    }
}

/// The value of the low twelve bits of a word read as a two's complement
/// number.
pub open spec fn signed12(w: u16) -> int {
    if w % 0x1000 < 0x800 {
        (w % 0x1000) as int
    } else {
        w % 0x1000 - 0x1000
    }
}

/// The word that holds an integer modulo 2^16.
pub open spec fn wrap16(i: int) -> u16 {
    (i % 0x10000) as u16
}

/// A byte sign-extended to a word.
pub open spec fn sext8(b: u8) -> u16 {
    wrap16(signed8(b))
}

/// The fields of every word are nibbles.
pub proof fn lemma_fields_are_nibbles(w: u16)
    by (bit_vector)
    ensures
        (w >> 12) & 0xF < 16,
        (w >> 8) & 0xF < 16,
        (w >> 4) & 0xF < 16,
        w & 0xF < 16,
        w & 0xFF < 256,
        w >> 8 < 256,
        (w >> 12) & 0xF == w / 4096,
        (w >> 8) & 0xF == (w / 256) % 16,
        (w >> 4) & 0xF == (w / 16) % 16,
        w & 0xF == w % 16,
        w & 0xFF == w % 256,
        w >> 8 == w / 256,
        w & 0x0FFF == w % 4096,
{
}

/// Splitting a word into bytes and joining them again gives the word back,
/// and the other way round.
pub proof fn lemma_word_bytes(w: u16, lo: u8, hi: u8)
    by (bit_vector)
    ensures
        ((w & 0xFF) as u8 as u16) | (((w >> 8) as u8 as u16) << 8) == w,
        (((lo as u16) | ((hi as u16) << 8)) & 0xFF) as u8 == lo,
        (((lo as u16) | ((hi as u16) << 8)) >> 8) as u8 == hi,
        (lo as u16) | ((hi as u16) << 8) == lo as u16 + 256 * (hi as u16),
{
}

/// Reads the primary opcode of a word.
pub fn opcode(w: u16) -> (r: u16)
    ensures
        r == opcode_of(w),
        r < 16,
{
    proof {
        lemma_fields_are_nibbles(w);
    }
    (w >> 12) & 0xF
}

/// Reads the Rd field of a word.
pub fn rd_field(w: u16) -> (r: u16)
    ensures
        r == rd_of(w),
        r < 16,
{
    proof {
        lemma_fields_are_nibbles(w);
    }
    (w >> 8) & 0xF
}

/// Reads the Rs1 field of a word.
pub fn rs1_field(w: u16) -> (r: u16)
    ensures
        r == rs1_of(w),
        r < 16,
{
    proof {
        lemma_fields_are_nibbles(w);
    }
    (w >> 4) & 0xF
}

/// Reads the Rs2 or function field of a word.
pub fn func_field(w: u16) -> (r: u16)
    ensures
        r == func_of(w),
        r < 16,
{
    proof {
        lemma_fields_are_nibbles(w);
    }
    w & 0xF
}

/// Joins two bytes into a little-endian word.
pub fn make_word(lo: u8, hi: u8) -> (w: u16)
    ensures
        w == word_of(lo, hi),
{
    (lo as u16) | ((hi as u16) << 8)
}

} // verus!
