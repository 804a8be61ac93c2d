//! Laws of the instruction set: what the assembler writes, the emulator
//! reads, and the disassembler names.

use crate::alu::{add_flags, add_result};
use crate::disasm::{
    displaced_first_text, displaced_text, hex_text, indirect_first_text, indirect_text,
    instruction_len, instruction_text, is_register_jump, reg_text, reg_then_text, regs1_text,
    regs2_text, regs3_text, word_then_text,
};
use crate::encode::{
    EncodedView, branch_word, encode_spec, half, in_form, jump_word, lui_form, offset_to_func,
    out_form, word_load_form, word_store_form, word_with,
};
use crate::isa::{
    Mnemonic, func_of, lemma_fields_are_nibbles, mnemonic_name, mnemonic_of, opcode_of, rd_of,
    rs1_of, signed12, signed8, wrap16,
};
use crate::lexer::register_of;
use crate::machine::{
    CpuState, after_port_read, after_port_write, execute_spec, load_displacement, low, port_value,
    reg, store_displacement, with_flags, with_reg, with_word, word_at,
};
use crate::parser::OperandView;
use crate::text::{dec_digits, dec_text, digit_char, is_ascii_char, uppercase_of};
use vstd::prelude::*;

verus! {

/// A text without lower-case letters is its own upper case.
pub proof fn law_upper_case_is_fixed(s: Seq<char>)
    requires
        forall|i: int|
            0 <= i < s.len() ==> is_ascii_char(#[trigger] s[i]) && !('a' <= s[i] <= 'z'),
    ensures
        uppercase_of(s) == s,
{
    assert(uppercase_of(s) =~= s);
}

/// The assembler reads every mnemonic's spelling back as that mnemonic: no
/// two mnemonics are spelled alike, and the spelling is in upper case
/// already.
pub proof fn law_mnemonic_names(m: Mnemonic)
    ensures
        mnemonic_of(mnemonic_name(m)) == Some(m),
        uppercase_of(mnemonic_name(m)) == mnemonic_name(m),
{
    lemma_spellings();
    law_upper_case_is_fixed(mnemonic_name(m));
}

/// What each mnemonic's spelling holds: its length and its letters.
#[verifier::rlimit(40)]
pub proof fn lemma_spellings()
    ensures
        "ADD"@.len() == 3 && "ADD"@[0] == 'A' && "ADD"@[1] == 'D' && "ADD"@[2] == 'D',
        "SUB"@.len() == 3 && "SUB"@[0] == 'S' && "SUB"@[1] == 'U' && "SUB"@[2] == 'B',
        "AND"@.len() == 3 && "AND"@[0] == 'A' && "AND"@[1] == 'N' && "AND"@[2] == 'D',
        "OR"@.len() == 2 && "OR"@[0] == 'O' && "OR"@[1] == 'R',
        "XOR"@.len() == 3 && "XOR"@[0] == 'X' && "XOR"@[1] == 'O' && "XOR"@[2] == 'R',
        "ADDI"@.len() == 4 && "ADDI"@[0] == 'A' && "ADDI"@[1] == 'D' && "ADDI"@[2] == 'D' && "ADDI"@[3] == 'I',
        "LW"@.len() == 2 && "LW"@[0] == 'L' && "LW"@[1] == 'W',
        "LB"@.len() == 2 && "LB"@[0] == 'L' && "LB"@[1] == 'B',
        "LBU"@.len() == 3 && "LBU"@[0] == 'L' && "LBU"@[1] == 'B' && "LBU"@[2] == 'U',
        "LUI"@.len() == 3 && "LUI"@[0] == 'L' && "LUI"@[1] == 'U' && "LUI"@[2] == 'I',
        "SW"@.len() == 2 && "SW"@[0] == 'S' && "SW"@[1] == 'W',
        "SB"@.len() == 2 && "SB"@[0] == 'S' && "SB"@[1] == 'B',
        "BEQ"@.len() == 3 && "BEQ"@[0] == 'B' && "BEQ"@[1] == 'E' && "BEQ"@[2] == 'Q',
        "BNE"@.len() == 3 && "BNE"@[0] == 'B' && "BNE"@[1] == 'N' && "BNE"@[2] == 'E',
        "BLT"@.len() == 3 && "BLT"@[0] == 'B' && "BLT"@[1] == 'L' && "BLT"@[2] == 'T',
        "BGE"@.len() == 3 && "BGE"@[0] == 'B' && "BGE"@[1] == 'G' && "BGE"@[2] == 'E',
        "BLTU"@.len() == 4 && "BLTU"@[0] == 'B' && "BLTU"@[1] == 'L' && "BLTU"@[2] == 'T' && "BLTU"@[3] == 'U',
        "BGEU"@.len() == 4 && "BGEU"@[0] == 'B' && "BGEU"@[1] == 'G' && "BGEU"@[2] == 'E' && "BGEU"@[3] == 'U',
        "BMI"@.len() == 3 && "BMI"@[0] == 'B' && "BMI"@[1] == 'M' && "BMI"@[2] == 'I',
        "BPL"@.len() == 3 && "BPL"@[0] == 'B' && "BPL"@[1] == 'P' && "BPL"@[2] == 'L',
        "BVS"@.len() == 3 && "BVS"@[0] == 'B' && "BVS"@[1] == 'V' && "BVS"@[2] == 'S',
        "BVC"@.len() == 3 && "BVC"@[0] == 'B' && "BVC"@[1] == 'V' && "BVC"@[2] == 'C',
        "BCS"@.len() == 3 && "BCS"@[0] == 'B' && "BCS"@[1] == 'C' && "BCS"@[2] == 'S',
        "BCC"@.len() == 3 && "BCC"@[0] == 'B' && "BCC"@[1] == 'C' && "BCC"@[2] == 'C',
        "BGT"@.len() == 3 && "BGT"@[0] == 'B' && "BGT"@[1] == 'G' && "BGT"@[2] == 'T',
        "BLE"@.len() == 3 && "BLE"@[0] == 'B' && "BLE"@[1] == 'L' && "BLE"@[2] == 'E',
        "BHI"@.len() == 3 && "BHI"@[0] == 'B' && "BHI"@[1] == 'H' && "BHI"@[2] == 'I',
        "BLS"@.len() == 3 && "BLS"@[0] == 'B' && "BLS"@[1] == 'L' && "BLS"@[2] == 'S',
        "J"@.len() == 1 && "J"@[0] == 'J',
        "JR"@.len() == 2 && "JR"@[0] == 'J' && "JR"@[1] == 'R',
        "JALR"@.len() == 4 && "JALR"@[0] == 'J' && "JALR"@[1] == 'A' && "JALR"@[2] == 'L' && "JALR"@[3] == 'R',
        "JAL"@.len() == 3 && "JAL"@[0] == 'J' && "JAL"@[1] == 'A' && "JAL"@[2] == 'L',
        "SLL"@.len() == 3 && "SLL"@[0] == 'S' && "SLL"@[1] == 'L' && "SLL"@[2] == 'L',
        "SRL"@.len() == 3 && "SRL"@[0] == 'S' && "SRL"@[1] == 'R' && "SRL"@[2] == 'L',
        "SRA"@.len() == 3 && "SRA"@[0] == 'S' && "SRA"@[1] == 'R' && "SRA"@[2] == 'A',
        "ROL"@.len() == 3 && "ROL"@[0] == 'R' && "ROL"@[1] == 'O' && "ROL"@[2] == 'L',
        "ROR"@.len() == 3 && "ROR"@[0] == 'R' && "ROR"@[1] == 'O' && "ROR"@[2] == 'R',
        "SWAP"@.len() == 4 && "SWAP"@[0] == 'S' && "SWAP"@[1] == 'W' && "SWAP"@[2] == 'A' && "SWAP"@[3] == 'P',
        "MUL"@.len() == 3 && "MUL"@[0] == 'M' && "MUL"@[1] == 'U' && "MUL"@[2] == 'L',
        "MULH"@.len() == 4 && "MULH"@[0] == 'M' && "MULH"@[1] == 'U' && "MULH"@[2] == 'L' && "MULH"@[3] == 'H',
        "MULHU"@.len() == 5 && "MULHU"@[0] == 'M' && "MULHU"@[1] == 'U' && "MULHU"@[2] == 'L' && "MULHU"@[3] == 'H' && "MULHU"@[4] == 'U',
        "DIV"@.len() == 3 && "DIV"@[0] == 'D' && "DIV"@[1] == 'I' && "DIV"@[2] == 'V',
        "DIVU"@.len() == 4 && "DIVU"@[0] == 'D' && "DIVU"@[1] == 'I' && "DIVU"@[2] == 'V' && "DIVU"@[3] == 'U',
        "REM"@.len() == 3 && "REM"@[0] == 'R' && "REM"@[1] == 'E' && "REM"@[2] == 'M',
        "REMU"@.len() == 4 && "REMU"@[0] == 'R' && "REMU"@[1] == 'E' && "REMU"@[2] == 'M' && "REMU"@[3] == 'U',
        "DAA"@.len() == 3 && "DAA"@[0] == 'D' && "DAA"@[1] == 'A' && "DAA"@[2] == 'A',
        "PUSH"@.len() == 4 && "PUSH"@[0] == 'P' && "PUSH"@[1] == 'U' && "PUSH"@[2] == 'S' && "PUSH"@[3] == 'H',
        "POP"@.len() == 3 && "POP"@[0] == 'P' && "POP"@[1] == 'O' && "POP"@[2] == 'P',
        "CMP"@.len() == 3 && "CMP"@[0] == 'C' && "CMP"@[1] == 'M' && "CMP"@[2] == 'P',
        "TEST"@.len() == 4 && "TEST"@[0] == 'T' && "TEST"@[1] == 'E' && "TEST"@[2] == 'S' && "TEST"@[3] == 'T',
        "MOV"@.len() == 3 && "MOV"@[0] == 'M' && "MOV"@[1] == 'O' && "MOV"@[2] == 'V',
        "LDI"@.len() == 3 && "LDI"@[0] == 'L' && "LDI"@[1] == 'D' && "LDI"@[2] == 'I',
        "LDD"@.len() == 3 && "LDD"@[0] == 'L' && "LDD"@[1] == 'D' && "LDD"@[2] == 'D',
        "LDIR"@.len() == 4 && "LDIR"@[0] == 'L' && "LDIR"@[1] == 'D' && "LDIR"@[2] == 'I' && "LDIR"@[3] == 'R',
        "LDDR"@.len() == 4 && "LDDR"@[0] == 'L' && "LDDR"@[1] == 'D' && "LDDR"@[2] == 'D' && "LDDR"@[3] == 'R',
        "CPIR"@.len() == 4 && "CPIR"@[0] == 'C' && "CPIR"@[1] == 'P' && "CPIR"@[2] == 'I' && "CPIR"@[3] == 'R',
        "FILL"@.len() == 4 && "FILL"@[0] == 'F' && "FILL"@[1] == 'I' && "FILL"@[2] == 'L' && "FILL"@[3] == 'L',
        "EXX"@.len() == 3 && "EXX"@[0] == 'E' && "EXX"@[1] == 'X' && "EXX"@[2] == 'X',
        "GETF"@.len() == 4 && "GETF"@[0] == 'G' && "GETF"@[1] == 'E' && "GETF"@[2] == 'T' && "GETF"@[3] == 'F',
        "SETF"@.len() == 4 && "SETF"@[0] == 'S' && "SETF"@[1] == 'E' && "SETF"@[2] == 'T' && "SETF"@[3] == 'F',
        "IN"@.len() == 2 && "IN"@[0] == 'I' && "IN"@[1] == 'N',
        "INI"@.len() == 3 && "INI"@[0] == 'I' && "INI"@[1] == 'N' && "INI"@[2] == 'I',
        "OUT"@.len() == 3 && "OUT"@[0] == 'O' && "OUT"@[1] == 'U' && "OUT"@[2] == 'T',
        "OUTI"@.len() == 4 && "OUTI"@[0] == 'O' && "OUTI"@[1] == 'U' && "OUTI"@[2] == 'T' && "OUTI"@[3] == 'I',
        "NOP"@.len() == 3 && "NOP"@[0] == 'N' && "NOP"@[1] == 'O' && "NOP"@[2] == 'P',
        "HALT"@.len() == 4 && "HALT"@[0] == 'H' && "HALT"@[1] == 'A' && "HALT"@[2] == 'L' && "HALT"@[3] == 'T',
        "DI"@.len() == 2 && "DI"@[0] == 'D' && "DI"@[1] == 'I',
        "EI"@.len() == 2 && "EI"@[0] == 'E' && "EI"@[1] == 'I',
        "RETI"@.len() == 4 && "RETI"@[0] == 'R' && "RETI"@[1] == 'E' && "RETI"@[2] == 'T' && "RETI"@[3] == 'I',
        "SWI"@.len() == 3 && "SWI"@[0] == 'S' && "SWI"@[1] == 'W' && "SWI"@[2] == 'I',
        "SCF"@.len() == 3 && "SCF"@[0] == 'S' && "SCF"@[1] == 'C' && "SCF"@[2] == 'F',
        "CCF"@.len() == 3 && "CCF"@[0] == 'C' && "CCF"@[1] == 'C' && "CCF"@[2] == 'F',
        "LIX"@.len() == 3 && "LIX"@[0] == 'L' && "LIX"@[1] == 'I' && "LIX"@[2] == 'X',
        "JX"@.len() == 2 && "JX"@[0] == 'J' && "JX"@[1] == 'X',
        "JALX"@.len() == 4 && "JALX"@[0] == 'J' && "JALX"@[1] == 'A' && "JALX"@[2] == 'L' && "JALX"@[3] == 'X',
        "NEG"@.len() == 3 && "NEG"@[0] == 'N' && "NEG"@[1] == 'E' && "NEG"@[2] == 'G',
        "NOT"@.len() == 3 && "NOT"@[0] == 'N' && "NOT"@[1] == 'O' && "NOT"@[2] == 'T',
        "ADDIX"@.len() == 5 && "ADDIX"@[0] == 'A' && "ADDIX"@[1] == 'D' && "ADDIX"@[2] == 'D' && "ADDIX"@[3] == 'I' && "ADDIX"@[4] == 'X',
        "SUBIX"@.len() == 5 && "SUBIX"@[0] == 'S' && "SUBIX"@[1] == 'U' && "SUBIX"@[2] == 'B' && "SUBIX"@[3] == 'I' && "SUBIX"@[4] == 'X',
        "ANDIX"@.len() == 5 && "ANDIX"@[0] == 'A' && "ANDIX"@[1] == 'N' && "ANDIX"@[2] == 'D' && "ANDIX"@[3] == 'I' && "ANDIX"@[4] == 'X',
        "ORIX"@.len() == 4 && "ORIX"@[0] == 'O' && "ORIX"@[1] == 'R' && "ORIX"@[2] == 'I' && "ORIX"@[3] == 'X',
        "XORIX"@.len() == 5 && "XORIX"@[0] == 'X' && "XORIX"@[1] == 'O' && "XORIX"@[2] == 'R' && "XORIX"@[3] == 'I' && "XORIX"@[4] == 'X',
        "LWX"@.len() == 3 && "LWX"@[0] == 'L' && "LWX"@[1] == 'W' && "LWX"@[2] == 'X',
        "SWX"@.len() == 3 && "SWX"@[0] == 'S' && "SWX"@[1] == 'W' && "SWX"@[2] == 'X',
        "CMPIX"@.len() == 5 && "CMPIX"@[0] == 'C' && "CMPIX"@[1] == 'M' && "CMPIX"@[2] == 'P' && "CMPIX"@[3] == 'I' && "CMPIX"@[4] == 'X',
        "INX"@.len() == 3 && "INX"@[0] == 'I' && "INX"@[1] == 'N' && "INX"@[2] == 'X',
        "OUTX"@.len() == 4 && "OUTX"@[0] == 'O' && "OUTX"@[1] == 'U' && "OUTX"@[2] == 'T' && "OUTX"@[3] == 'X',
        "SLLX"@.len() == 4 && "SLLX"@[0] == 'S' && "SLLX"@[1] == 'L' && "SLLX"@[2] == 'L' && "SLLX"@[3] == 'X',
        "SRLX"@.len() == 4 && "SRLX"@[0] == 'S' && "SRLX"@[1] == 'R' && "SRLX"@[2] == 'L' && "SRLX"@[3] == 'X',
        "SRAX"@.len() == 4 && "SRAX"@[0] == 'S' && "SRAX"@[1] == 'R' && "SRAX"@[2] == 'A' && "SRAX"@[3] == 'X',
{
    reveal_strlit("ADD");
    reveal_strlit("SUB");
    reveal_strlit("AND");
    reveal_strlit("OR");
    reveal_strlit("XOR");
    reveal_strlit("ADDI");
    reveal_strlit("LW");
    reveal_strlit("LB");
    reveal_strlit("LBU");
    reveal_strlit("LUI");
    reveal_strlit("SW");
    reveal_strlit("SB");
    reveal_strlit("BEQ");
    reveal_strlit("BNE");
    reveal_strlit("BLT");
    reveal_strlit("BGE");
    reveal_strlit("BLTU");
    reveal_strlit("BGEU");
    reveal_strlit("BMI");
    reveal_strlit("BPL");
    reveal_strlit("BVS");
    reveal_strlit("BVC");
    reveal_strlit("BCS");
    reveal_strlit("BCC");
    reveal_strlit("BGT");
    reveal_strlit("BLE");
    reveal_strlit("BHI");
    reveal_strlit("BLS");
    reveal_strlit("J");
    reveal_strlit("JR");
    reveal_strlit("JALR");
    reveal_strlit("JAL");
    reveal_strlit("SLL");
    reveal_strlit("SRL");
    reveal_strlit("SRA");
    reveal_strlit("ROL");
    reveal_strlit("ROR");
    reveal_strlit("SWAP");
    reveal_strlit("MUL");
    reveal_strlit("MULH");
    reveal_strlit("MULHU");
    reveal_strlit("DIV");
    reveal_strlit("DIVU");
    reveal_strlit("REM");
    reveal_strlit("REMU");
    reveal_strlit("DAA");
    reveal_strlit("PUSH");
    reveal_strlit("POP");
    reveal_strlit("CMP");
    reveal_strlit("TEST");
    reveal_strlit("MOV");
    reveal_strlit("LDI");
    reveal_strlit("LDD");
    reveal_strlit("LDIR");
    reveal_strlit("LDDR");
    reveal_strlit("CPIR");
    reveal_strlit("FILL");
    reveal_strlit("EXX");
    reveal_strlit("GETF");
    reveal_strlit("SETF");
    reveal_strlit("IN");
    reveal_strlit("INI");
    reveal_strlit("OUT");
    reveal_strlit("OUTI");
    reveal_strlit("NOP");
    reveal_strlit("HALT");
    reveal_strlit("DI");
    reveal_strlit("EI");
    reveal_strlit("RETI");
    reveal_strlit("SWI");
    reveal_strlit("SCF");
    reveal_strlit("CCF");
    reveal_strlit("LIX");
    reveal_strlit("JX");
    reveal_strlit("JALX");
    reveal_strlit("NEG");
    reveal_strlit("NOT");
    reveal_strlit("ADDIX");
    reveal_strlit("SUBIX");
    reveal_strlit("ANDIX");
    reveal_strlit("ORIX");
    reveal_strlit("XORIX");
    reveal_strlit("LWX");
    reveal_strlit("SWX");
    reveal_strlit("CMPIX");
    reveal_strlit("INX");
    reveal_strlit("OUTX");
    reveal_strlit("SLLX");
    reveal_strlit("SRLX");
    reveal_strlit("SRAX");
}

/// What each register name holds: its length and its characters.
pub proof fn lemma_register_spellings()
    ensures
        "R0"@.len() == 2 && "R0"@[0] == 'R' && "R0"@[1] == '0',
        "ZERO"@.len() == 4 && "ZERO"@[0] == 'Z' && "ZERO"@[1] == 'E' && "ZERO"@[2] == 'R' && "ZERO"@[3] == 'O',
        "R1"@.len() == 2 && "R1"@[0] == 'R' && "R1"@[1] == '1',
        "RA"@.len() == 2 && "RA"@[0] == 'R' && "RA"@[1] == 'A',
        "R2"@.len() == 2 && "R2"@[0] == 'R' && "R2"@[1] == '2',
        "SP"@.len() == 2 && "SP"@[0] == 'S' && "SP"@[1] == 'P',
        "R3"@.len() == 2 && "R3"@[0] == 'R' && "R3"@[1] == '3',
        "GP"@.len() == 2 && "GP"@[0] == 'G' && "GP"@[1] == 'P',
        "R4"@.len() == 2 && "R4"@[0] == 'R' && "R4"@[1] == '4',
        "A0"@.len() == 2 && "A0"@[0] == 'A' && "A0"@[1] == '0',
        "R5"@.len() == 2 && "R5"@[0] == 'R' && "R5"@[1] == '5',
        "A1"@.len() == 2 && "A1"@[0] == 'A' && "A1"@[1] == '1',
        "R6"@.len() == 2 && "R6"@[0] == 'R' && "R6"@[1] == '6',
        "A2"@.len() == 2 && "A2"@[0] == 'A' && "A2"@[1] == '2',
        "R7"@.len() == 2 && "R7"@[0] == 'R' && "R7"@[1] == '7',
        "A3"@.len() == 2 && "A3"@[0] == 'A' && "A3"@[1] == '3',
        "R8"@.len() == 2 && "R8"@[0] == 'R' && "R8"@[1] == '8',
        "T0"@.len() == 2 && "T0"@[0] == 'T' && "T0"@[1] == '0',
        "R9"@.len() == 2 && "R9"@[0] == 'R' && "R9"@[1] == '9',
        "T1"@.len() == 2 && "T1"@[0] == 'T' && "T1"@[1] == '1',
        "R10"@.len() == 3 && "R10"@[0] == 'R' && "R10"@[1] == '1' && "R10"@[2] == '0',
        "T2"@.len() == 2 && "T2"@[0] == 'T' && "T2"@[1] == '2',
        "R11"@.len() == 3 && "R11"@[0] == 'R' && "R11"@[1] == '1' && "R11"@[2] == '1',
        "T3"@.len() == 2 && "T3"@[0] == 'T' && "T3"@[1] == '3',
        "R12"@.len() == 3 && "R12"@[0] == 'R' && "R12"@[1] == '1' && "R12"@[2] == '2',
        "S0"@.len() == 2 && "S0"@[0] == 'S' && "S0"@[1] == '0',
        "R13"@.len() == 3 && "R13"@[0] == 'R' && "R13"@[1] == '1' && "R13"@[2] == '3',
        "S1"@.len() == 2 && "S1"@[0] == 'S' && "S1"@[1] == '1',
        "R14"@.len() == 3 && "R14"@[0] == 'R' && "R14"@[1] == '1' && "R14"@[2] == '4',
        "S2"@.len() == 2 && "S2"@[0] == 'S' && "S2"@[1] == '2',
        "R15"@.len() == 3 && "R15"@[0] == 'R' && "R15"@[1] == '1' && "R15"@[2] == '5',
        "S3"@.len() == 2 && "S3"@[0] == 'S' && "S3"@[1] == '3',
{
    reveal_strlit("R0");
    reveal_strlit("ZERO");
    reveal_strlit("R1");
    reveal_strlit("RA");
    reveal_strlit("R2");
    reveal_strlit("SP");
    reveal_strlit("R3");
    reveal_strlit("GP");
    reveal_strlit("R4");
    reveal_strlit("A0");
    reveal_strlit("R5");
    reveal_strlit("A1");
    reveal_strlit("R6");
    reveal_strlit("A2");
    reveal_strlit("R7");
    reveal_strlit("A3");
    reveal_strlit("R8");
    reveal_strlit("T0");
    reveal_strlit("R9");
    reveal_strlit("T1");
    reveal_strlit("R10");
    reveal_strlit("T2");
    reveal_strlit("R11");
    reveal_strlit("T3");
    reveal_strlit("R12");
    reveal_strlit("S0");
    reveal_strlit("R13");
    reveal_strlit("S1");
    reveal_strlit("R14");
    reveal_strlit("S2");
    reveal_strlit("R15");
    reveal_strlit("S3");
}

/// No mnemonic is spelled like a register: a mnemonic is a word of
/// upper-case letters that the lexer reads as a name.
#[verifier::rlimit(40)]
pub proof fn law_mnemonics_are_names(m: Mnemonic)
    ensures
        mnemonic_name(m).len() > 0,
        forall|i: int|
            0 <= i < mnemonic_name(m).len() ==> 'A' <= #[trigger] mnemonic_name(m)[i] <= 'Z',
        register_of(mnemonic_name(m)) is None,
{
    lemma_spellings();
    lemma_register_spellings();
}

/// The fields that the encoder fills are the fields that the decoder
/// reads: a word built from a base opcode, two registers and a low nibble
/// gives each of them back.
pub proof fn law_fields_round_trip(base: u16, rd: u8, rs1: u8, low: u16)
    requires
        base & 0x0FFF == 0,
        rd < 16,
        rs1 < 16,
        low < 16,
    ensures
        opcode_of(word_with(base, rd, rs1, low)) == base >> 12,
        rd_of(word_with(base, rd, rs1, low)) == rd,
        rs1_of(word_with(base, rd, rs1, low)) == rs1,
        func_of(word_with(base, rd, rs1, low)) == low,
{
    let w = word_with(base, rd, rs1, low);
    assert((w >> 12) & 0xF == base >> 12 && (w >> 8) & 0xF == rd as u16 && (w >> 4) & 0xF
        == rs1 as u16 && w & 0xF == low) by (bit_vector)
        requires
            w == base | ((rd as u16) << 8) | ((rs1 as u16) << 4) | low,
            base & 0x0FFF == 0,
            rd < 16,
            rs1 < 16,
            low < 16,
    ;
}

/// The immediate of `ADDI` comes back from the word with its sign.
pub proof fn law_addi_immediate(rd: u8, imm: i32)
    requires
        rd < 16,
        -128 <= imm <= 127,
    ensures
        opcode_of(word_with(0x5000, rd, 0, (imm as u8) as u16)) == 0x5,
        rd_of(word_with(0x5000, rd, 0, (imm as u8) as u16)) == rd,
        signed8(low(word_with(0x5000, rd, 0, (imm as u8) as u16))) == imm,
{
    let b = imm as u8;
    let w = word_with(0x5000, rd, 0, b as u16);
    assert((w >> 12) & 0xF == 0x5 && (w >> 8) & 0xF == rd as u16 && w & 0xFF == b as u16 && (imm
        >= 0 ==> b < 128 && b as i32 == imm) && (imm < 0 ==> b >= 128 && b as i32 == imm + 256))
        by (bit_vector)
        requires
            w == 0x5000u16 | ((rd as u16) << 8) | ((0u8 as u16) << 4) | (b as u16),
            b == imm as u8,
            rd < 16,
            -128 <= imm <= 127,
    ;
    lemma_fields_are_nibbles(w);
}

/// The displacement tables of the assembler and the emulator are each
/// other's inverse: the function code that the assembler chooses for a
/// word load or store is a word access, and the emulator gives it the
/// displacement that was written.
pub proof fn law_displacement_tables(offset: i32)
    ensures
        offset_to_func(offset, true) matches Ok(f) ==> f < 8 && f != 1 && f != 2
            && load_displacement(f) == offset,
        offset_to_func(offset, false) matches Ok(f) ==> f < 7 && f != 1 && store_displacement(f)
            == offset,
{
}

/// An `ADD` that the assembler has encoded is executed as an addition of
/// the two source registers into the destination, with the flags of the
/// addition.
pub proof fn law_add_executes(s: CpuState, rd: u8, rs1: u8, rs2: u8)
    requires
        rd < 16,
        rs1 < 16,
        rs2 < 16,
    ensures
        execute_spec(s, word_with(0x0000, rd, rs1, rs2 as u16)) == Some(
            with_flags(
                with_reg(s, rd as int, add_result(reg(s, rs1 as int), reg(s, rs2 as int))),
                add_flags(reg(s, rs1 as int), reg(s, rs2 as int)),
            ),
        ),
{
    assert(0x0000u16 >> 12 == 0 && 0x0000u16 & 0x0FFF == 0) by (bit_vector);
    law_fields_round_trip(0x0000, rd, rs1, rs2 as u16);
}

/// The name of a register, `R` and its number, is read back as that
/// register.
pub proof fn law_register_names(n: u8)
    requires
        n < 16,
    ensures
        register_of(reg_text(n as u16)) == Some(n),
        register_of(uppercase_of(reg_text(n as u16))) == Some(n),
{
    lemma_register_spelling(n);
    law_upper_case_is_fixed(reg_text(n as u16));
}

/// The name of a register is one of the sixteen spellings `R0` to `R15`:
/// the letter `R` and one or two digits.
pub proof fn lemma_register_spelling(n: u8)
    requires
        n < 16,
    ensures
        register_of(reg_text(n as u16)) == Some(n),
        2 <= reg_text(n as u16).len() <= 3,
        reg_text(n as u16)[0] == 'R',
        forall|i: int|
            1 <= i < reg_text(n as u16).len() ==> '0' <= #[trigger] reg_text(n as u16)[i] <= '9',
        forall|i: int|
            0 <= i < reg_text(n as u16).len() ==> is_ascii_char(#[trigger] reg_text(n as u16)[i])
                && !('a' <= reg_text(n as u16)[i] <= 'z'),
{
    reveal_strlit("R");
    reveal_strlit("R0");
    reveal_strlit("R1");
    reveal_strlit("R2");
    reveal_strlit("R3");
    reveal_strlit("R4");
    reveal_strlit("R5");
    reveal_strlit("R6");
    reveal_strlit("R7");
    reveal_strlit("R8");
    reveal_strlit("R9");
    reveal_strlit("R10");
    reveal_strlit("R11");
    reveal_strlit("R12");
    reveal_strlit("R13");
    reveal_strlit("R14");
    reveal_strlit("R15");
    reveal_strlit("ZERO");
    reveal_strlit("RA");
    reveal_strlit("SP");
    reveal_strlit("GP");
    reveal_strlit("A0");
    reveal_strlit("A1");
    reveal_strlit("A2");
    reveal_strlit("A3");
    reveal_strlit("T0");
    reveal_strlit("T1");
    reveal_strlit("T2");
    reveal_strlit("T3");
    reveal_strlit("S0");
    reveal_strlit("S1");
    reveal_strlit("S2");
    reveal_strlit("S3");
    let t = reg_text(n as u16);
    assert(dec_digits(n as nat) =~= if n < 10 {
        seq![digit_char(n as int)]
    } else {
        seq!['1', digit_char(n as int - 10)]
    }) by {
        reveal_with_fuel(dec_digits, 2);
    }
    if n < 10 {
        assert(t.len() == 2 && t[0] == 'R' && t[1] == digit_char(n as int));
    } else {
        assert(t.len() == 3 && t[0] == 'R' && t[1] == '1' && t[2] == digit_char(n as int - 10));
    }
    assert(t =~= if n == 0 {
        "R0"@
    } else if n == 1 {
        "R1"@
    } else if n == 2 {
        "R2"@
    } else if n == 3 {
        "R3"@
    } else if n == 4 {
        "R4"@
    } else if n == 5 {
        "R5"@
    } else if n == 6 {
        "R6"@
    } else if n == 7 {
        "R7"@
    } else if n == 8 {
        "R8"@
    } else if n == 9 {
        "R9"@
    } else if n == 10 {
        "R10"@
    } else if n == 11 {
        "R11"@
    } else if n == 12 {
        "R12"@
    } else if n == 13 {
        "R13"@
    } else if n == 14 {
        "R14"@
    } else {
        "R15"@
    });
}

/// The operands and the source text of an instruction in one of the forms
/// that name registers only: `m` is the mnemonic and `a`, `b`, `c` are the
/// registers in the order in which they are written.
pub open spec fn register_form(m: Mnemonic, a: u8, b: u8, c: u8) -> Option<
    (Seq<OperandView>, Seq<char>),
> {
    let name = mnemonic_name(m);
    match m {
        Mnemonic::Add | Mnemonic::Sub | Mnemonic::And | Mnemonic::Or | Mnemonic::Xor => Some(
            (
                seq![OperandView::Register(a), OperandView::Register(b), OperandView::Register(c)],
                regs3_text(name, a as u16, b as u16, c as u16),
            ),
        ),
        Mnemonic::Mul
        | Mnemonic::Mulh
        | Mnemonic::Mulhu
        | Mnemonic::Div
        | Mnemonic::Divu
        | Mnemonic::Rem
        | Mnemonic::Remu
        | Mnemonic::Compare
        | Mnemonic::Test
        | Mnemonic::Mov
        | Mnemonic::Sll
        | Mnemonic::Srl
        | Mnemonic::Sra
        | Mnemonic::Rol
        | Mnemonic::Ror
        | Mnemonic::Swap => Some(
            (
                seq![OperandView::Register(a), OperandView::Register(b)],
                regs2_text(name, a as u16, b as u16),
            ),
        ),
        Mnemonic::Jalr => if a != 0 {
            Some(
                (
                    seq![OperandView::Register(a), OperandView::Register(b)],
                    regs2_text(name, a as u16, b as u16),
                ),
            )
        } else {
            None
        },
        Mnemonic::Push
        | Mnemonic::Pop
        | Mnemonic::Getf
        | Mnemonic::Setf
        | Mnemonic::Jr
        | Mnemonic::Daa => Some((seq![OperandView::Register(a)], regs1_text(name, a as u16))),
        Mnemonic::Ldi
        | Mnemonic::Ldd
        | Mnemonic::Ldir
        | Mnemonic::Lddr
        | Mnemonic::Cpir
        | Mnemonic::Fill
        | Mnemonic::Exx
        | Mnemonic::Nop
        | Mnemonic::Halt
        | Mnemonic::Di
        | Mnemonic::Ei
        | Mnemonic::Reti
        | Mnemonic::Scf
        | Mnemonic::Ccf => Some((Seq::empty(), name)),
        Mnemonic::Lw | Mnemonic::Lb | Mnemonic::Lbu | Mnemonic::In => Some(
            (
                seq![OperandView::Register(a), OperandView::Indirect(b, 0)],
                indirect_text(name, a as u16, b as u16),
            ),
        ),
        Mnemonic::Out | Mnemonic::Sw | Mnemonic::Sb => Some(
            (
                seq![OperandView::Indirect(a, 0), OperandView::Register(b)],
                indirect_first_text(name, a as u16, b as u16),
            ),
        ),
        _ => None,
    }
}

/// The opcodes and function codes of the words that the register forms
/// are built on.
proof fn lemma_base_words()
    by (bit_vector)
    ensures
        0x0000u16 & 0x0FFF == 0 && 0x0000u16 >> 12 == 0x0,
        0x1000u16 & 0x0FFF == 0 && 0x1000u16 >> 12 == 0x1,
        0x2000u16 & 0x0FFF == 0 && 0x2000u16 >> 12 == 0x2,
        0x3000u16 & 0x0FFF == 0 && 0x3000u16 >> 12 == 0x3,
        0x4000u16 & 0x0FFF == 0 && 0x4000u16 >> 12 == 0x4,
        0x6000u16 & 0x0FFF == 0 && 0x6000u16 >> 12 == 0x6,
        0x7000u16 & 0x0FFF == 0 && 0x7000u16 >> 12 == 0x7,
        0xA000u16 & 0x0FFF == 0 && 0xA000u16 >> 12 == 0xA,
        0x9000u16 & 0x0FFF == 0 && 0x9000u16 >> 12 == 0x9,
        0xB000u16 & 0x0FFF == 0 && 0xB000u16 >> 12 == 0xB,
        0xC000u16 & 0x0FFF == 0 && 0xC000u16 >> 12 == 0xC,
        0xD000u16 & 0x0FFF == 0 && 0xD000u16 >> 12 == 0xD,
        (0xC005u16 >> 12) & 0xF == 0xC && 0xC005u16 & 0xF == 0x5,
        (0xC006u16 >> 12) & 0xF == 0xC && 0xC006u16 & 0xF == 0x6,
        (0xC007u16 >> 12) & 0xF == 0xC && 0xC007u16 & 0xF == 0x7,
        (0xC008u16 >> 12) & 0xF == 0xC && 0xC008u16 & 0xF == 0x8,
        (0xC009u16 >> 12) & 0xF == 0xC && 0xC009u16 & 0xF == 0x9,
        (0xC00Au16 >> 12) & 0xF == 0xC && 0xC00Au16 & 0xF == 0xA,
        (0xC00Bu16 >> 12) & 0xF == 0xC && 0xC00Bu16 & 0xF == 0xB,
        (0xE000u16 >> 12) & 0xF == 0xE && (0xE000u16 >> 8) & 0xF == 0x0,
        (0xE100u16 >> 12) & 0xF == 0xE && (0xE100u16 >> 8) & 0xF == 0x1,
        (0xE200u16 >> 12) & 0xF == 0xE && (0xE200u16 >> 8) & 0xF == 0x2,
        (0xE300u16 >> 12) & 0xF == 0xE && (0xE300u16 >> 8) & 0xF == 0x3,
        (0xE400u16 >> 12) & 0xF == 0xE && (0xE400u16 >> 8) & 0xF == 0x4,
        (0xE600u16 >> 12) & 0xF == 0xE && (0xE600u16 >> 8) & 0xF == 0x6,
        (0xE700u16 >> 12) & 0xF == 0xE && (0xE700u16 >> 8) & 0xF == 0x7,
{
}

/// The fields of the word of `JR`.
proof fn lemma_jr_word(rs: u8)
    requires
        rs < 16,
    ensures
        opcode_of(word_with(0x9F00, 0, rs, 0)) == 0x9,
        rd_of(word_with(0x9F00, 0, rs, 0)) == 0xF,
        rs1_of(word_with(0x9F00, 0, rs, 0)) == rs,
        func_of(word_with(0x9F00, 0, rs, 0)) == 0,
{
    let w = word_with(0x9F00, 0, rs, 0);
    assert((w >> 12) & 0xF == 0x9 && (w >> 8) & 0xF == 0xF && (w >> 4) & 0xF == rs as u16 && w
        & 0xF == 0) by (bit_vector)
        requires
            w == 0x9F00u16 | ((0u8 as u16) << 8) | ((rs as u16) << 4) | 0x0u16,
            rs < 16,
    ;
}

/// Every instruction in a register form is disassembled to its source
/// text: the word that the assembler makes of it is one that the
/// disassembler renders as the mnemonic followed by the same registers in
/// the same order.
#[verifier::rlimit(40)]
pub proof fn law_register_forms_round_trip(
    m: Mnemonic,
    a: u8,
    b: u8,
    c: u8,
    spelling: Seq<char>,
    symbols: Map<Seq<char>, u16>,
    imm: u16,
)
    requires
        a < 16,
        b < 16,
        c < 16,
        register_form(m, a, b, c) is Some,
    ensures
        encode_spec(m, spelling, register_form(m, a, b, c)->Some_0.0, symbols) matches Ok(
            EncodedView::Short(w),
        ) && instruction_text(w, imm) == register_form(m, a, b, c)->Some_0.1 && instruction_len(w)
            == 2,
{
    lemma_base_words();
    let ops = register_form(m, a, b, c)->Some_0.0;
    match m {
        Mnemonic::Add => law_fields_round_trip(0x0000, a, b, c as u16),
        Mnemonic::Sub => law_fields_round_trip(0x1000, a, b, c as u16),
        Mnemonic::And => law_fields_round_trip(0x2000, a, b, c as u16),
        Mnemonic::Or => law_fields_round_trip(0x3000, a, b, c as u16),
        Mnemonic::Xor => law_fields_round_trip(0x4000, a, b, c as u16),
        Mnemonic::Mul => law_fields_round_trip(0xB000, a, b, 0x0),
        Mnemonic::Mulh => law_fields_round_trip(0xB000, a, b, 0x1),
        Mnemonic::Mulhu => law_fields_round_trip(0xB000, a, b, 0x2),
        Mnemonic::Div => law_fields_round_trip(0xB000, a, b, 0x3),
        Mnemonic::Divu => law_fields_round_trip(0xB000, a, b, 0x4),
        Mnemonic::Rem => law_fields_round_trip(0xB000, a, b, 0x5),
        Mnemonic::Remu => law_fields_round_trip(0xB000, a, b, 0x6),
        Mnemonic::Compare => law_fields_round_trip(0xC000, a, b, 0x2),
        Mnemonic::Test => law_fields_round_trip(0xC000, a, b, 0x3),
        Mnemonic::Mov => law_fields_round_trip(0xC000, a, b, 0x4),
        Mnemonic::Sll => law_fields_round_trip(0xA000, a, b, 0x0),
        Mnemonic::Srl => law_fields_round_trip(0xA000, a, b, 0x1),
        Mnemonic::Sra => law_fields_round_trip(0xA000, a, b, 0x2),
        Mnemonic::Rol => law_fields_round_trip(0xA000, a, b, 0x3),
        Mnemonic::Ror => law_fields_round_trip(0xA000, a, b, 0x4),
        Mnemonic::Swap => law_fields_round_trip(0xA000, a, b, 0x7),
        Mnemonic::Daa => law_fields_round_trip(0xB000, a, 0, 0x7),
        Mnemonic::Sw => law_fields_round_trip(0x7000, b, a, 0x0),
        Mnemonic::Sb => law_fields_round_trip(0x7000, b, a, 0x1),
        Mnemonic::Jalr => law_fields_round_trip(0x9000, a, b, 0x1),
        Mnemonic::Push => law_fields_round_trip(0xC000, 0, a, 0x0),
        Mnemonic::Pop => law_fields_round_trip(0xC000, a, 0, 0x1),
        Mnemonic::Getf => law_fields_round_trip(0xC000, a, 0, 0xC),
        Mnemonic::Setf => law_fields_round_trip(0xC000, 0, a, 0xD),
        Mnemonic::Lw => law_fields_round_trip(0x6000, a, b, 0x0),
        Mnemonic::Lb => law_fields_round_trip(0x6000, a, b, 0x1),
        Mnemonic::Lbu => law_fields_round_trip(0x6000, a, b, 0x2),
        Mnemonic::In => law_fields_round_trip(0xD000, a, b, 0x2),
        Mnemonic::Out => law_fields_round_trip(0xD000, a, b, 0x3),
        Mnemonic::Jr => lemma_jr_word(a),
        _ => {},
    }
}

/// The forms with a number are disassembled with that number: `ADDI` with
/// its signed immediate in decimal, `LIX`, `JX` and `JALX` with their word
/// in four hexadecimal digits, and `SWI` with its byte in two.
#[verifier::rlimit(40)]
pub proof fn law_number_forms_round_trip(
    rd: u8,
    imm: i32,
    spelling: Seq<char>,
    symbols: Map<Seq<char>, u16>,
)
    requires
        rd < 16,
    ensures
        -128 <= imm <= 127 ==> (encode_spec(
            Mnemonic::Addi,
            spelling,
            seq![OperandView::Register(rd), OperandView::Immediate(imm)],
            symbols,
        ) matches Ok(EncodedView::Short(w)) && instruction_text(w, 0) == reg_then_text(
            "ADDI"@,
            rd as u16,
            dec_text(imm as int),
        )),
        encode_spec(
            Mnemonic::Lix,
            spelling,
            seq![OperandView::Register(rd), OperandView::Immediate(imm)],
            symbols,
        ) matches Ok(EncodedView::Long(w, v)) && v == imm as u16 && instruction_text(w, v)
            == reg_then_text("LIX"@, rd as u16, hex_text(v, 4)) && instruction_len(w) == 4,
        encode_spec(Mnemonic::Jx, spelling, seq![OperandView::Immediate(imm)], symbols) matches Ok(
            EncodedView::Long(w, v),
        ) && v == imm as u16 && instruction_text(w, v) == word_then_text("JX"@, hex_text(v, 4))
            && instruction_len(w) == 4,
        encode_spec(Mnemonic::Jalx, spelling, seq![OperandView::Immediate(imm)], symbols)
            matches Ok(EncodedView::Long(w, v)) && v == imm as u16 && instruction_text(w, v)
            == word_then_text("JALX"@, hex_text(v, 4)) && instruction_len(w) == 4,
        0 <= imm <= 255 ==> (encode_spec(
            Mnemonic::Swi,
            spelling,
            seq![OperandView::Immediate(imm)],
            symbols,
        ) matches Ok(EncodedView::Short(w)) && instruction_text(w, 0) == word_then_text(
            "SWI"@,
            hex_text(imm as u16, 2),
        )),
{
    if -128 <= imm <= 127 {
        law_addi_immediate(rd, imm);
    }
    let lix = word_with(0xF000, rd, 0, 0x07);
    assert((lix >> 12) & 0xF == 0xF && (lix >> 8) & 0xF == rd as u16 && lix & 0xF == 0x7)
        by (bit_vector)
        requires
            lix == 0xF000u16 | ((rd as u16) << 8) | ((0u8 as u16) << 4) | 0x07u16,
            rd < 16,
    ;
    assert((0xF008u16 >> 12) & 0xF == 0xF && 0xF008u16 & 0xF == 0x8) by (bit_vector);
    assert((0xF109u16 >> 12) & 0xF == 0xF && (0xF109u16 >> 8) & 0xF == 0x1 && 0xF109u16 & 0xF
        == 0x9) by (bit_vector);
    if 0 <= imm <= 255 {
        let b = imm as u8;
        let swi: u16 = 0xE500 | (b as u16);
        assert((swi >> 12) & 0xF == 0xE && (swi >> 8) & 0xF == 0x5 && swi % 256 == imm as u16
            && b as i32 == imm) by (bit_vector)
            requires
                swi == 0xE500u16 | (b as u16),
                b == imm as u8,
                0 <= imm <= 255,
        ;
    }
}

/// A word load or store that the assembler has encoded is executed with
/// the displacement that was written: the two displacement tables agree.
pub proof fn law_word_access_executes(s: CpuState, r: u8, base: u8, offset: i32)
    requires
        r < 16,
        base < 16,
    ensures
        word_load_form(seq![OperandView::Register(r), OperandView::Indirect(base, offset)])
            matches Ok(EncodedView::Short(w)) ==> execute_spec(s, w) == Some(
            with_reg(s, r as int, word_at(s, wrap16(reg(s, base as int) + offset))),
        ),
        word_store_form(seq![OperandView::Indirect(base, offset), OperandView::Register(r)])
            matches Ok(EncodedView::Short(w)) ==> execute_spec(s, w) == Some(
            with_word(s, wrap16(reg(s, base as int) + offset), reg(s, r as int)),
        ),
{
    lemma_base_words();
    law_displacement_tables(offset);
    assert(0x7000u16 & 0x0FFF == 0 && 0x7000u16 >> 12 == 0x7) by (bit_vector);
    match offset_to_func(offset, true) {
        Ok(f) => law_fields_round_trip(0x6000, r, base, f),
        Err(_) => {},
    }
    match offset_to_func(offset, false) {
        Ok(f) => law_fields_round_trip(0x7000, r, base, f),
        Err(_) => {},
    }
}

/// `OUT (Rd), Rs` as the assembler encodes it writes the low byte of `Rs`
/// to the port that the low byte of `Rd` names, and `IN Rd, (Rs)` reads
/// the port that the low byte of `Rs` names into `Rd`.
pub proof fn law_port_access_executes(s: CpuState, a: u8, b: u8)
    requires
        a < 16,
        b < 16,
    ensures
        out_form(seq![OperandView::Indirect(a, 0), OperandView::Register(b)]) matches Ok(
            EncodedView::Short(w),
        ) && execute_spec(s, w) == Some(
            after_port_write(s, low(reg(s, a as int)), low(reg(s, b as int))),
        ),
        in_form(seq![OperandView::Register(a), OperandView::Indirect(b, 0)]) matches Ok(
            EncodedView::Short(w),
        ) && execute_spec(s, w) == Some(
            with_reg(
                after_port_read(s, low(reg(s, b as int))),
                a as int,
                port_value(s, low(reg(s, b as int))) as u16,
            ),
        ),
{
    lemma_base_words();
    law_fields_round_trip(0xD000, a, b, 0x3);
    law_fields_round_trip(0xD000, a, b, 0x2);
}

/// `LUI Rd, imm` as the assembler encodes it is a load that the emulator
/// recognises, and it loads the high nibble of the immediate's low byte
/// into bits 11..8 of `Rd`.
pub proof fn law_lui_executes(s: CpuState, rd: u8, imm: i32, symbols: Map<Seq<char>, u16>)
    requires
        rd < 16,
    ensures
        lui_form(seq![OperandView::Register(rd), OperandView::Immediate(imm)], symbols) matches Ok(
            EncodedView::Short(w),
        ) && execute_spec(s, w) == Some(
            with_reg(s, rd as int, (((imm as u8) / 16) * 256) as u16),
        ),
{
    let b = imm as u8;
    let w = word_with(0x6000, rd, 0, ((b & 0xF0) as u16) | 0x08);
    assert((w >> 12) & 0xF == 0x6 && (w >> 8) & 0xF == rd as u16 && (w >> 4) & 0xF == (b
        / 16) as u16 && w & 0xF == 0x8) by (bit_vector)
        requires
            w == 0x6000u16 | ((rd as u16) << 8) | ((0u8 as u16) << 4) | (((b & 0xF0) as u16)
                | 0x08u16),
            rd < 16,
    ;
}

/// The condition code of a branch mnemonic.
pub open spec fn branch_condition(m: Mnemonic) -> Option<u16> {
    match m {
        Mnemonic::Beq => Some(0x0),
        Mnemonic::Bne => Some(0x1),
        Mnemonic::Blt => Some(0x2),
        Mnemonic::Bge => Some(0x3),
        Mnemonic::Bltu => Some(0x4),
        Mnemonic::Bgeu => Some(0x5),
        Mnemonic::Bmi => Some(0x6),
        Mnemonic::Bpl => Some(0x7),
        Mnemonic::Bvs => Some(0x8),
        Mnemonic::Bvc => Some(0x9),
        Mnemonic::Bcs => Some(0xA),
        Mnemonic::Bcc => Some(0xB),
        Mnemonic::Bgt => Some(0xC),
        Mnemonic::Ble => Some(0xD),
        Mnemonic::Bhi => Some(0xE),
        Mnemonic::Bls => Some(0xF),
        _ => None,
    }
}

/// The fields of the word of a branch: the opcode, the condition, and the
/// distance in words with its sign.
proof fn lemma_branch_word(cond: u16, off: i32)
    requires
        cond < 16,
        -128 <= off <= 127,
    ensures
        opcode_of(branch_word(cond, off)) == 0x8,
        rd_of(branch_word(cond, off)) == cond,
        signed8(low(branch_word(cond, off))) == off,
{
    let b = off as u8;
    let w = branch_word(cond, off);
    assert((w >> 12) & 0xF == 0x8 && (w >> 8) & 0xF == cond && w % 256 == b as u16 && (off >= 0
        ==> b < 128 && b as i32 == off) && (off < 0 ==> b >= 128 && b as i32 == off + 256))
        by (bit_vector)
        requires
            w == 0x8000u16 | (cond << 8) | (b as u16),
            b == off as u8,
            cond < 16,
            -128 <= off <= 127,
    ;
}

/// The fields of the word of a relative jump: the opcode, and the
/// distance in words with its sign.
proof fn lemma_jump_word(off: i32)
    requires
        -2048 <= off <= 2047,
    ensures
        opcode_of(jump_word(off)) == 0x9,
        signed12(jump_word(off)) == off,
{
    let w = jump_word(off);
    let f = (off as u16) & 0x0FFF;
    assert((w >> 12) & 0xF == 0x9 && w % 0x1000 == f && f < 0x1000 && (off >= 0 ==> f < 0x800
        && f as i32 == off) && (off < 0 ==> f >= 0x800 && f as i32 == off + 0x1000))
        by (bit_vector)
        requires
            w == 0x9000u16 | f,
            f == (off as u16) & 0x0FFF,
            -2048 <= off <= 2047,
    ;
}

/// A branch over an even byte distance is disassembled to its source
/// text: the mnemonic, then the distance in decimal.
pub proof fn law_branch_forms_round_trip(
    m: Mnemonic,
    distance: i32,
    spelling: Seq<char>,
    symbols: Map<Seq<char>, u16>,
)
    requires
        branch_condition(m) is Some,
        -256 <= distance <= 254,
        distance % 2 == 0,
    ensures
        encode_spec(m, spelling, seq![OperandView::Immediate(distance)], symbols) matches Ok(
            EncodedView::Short(w),
        ) && instruction_text(w, 0) == word_then_text(mnemonic_name(m), dec_text(distance as int))
            && instruction_len(w) == 2,
{
    let cond = branch_condition(m)->Some_0;
    let off = half(distance as int) as i32;
    assert(off * 2 == distance);
    lemma_branch_word(cond, off);
}

/// A relative jump over an even byte distance is disassembled to its
/// source text, `J` and the distance in decimal, unless its word is one
/// that the emulator executes as a jump through a register.
pub proof fn law_jump_form_round_trip(
    distance: i32,
    spelling: Seq<char>,
    symbols: Map<Seq<char>, u16>,
)
    requires
        -4096 <= distance <= 4094,
        distance % 2 == 0,
        !is_register_jump(jump_word((distance / 2) as i32)),
    ensures
        encode_spec(Mnemonic::J, spelling, seq![OperandView::Immediate(distance)], symbols)
            matches Ok(EncodedView::Short(w)) && instruction_text(w, 0) == word_then_text(
            "J"@,
            dec_text(distance as int),
        ) && instruction_len(w) == 2,
{
    let off = half(distance as int) as i32;
    assert(off * 2 == distance);
    assert(off == distance / 2);
    lemma_jump_word(off);
}

/// `LUI` with a multiple of 16 below 256 is disassembled to its source
/// text: the register, then the number in two hexadecimal digits.
pub proof fn law_lui_form_round_trip(
    rd: u8,
    imm: i32,
    spelling: Seq<char>,
    symbols: Map<Seq<char>, u16>,
)
    requires
        rd < 16,
        0 <= imm <= 240,
        imm % 16 == 0,
    ensures
        encode_spec(
            Mnemonic::Lui,
            spelling,
            seq![OperandView::Register(rd), OperandView::Immediate(imm)],
            symbols,
        ) matches Ok(EncodedView::Short(w)) && instruction_text(w, 0) == reg_then_text(
            "LUI"@,
            rd as u16,
            hex_text(imm as u16, 2),
        ) && instruction_len(w) == 2,
{
    let b = imm as u8;
    let w = word_with(0x6000, rd, 0, ((b & 0xF0) as u16) | 0x08);
    assert((w >> 12) & 0xF == 0x6 && (w >> 8) & 0xF == rd as u16 && ((w >> 4) & 0xF) * 16
        == imm as u16 && w & 0xF == 0x8) by (bit_vector)
        requires
            w == 0x6000u16 | ((rd as u16) << 8) | ((0u8 as u16) << 4) | (((b & 0xF0) as u16)
                | 0x08u16),
            b == imm as u8,
            rd < 16,
            0 <= imm <= 240,
            imm % 16 == 0,
    ;
}

/// A word load or store with a displacement is disassembled to its
/// source text: `LW Rd, off(Rs)` and `SW off(Rs1), Rs2`, with the
/// displacement in decimal.
pub proof fn law_displaced_forms_round_trip(
    r: u8,
    base: u8,
    offset: i32,
    spelling: Seq<char>,
    symbols: Map<Seq<char>, u16>,
)
    requires
        r < 16,
        base < 16,
        offset == 2 || offset == 4 || offset == 6 || offset == -2 || offset == -4,
    ensures
        encode_spec(
            Mnemonic::Lw,
            spelling,
            seq![OperandView::Register(r), OperandView::Indirect(base, offset)],
            symbols,
        ) matches Ok(EncodedView::Short(w)) && instruction_text(w, 0) == displaced_text(
            "LW"@,
            r as u16,
            dec_text(offset as int),
            base as u16,
        ) && instruction_len(w) == 2,
        encode_spec(
            Mnemonic::Sw,
            spelling,
            seq![OperandView::Indirect(base, offset), OperandView::Register(r)],
            symbols,
        ) matches Ok(EncodedView::Short(w)) && instruction_text(w, 0) == displaced_first_text(
            "SW"@,
            dec_text(offset as int),
            base as u16,
            r as u16,
        ) && instruction_len(w) == 2,
{
    lemma_base_words();
    law_displacement_tables(offset);
    law_fields_round_trip(0x6000, r, base, offset_to_func(offset, true)->Ok_0);
    law_fields_round_trip(0x7000, r, base, offset_to_func(offset, false)->Ok_0);
}

} // verus!
