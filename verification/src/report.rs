//! Reports on the state of the machine as text: the trace line of an
//! instruction, the short and the full dump of the processor, and a dump
//! of memory. The library only builds the text; printing it is left to
//! the program around it.

use crate::alu::{FLAG_C, FLAG_I, FLAG_N, FLAG_V, FLAG_Z, is_set};
use crate::cpu::Cpu;
use crate::isa::{
    func_field, func_of, opcode, opcode_of, rd_field, rd_of, rs1_field, rs1_of, signed8, wrap16,
};
use crate::machine::{CpuState, byte_at, low, reg, word_at};
use crate::text::{dec_digits, dec_text, hex_digits, push_char, push_dec, push_hex, push_int};
use vstd::prelude::*;
use vstd::string::*;

verus! {

/// The family name that the trace gives an opcode from 6 on.
pub open spec fn family_name(op: u16) -> Seq<char> {
    if op == 0x6 {
        "LOAD"@
    } else if op == 0x7 {
        "STORE"@
    } else if op == 0xA {
        "SHIFT"@
    } else if op == 0xB {
        "MULDIV"@
    } else if op == 0xC {
        "MISC"@
    } else if op == 0xD {
        "I/O"@
    } else {
        "EXTENDED"@
    }
}

/// What the trace says of an instruction word: its family, its register
/// fields and its function code.
pub open spec fn trace_body(instr: u16) -> Seq<char> {
    let op = opcode_of(instr);
    let rd = dec_digits(rd_of(instr) as nat);
    let rs1 = dec_digits(rs1_of(instr) as nat);
    let rs2 = dec_digits(func_of(instr) as nat);
    let imm = dec_text(signed8(low(instr)));
    if op <= 0x4 {
        crate::disasm::regs3_text(
            crate::disasm::alu_name(op),
            rd_of(instr),
            rs1_of(instr),
            func_of(instr),
        )
    } else if op == 0x5 {
        "ADDI R"@ + rd + ", "@ + imm
    } else if op == 0x6 || op == 0x7 {
        family_name(op) + " R"@ + rd + ", (R"@ + rs1 + ") func="@ + rs2
    } else if op == 0x8 {
        "BRANCH cond="@ + rd + ", offset="@ + imm
    } else if op == 0x9 {
        "JUMP "@ + hex_digits((instr % 0x1000) as nat, 3)
    } else if op == 0xA || op == 0xB || op == 0xC {
        family_name(op) + " R"@ + rd + ", R"@ + rs1 + ", func="@ + rs2
    } else if op == 0xD {
        "I/O R"@ + rd + ", port="@ + rs1 + ", func="@ + rs2
    } else if op == 0xE {
        "SYSTEM func="@ + rd
    } else {
        "EXTENDED R"@ + rd + ", R"@ + rs1 + ", sub="@ + rs2
    }
}

/// The trace line of the instruction word `instr` at address `pc`.
pub open spec fn trace_text(pc: u16, instr: u16) -> Seq<char> {
    hex_digits(pc as nat, 4) + ": "@ + hex_digits(instr as nat, 4) + "  "@ + trace_body(instr)
}

/// The short dump: the program counter, three registers and the flags.
pub open spec fn short_text(s: CpuState) -> Seq<char> {
    "PC="@ + hex_digits(s.pc as nat, 4) + " R4="@ + hex_digits(reg(s, 4) as nat, 4) + " R5="@
        + hex_digits(reg(s, 5) as nat, 4) + " R6="@ + hex_digits(reg(s, 6) as nat, 4) + " FLAGS="@
        + hex_digits(s.flags as nat, 2)
}

/// The letter of a flag, or a dash when the flag is clear.
pub open spec fn flag_letter(flags: u8, mask: u8, letter: char) -> char {
    if is_set(flags, mask) {
        letter
    } else {
        '-'
    }
}

/// The four arithmetic flags as letters.
pub open spec fn flags_text(flags: u8) -> Seq<char> {
    seq![
        flag_letter(flags, FLAG_N, 'N'),
        flag_letter(flags, FLAG_Z, 'Z'),
        flag_letter(flags, FLAG_C, 'C'),
        flag_letter(flags, FLAG_V, 'V'),
    ]
}

/// A register number in two columns.
pub open spec fn padded_number(n: int) -> Seq<char> {
    if n < 10 {
        seq![' '] + dec_digits(n as nat)
    } else {
        dec_digits(n as nat)
    }
}

/// One register of the full dump.
pub open spec fn register_cell(s: CpuState, r: int) -> Seq<char> {
    "  R"@ + padded_number(r) + "="@ + hex_digits(reg(s, r) as nat, 4)
}

/// The first `n` rows of registers of the full dump, four registers to a
/// row.
pub open spec fn register_rows(s: CpuState, n: int) -> Seq<char>
    decreases n,
{
    if n <= 0 {
        Seq::empty()
    } else {
        register_rows(s, n - 1) + register_cell(s, 4 * (n - 1)) + register_cell(s, 4 * (n - 1) + 1)
            + register_cell(s, 4 * (n - 1) + 2) + register_cell(s, 4 * (n - 1) + 3) + "\n"@
    }
}

/// A lower-case hexadecimal digit.
pub open spec fn lower_digit(d: int) -> char {
    if d < 10 {
        (48 + d) as char
    } else {
        (87 + d) as char
    }
}

/// A byte of serial output as it is shown: printable characters as they
/// are, quotes and the backslash behind a backslash, tab, carriage return
/// and line feed by their letters, and any other byte by its code.
pub open spec fn escaped(b: u8) -> Seq<char> {
    if b == 0x09 {
        seq!['\\', 't']
    } else if b == 0x0D {
        seq!['\\', 'r']
    } else if b == 0x0A {
        seq!['\\', 'n']
    } else if b == 0x27 || b == 0x22 || b == 0x5C {
        seq!['\\', b as char]
    } else if 0x20 <= b <= 0x7E {
        seq![b as char]
    } else if b < 16 {
        seq!['\\', 'u', '{', lower_digit(b as int), '}']
    } else {
        seq!['\\', 'u', '{', lower_digit(b as int / 16), lower_digit(b as int % 16), '}']
    }
}

/// The first `n` bytes of serial output as they are shown.
pub open spec fn escaped_all(bytes: Seq<u8>, n: int) -> Seq<char>
    decreases n,
{
    if n <= 0 {
        Seq::empty()
    } else {
        escaped_all(bytes, n - 1) + escaped(bytes[n - 1])
    }
}

/// The full dump: the program counter, the flags, the sixteen registers,
/// the cycle count and, if there is any, the serial output.
pub open spec fn state_text(s: CpuState) -> Seq<char> {
    "\n=== CPU State ===\nPC: "@ + hex_digits(s.pc as nat, 4) + "  Flags: "@ + hex_digits(
        s.flags as nat,
        2,
    ) + " ["@ + flags_text(s.flags) + "]\n\nRegisters:\n"@ + register_rows(s, 4) + "\nCycles: "@
        + dec_digits(s.cycles as nat) + "\n"@ + (if s.serial_out.len() > 0 {
        "\nSerial output:\n  \""@ + escaped_all(s.serial_out, s.serial_out.len() as int) + "\"\n"@
    } else {
        Seq::empty()
    })
}

/// One byte of a memory dump: the `j`th of the row that starts with the
/// `i`th of the `len` bytes from `addr` on, if the dump reaches that far.
pub open spec fn memory_cell(s: CpuState, addr: u16, len: int, i: int, j: int) -> Seq<char> {
    if i + j < len {
        hex_digits(byte_at(s, wrap16(addr + i + j)) as nat, 2) + " "@
    } else {
        Seq::empty()
    }
}

/// The first `j` bytes of the row of a memory dump that starts with the
/// `i`th of the `len` bytes from `addr` on.
pub open spec fn row_bytes(s: CpuState, addr: u16, len: int, i: int, j: int) -> Seq<char>
    decreases j,
{
    if j <= 0 {
        Seq::empty()
    } else {
        row_bytes(s, addr, len, i, j - 1) + memory_cell(s, addr, len, i, j - 1)
    }
}

/// One row of a memory dump: its address and its bytes.
pub open spec fn memory_row(s: CpuState, addr: u16, len: int, i: int) -> Seq<char> {
    hex_digits(wrap16(addr + i) as nat, 4) + ": "@ + row_bytes(s, addr, len, i, 16) + "\n"@
}

/// The rows of a memory dump from the `i`th byte on.
pub open spec fn memory_rows(s: CpuState, addr: u16, len: int, i: int) -> Seq<char>
    decreases (if i < len { len - i } else { 0 }),
{
    if i >= len {
        Seq::empty()
    } else {
        memory_row(s, addr, len, i) + memory_rows(s, addr, len, i + 16)
    }
}

/// A dump of `len` bytes of memory from `addr` on, sixteen to a row.
pub open spec fn memory_text(s: CpuState, addr: u16, len: int) -> Seq<char> {
    "Memory at "@ + hex_digits(addr as nat, 4) + ":\n"@ + memory_rows(s, addr, len, 0)
}

fn push_register_cell(out: &mut String, cpu: &Cpu, r: usize)
    requires
        r < 16,
    ensures
        final(out)@ == old(out)@ + register_cell(cpu@, r as int),
{
    out.append("  R");
    if r < 10 {
        push_char(out, ' ');
    }
    push_dec(out, r as u64);
    out.append("=");
    push_hex(out, cpu.get_register(r) as u32, 4);
    assert(final(out)@ =~= old(out)@ + register_cell(cpu@, r as int));
}

fn push_byte_cell(out: &mut String, byte: u8)
    ensures
        final(out)@ == old(out)@ + (hex_digits(byte as nat, 2) + " "@),
{
    push_hex(out, byte as u32, 2);
    out.append(" ");
    assert(final(out)@ =~= old(out)@ + (hex_digits(byte as nat, 2) + " "@));
}

fn push_escaped(out: &mut String, b: u8)
    ensures
        final(out)@ == old(out)@ + escaped(b),
{
    if b == 0x09 {
        out.append("\\t");
        proof {
            reveal_strlit("\\t");
        }
    } else if b == 0x0D {
        out.append("\\r");
        proof {
            reveal_strlit("\\r");
        }
    } else if b == 0x0A {
        out.append("\\n");
        proof {
            reveal_strlit("\\n");
        }
    } else if b == 0x27 || b == 0x22 || b == 0x5C {
        push_char(out, '\\');
        push_char(out, b as char);
    } else if b >= 0x20 && b <= 0x7E {
        push_char(out, b as char);
    } else {
        out.append("\\u{");
        proof {
            reveal_strlit("\\u{");
        }
        if b >= 16 {
            push_char(out, lower_digit_of(b / 16));
        }
        push_char(out, lower_digit_of(b % 16));
        push_char(out, '}');
    }
    assert(final(out)@ =~= old(out)@ + escaped(b));
}

fn lower_digit_of(d: u8) -> (c: char)
    requires
        d < 16,
    ensures
        c == lower_digit(d as int),
{
    if d < 10 {
        (48 + d) as char
    } else {
        (87 + d) as char
    }
}

fn flag_letter_of(flags: u8, mask: u8, letter: char) -> (c: char)
    ensures
        c == flag_letter(flags, mask, letter),
{
    if flags & mask != 0 {
        letter
    } else {
        '-'
    }
}

/// The signed value of the low byte of a word.
fn low_signed(instr: u16) -> (i: i32)
    ensures
        i == signed8(low(instr)),
{
    let b = instr % 256;
    if b < 128 {
        b as i32
    } else {
        b as i32 - 256
    }
}

fn family_name_of(op: u16) -> (s: &'static str)
    ensures
        s@ == family_name(op),
{
    if op == 0x6 {
        "LOAD"
    } else if op == 0x7 {
        "STORE"
    } else if op == 0xA {
        "SHIFT"
    } else if op == 0xB {
        "MULDIV"
    } else if op == 0xC {
        "MISC"
    } else if op == 0xD {
        "I/O"
    } else {
        "EXTENDED"
    }
}

/// Builds the trace line of the instruction word `instr` at address `pc`.
#[verifier::rlimit(40)]
pub fn trace_line(pc: u16, instr: u16) -> (s: String)
    ensures
        s@ == trace_text(pc, instr),
{
    let op = opcode(instr);
    let rd = rd_field(instr) as u64;
    let rs1 = rs1_field(instr) as u64;
    let rs2 = func_field(instr) as u64;
    let mut s = String::new();
    push_hex(&mut s, pc as u32, 4);
    s.append(": ");
    push_hex(&mut s, instr as u32, 4);
    s.append("  ");
    let ghost head = s@;
    assert(head =~= hex_digits(pc as nat, 4) + ": "@ + hex_digits(instr as nat, 4) + "  "@);
    if op <= 0x4 {
        let body = crate::disasm::render_instruction(instr, 0);
        s.append(body.as_str());
    } else if op == 0x5 {
        s.append("ADDI R");
        push_dec(&mut s, rd);
        s.append(", ");
        push_int(&mut s, low_signed(instr));
    } else if op == 0x6 || op == 0x7 {
        s.append(family_name_of(op));
        s.append(" R");
        push_dec(&mut s, rd);
        s.append(", (R");
        push_dec(&mut s, rs1);
        s.append(") func=");
        push_dec(&mut s, rs2);
    } else if op == 0x8 {
        s.append("BRANCH cond=");
        push_dec(&mut s, rd);
        s.append(", offset=");
        push_int(&mut s, low_signed(instr));
    } else if op == 0x9 {
        s.append("JUMP ");
        push_hex(&mut s, (instr % 0x1000) as u32, 3);
    } else if op == 0xA || op == 0xB || op == 0xC {
        s.append(family_name_of(op));
        s.append(" R");
        push_dec(&mut s, rd);
        s.append(", R");
        push_dec(&mut s, rs1);
        s.append(", func=");
        push_dec(&mut s, rs2);
    } else if op == 0xD {
        s.append("I/O R");
        push_dec(&mut s, rd);
        s.append(", port=");
        push_dec(&mut s, rs1);
        s.append(", func=");
        push_dec(&mut s, rs2);
    } else if op == 0xE {
        s.append("SYSTEM func=");
        push_dec(&mut s, rd);
    } else {
        s.append("EXTENDED R");
        push_dec(&mut s, rd);
        s.append(", R");
        push_dec(&mut s, rs1);
        s.append(", sub=");
        push_dec(&mut s, rs2);
    }
    assert(s@ =~= head + trace_body(instr));
    s
}

impl Cpu {
    /// The trace line of the instruction that the next step executes.
    pub fn trace_next(&self) -> (s: String)
        ensures
            s@ == trace_text(self@.pc, word_at(self@, self@.pc)),
    {
        trace_line(self.get_pc(), self.read_word(self.get_pc()))
    }

    /// The short dump as text, without a line break.
    pub fn dump_short(&self) -> (s: String)
        ensures
            s@ == short_text(self@),
    {
        let mut s = String::from_str("PC=");
        push_hex(&mut s, self.get_pc() as u32, 4);
        s.append(" R4=");
        push_hex(&mut s, self.get_register(4) as u32, 4);
        s.append(" R5=");
        push_hex(&mut s, self.get_register(5) as u32, 4);
        s.append(" R6=");
        push_hex(&mut s, self.get_register(6) as u32, 4);
        s.append(" FLAGS=");
        push_hex(&mut s, self.get_flags() as u32, 2);
        s
    }

    /// The full dump as text: every line ends with a line break.
    #[verifier::rlimit(40)]
    pub fn dump_state(&self) -> (s: String)
        ensures
            s@ == state_text(self@),
    {
        let flags = self.get_flags();
        let mut s = String::from_str("\n=== CPU State ===\nPC: ");
        push_hex(&mut s, self.get_pc() as u32, 4);
        s.append("  Flags: ");
        push_hex(&mut s, flags as u32, 2);
        s.append(" [");
        push_char(&mut s, flag_letter_of(flags, FLAG_N, 'N'));
        push_char(&mut s, flag_letter_of(flags, FLAG_Z, 'Z'));
        push_char(&mut s, flag_letter_of(flags, FLAG_C, 'C'));
        push_char(&mut s, flag_letter_of(flags, FLAG_V, 'V'));
        s.append("]\n\nRegisters:\n");
        let ghost head = s@;
        assert(head =~= "\n=== CPU State ===\nPC: "@ + hex_digits(self@.pc as nat, 4)
            + "  Flags: "@ + hex_digits(self@.flags as nat, 2) + " ["@ + flags_text(self@.flags)
            + "]\n\nRegisters:\n"@);
        let mut row: usize = 0;
        while row < 4
            invariant
                row <= 4,
                s@ == head + register_rows(self@, row as int),
            decreases 4 - row,
        {
            let ghost before = s@;
            push_register_cell(&mut s, self, 4 * row);
            push_register_cell(&mut s, self, 4 * row + 1);
            push_register_cell(&mut s, self, 4 * row + 2);
            push_register_cell(&mut s, self, 4 * row + 3);
            s.append("\n");
            row += 1;
            assert(s@ =~= head + register_rows(self@, row as int));
        }
        s.append("\nCycles: ");
        push_dec(&mut s, self.get_cycles());
        s.append("\n");
        let ghost body = s@;
        assert(body =~= head + register_rows(self@, 4) + "\nCycles: "@ + dec_digits(
            self@.cycles as nat,
        ) + "\n"@);
        let output = self.get_serial_output();
        if output.len() > 0 {
            s.append("\nSerial output:\n  \"");
            let ghost opened = s@;
            let mut i: usize = 0;
            while i < output.len()
                invariant
                    i <= output.len(),
                    output@ == self@.serial_out,
                    s@ == opened + escaped_all(output@, i as int),
                decreases output.len() - i,
            {
                push_escaped(&mut s, output[i]);
                i += 1;
                assert(s@ =~= opened + escaped_all(output@, i as int));
            }
            s.append("\"\n");
            assert(s@ =~= body + ("\nSerial output:\n  \""@ + escaped_all(
                self@.serial_out,
                self@.serial_out.len() as int,
            ) + "\"\n"@));
        } else {
            assert(s@ =~= body + Seq::<char>::empty());
        }
        s
    }

    /// Appends one row of a memory dump: the one that starts with the
    /// `i`th of the `len` bytes from `addr` on.
    #[verifier::rlimit(40)]
    fn push_memory_row(&self, s: &mut String, addr: u16, len: usize, i: usize)
        requires
            i < len,
        ensures
            final(s)@ == old(s)@ + memory_row(self@, addr, len as int, i as int),
    {
        let a = addr.wrapping_add((i % 65536) as u16);
        push_hex(s, a as u32, 4);
        s.append(": ");
        let ghost opened = s@;
        let mut j: usize = 0;
        while j < 16
            invariant
                j <= 16,
                i < len,
                a == wrap16(addr + i),
                s@ == opened + row_bytes(self@, addr, len as int, i as int, j as int),
            decreases 16 - j,
        {
            let ghost told = row_bytes(self@, addr, len as int, i as int, j as int);
            let ghost cell = memory_cell(self@, addr, len as int, i as int, j as int);
            if j < len - i {
                let at = a.wrapping_add(j as u16);
                assert(at == wrap16(addr + i + j));
                push_byte_cell(s, self.read_memory(at));
            }
            assert(s@ == opened + told + cell);
            j += 1;
            assert(row_bytes(self@, addr, len as int, i as int, j as int) == told + cell);
            assert(opened + told + cell =~= opened + (told + cell));
        }
        s.append("\n");
        assert(final(s)@ =~= old(s)@ + memory_row(self@, addr, len as int, i as int));
    }

    /// A dump of `len` bytes of memory from `addr` on as text: every line
    /// ends with a line break. The addresses wrap at the top of memory.
    #[verifier::rlimit(40)]
    pub fn dump_memory(&self, addr: u16, len: usize) -> (s: String)
        ensures
            s@ == memory_text(self@, addr, len as int),
    {
        let mut s = String::from_str("Memory at ");
        push_hex(&mut s, addr as u32, 4);
        s.append(":\n");
        let mut i: usize = 0;
        while i < len
            invariant
                memory_text(self@, addr, len as int) == s@ + memory_rows(
                    self@,
                    addr,
                    len as int,
                    i as int,
                ),
            decreases len - i,
        {
            let ghost before = s@;
            let ghost rest = memory_rows(self@, addr, len as int, i + 16);
            self.push_memory_row(&mut s, addr, len, i);
            assert(before + (memory_row(self@, addr, len as int, i as int) + rest) =~= s@ + rest);
            if len - i <= 16 {
                assert(rest =~= Seq::<char>::empty());
                assert(s@ + rest =~= s@);
                return s;
            }
            i += 16;
        }
        assert(s@ + Seq::<char>::empty() =~= s@);
        s
    }
}

/// The five flags that a debugger shows, as letters: N, Z, C, V and I.
pub open spec fn flag_letters_text(flags: u8) -> Seq<char> {
    flags_text(flags).push(flag_letter(flags, FLAG_I, 'I'))
}

/// Builds the text of [`flag_letters_text`].
pub fn flag_letters(flags: u8) -> (s: String)
    ensures
        s@ == flag_letters_text(flags),
{
    let mut s = String::new();
    push_char(&mut s, flag_letter_of(flags, FLAG_N, 'N'));
    push_char(&mut s, flag_letter_of(flags, FLAG_Z, 'Z'));
    push_char(&mut s, flag_letter_of(flags, FLAG_C, 'C'));
    push_char(&mut s, flag_letter_of(flags, FLAG_V, 'V'));
    push_char(&mut s, flag_letter_of(flags, FLAG_I, 'I'));
    assert(s@ =~= flag_letters_text(flags));
    s
}

/// The name of a register with its conventional role.
pub open spec fn register_label_text(r: int) -> Seq<char> {
    if r == 0 {
        "R0/ZR"@
    } else if r == 1 {
        "R1/RA"@
    } else if r == 2 {
        "R2/SP"@
    } else if r == 3 {
        "R3/GP"@
    } else if r == 4 {
        "R4/A0"@
    } else if r == 5 {
        "R5/A1"@
    } else if r == 6 {
        "R6/A2"@
    } else if r == 7 {
        "R7/A3"@
    } else if r == 8 {
        "R8/T0"@
    } else if r == 9 {
        "R9/T1"@
    } else if r == 10 {
        "R10/T2"@
    } else if r == 11 {
        "R11/T3"@
    } else if r == 12 {
        "R12/S0"@
    } else if r == 13 {
        "R13/S1"@
    } else if r == 14 {
        "R14/S2"@
    } else if r == 15 {
        "R15/S3"@
    } else {
        "???"@
    }
}

/// The text of [`register_label_text`].
pub fn register_label(r: usize) -> (s: &'static str)
    ensures
        s@ == register_label_text(r as int),
{
    if r == 0 {
        "R0/ZR"
    } else if r == 1 {
        "R1/RA"
    } else if r == 2 {
        "R2/SP"
    } else if r == 3 {
        "R3/GP"
    } else if r == 4 {
        "R4/A0"
    } else if r == 5 {
        "R5/A1"
    } else if r == 6 {
        "R6/A2"
    } else if r == 7 {
        "R7/A3"
    } else if r == 8 {
        "R8/T0"
    } else if r == 9 {
        "R9/T1"
    } else if r == 10 {
        "R10/T2"
    } else if r == 11 {
        "R11/T3"
    } else if r == 12 {
        "R12/S0"
    } else if r == 13 {
        "R13/S1"
    } else if r == 14 {
        "R14/S2"
    } else if r == 15 {
        "R15/S3"
    } else {
        "???"
    }
}

/// A byte as a memory view shows it in its text column: printable
/// characters as they are, a dot for every other byte.
pub open spec fn shown_char(byte: u8) -> char {
    if 0x20 <= byte < 0x7F {
        byte as char
    } else {
        '.'
    }
}

/// Computes [`shown_char`].
pub fn printable(byte: u8) -> (c: char)
    ensures
        c == shown_char(byte),
{
    if byte >= 0x20 && byte < 0x7F {
        byte as char
    } else {
        '.'
    }
}

/// A word in four hexadecimal digits.
pub fn hex_word(w: u16) -> (s: String)
    ensures
        s@ == hex_digits(w as nat, 4),
{
    let mut s = String::new();
    push_hex(&mut s, w as u32, 4);
    assert(s@ =~= hex_digits(w as nat, 4));
    s
}

/// A byte in two hexadecimal digits.
pub fn hex_byte(b: u8) -> (s: String)
    ensures
        s@ == hex_digits(b as nat, 2),
{
    let mut s = String::new();
    push_hex(&mut s, b as u32, 2);
    assert(s@ =~= hex_digits(b as nat, 2));
    s
}

} // verus!
