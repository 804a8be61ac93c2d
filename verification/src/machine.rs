//! The machine as a mathematical object: its state, and what one
//! instruction does to it.

use crate::alu::{
    FLAG_C, FLAG_I, FLAG_Z, add_flags, add_result, condition_holds, daa_adjusted, logic_flags,
    muldiv_spec, shift_spec, sub_flags, sub_result,
};
use crate::isa::{
    func_of, high_byte, low_byte, opcode_of, rd_of, rs1_of, sext8, signed12, signed8, word_of,
    wrap16,
};
use crate::text::hex_digits;
use vstd::prelude::*;

verus! {

/// The state of the processor and its devices.
pub struct CpuState {
    /// The sixteen registers. Entry 0 is never read.
    pub regs: Seq<u16>,
    /// The alternate bank for registers 4 to 11.
    pub alt: Seq<u16>,
    pub pc: u16,
    pub flags: u8,
    /// The 65 536 bytes of memory.
    pub memory: Seq<u8>,
    /// The 256 I/O ports.
    pub ports: Seq<u8>,
    pub halted: bool,
    pub trace: bool,
    pub quiet: bool,
    pub cycles: u64,
    /// Bytes written to the serial port and not yet drained.
    pub serial_out: Seq<u8>,
    /// Bytes queued for the serial port to read.
    pub serial_in: Seq<u8>,
}

/// The state has the machine's dimensions.
pub open spec fn well_formed(s: CpuState) -> bool {
    &&& s.regs.len() == 16
    &&& s.alt.len() == 8
    &&& s.memory.len() == 65536
    &&& s.ports.len() == 256
}

/// The value read from register `r`: register 0 reads as zero.
pub open spec fn reg(s: CpuState, r: int) -> u16 {
    if r == 0 {
        0
    } else {
        s.regs[r]
    }
}

/// The state after writing register `r`: writes to register 0 are ignored.
pub open spec fn with_reg(s: CpuState, r: int, v: u16) -> CpuState {
    if r == 0 {
        s
    } else {
        CpuState { regs: s.regs.update(r, v), ..s }
    }
}

/// The address after `a`, modulo 2^16.
pub open spec fn next(a: u16) -> u16 {
    wrap16(a + 1)
}

/// The byte at an address.
pub open spec fn byte_at(s: CpuState, a: u16) -> u8 {
    s.memory[a as int]
}

/// The little-endian word at an address; the second byte of a word at
/// 0xFFFF is the byte at 0.
pub open spec fn word_at(s: CpuState, a: u16) -> u16 {
    word_of(s.memory[a as int], s.memory[next(a) as int])
}

/// The state after storing a byte.
pub open spec fn with_byte(s: CpuState, a: u16, v: u8) -> CpuState {
    CpuState { memory: s.memory.update(a as int, v), ..s }
}

/// The state after storing a little-endian word.
pub open spec fn with_word(s: CpuState, a: u16, v: u16) -> CpuState {
    CpuState {
        memory: s.memory.update(a as int, low_byte(v)).update(next(a) as int, high_byte(v)),
        ..s
    }
}

/// The state with another flags byte.
pub open spec fn with_flags(s: CpuState, flags: u8) -> CpuState {
    CpuState { flags, ..s }
}

/// The state with another program counter.
pub open spec fn with_pc(s: CpuState, pc: u16) -> CpuState {
    CpuState { pc, ..s }
}

/// The byte that a read of `port` returns. Port 0x80 is the serial status,
/// always ready to transmit; port 0x81 is the serial data, the next queued
/// byte or zero; every other port is a plain cell.
pub open spec fn port_value(s: CpuState, port: u8) -> u8 {
    if port == 0x80 {
        0x02
    } else if port == 0x81 {
        if s.serial_in.len() > 0 {
            s.serial_in[0]
        } else {
            0
        }
    } else {
        s.ports[port as int]
    }
}

/// The state after a read of `port`: a read of the serial data takes the
/// byte off the queue.
pub open spec fn after_port_read(s: CpuState, port: u8) -> CpuState {
    if port == 0x81 && s.serial_in.len() > 0 {
        CpuState { serial_in: s.serial_in.subrange(1, s.serial_in.len() as int), ..s }
    } else {
        s
    }
}

/// The state after a write to `port`: a write to the serial data appends
/// to the output, any other write sets the cell.
pub open spec fn after_port_write(s: CpuState, port: u8, v: u8) -> CpuState {
    if port == 0x81 {
        CpuState { serial_out: s.serial_out.push(v), ..s }
    } else {
        CpuState { ports: s.ports.update(port as int, v), ..s }
    }
}

/// The low byte of a word.
pub open spec fn low(w: u16) -> u8 {
    (w % 256) as u8
}

/// Opcodes 0 to 5: arithmetic and logic on registers.
pub open spec fn alu_spec(s: CpuState, instr: u16) -> CpuState {
    let op = opcode_of(instr);
    let rd = rd_of(instr) as int;
    let a = reg(s, rs1_of(instr) as int);
    let b = reg(s, func_of(instr) as int);
    if op == 0x0 {
        with_flags(with_reg(s, rd, add_result(a, b)), add_flags(a, b))
    } else if op == 0x1 {
        with_flags(with_reg(s, rd, sub_result(a, b)), sub_flags(a, b))
    } else if op == 0x2 {
        with_flags(with_reg(s, rd, a & b), logic_flags(s.flags, a & b))
    } else if op == 0x3 {
        with_flags(with_reg(s, rd, a | b), logic_flags(s.flags, a | b))
    } else if op == 0x4 {
        with_flags(with_reg(s, rd, a ^ b), logic_flags(s.flags, a ^ b))
    } else {
        let x = reg(s, rd);
        let y = sext8(low(instr));
        with_flags(with_reg(s, rd, add_result(x, y)), add_flags(x, y))
    }
}

/// The byte displacement of load function `func`, for `func` below 8.
pub open spec fn load_displacement(func: u16) -> int {
    if func == 0x3 {
        2
    } else if func == 0x4 {
        4
    } else if func == 0x5 {
        6
    } else if func == 0x6 {
        -2
    } else if func == 0x7 {
        -4
    } else {
        0
    }
}

/// The byte displacement of store function `func`, for `func` below 7.
pub open spec fn store_displacement(func: u16) -> int {
    if func == 0x2 {
        2
    } else if func == 0x3 {
        4
    } else if func == 0x4 {
        6
    } else if func == 0x5 {
        -2
    } else if func == 0x6 {
        -4
    } else {
        0
    }
}

/// Opcode 6: loads. Function 1 loads a sign-extended byte, 2 a
/// zero-extended byte, 8 places the Rs1 nibble in bits 11..8 of Rd, and the
/// other functions below 8 load a word. Functions above 8 do not exist.
pub open spec fn load_spec(s: CpuState, rd: int, rs1: int, func: u16) -> Option<CpuState> {
    if func == 0x8 {
        Some(with_reg(s, rd, (rs1 * 256) as u16))
    } else if func > 0x8 {
        None
    } else {
        let addr = wrap16(reg(s, rs1) + load_displacement(func));
        if func == 0x1 {
            Some(with_reg(s, rd, sext8(byte_at(s, addr))))
        } else if func == 0x2 {
            Some(with_reg(s, rd, byte_at(s, addr) as u16))
        } else {
            Some(with_reg(s, rd, word_at(s, addr)))
        }
    }
}

/// Opcode 7: stores. Function 1 stores the low byte of the register in the
/// Rd field, the other functions below 7 store its word. Functions from 7
/// up do not exist.
pub open spec fn store_spec(s: CpuState, rs2: int, rs1: int, func: u16) -> Option<CpuState> {
    if func >= 0x7 {
        None
    } else {
        let addr = wrap16(reg(s, rs1) + store_displacement(func));
        let value = reg(s, rs2);
        if func == 0x1 {
            Some(with_byte(s, addr, low(value)))
        } else {
            Some(with_word(s, addr, value))
        }
    }
}

/// Opcode 8: a conditional branch over a signed number of words.
pub open spec fn branch_spec(s: CpuState, instr: u16) -> CpuState {
    if condition_holds(rd_of(instr), s.flags) {
        with_pc(s, wrap16(s.pc + signed8(low(instr)) * 2))
    } else {
        s
    }
}

/// Opcode 9: jumps. A word with 15 in the Rd field and 0 in the low nibble
/// jumps to the register in the Rs1 field; a word with 1 in the low nibble
/// and a register other than 0 in the Rd field jumps there too and leaves
/// the return address in Rd; any other word jumps over the signed number
/// of words in its low twelve bits.
pub open spec fn jump_spec(s: CpuState, instr: u16) -> CpuState {
    let rd = rd_of(instr) as int;
    let rs1 = rs1_of(instr) as int;
    if rd == 0xF && func_of(instr) == 0 {
        with_pc(s, reg(s, rs1))
    } else if func_of(instr) == 0x1 && rd != 0 {
        with_reg(with_pc(s, reg(s, rs1)), rd, s.pc)
    } else {
        with_pc(s, wrap16(s.pc + signed12(instr) * 2))
    }
}

/// Opcode 10: shifts and rotations of Rs1 into Rd.
pub open spec fn shift_op_spec(s: CpuState, rd: int, rs1: int, func: u16) -> CpuState {
    let (result, flags) = shift_spec(func, reg(s, rs1), s.flags);
    with_flags(with_reg(s, rd, result), flags)
}

/// Opcode 11: multiply, divide and decimal adjust. Functions above 7 do
/// not exist.
pub open spec fn muldiv_op_spec(s: CpuState, rd: int, rs1: int, func: u16) -> Option<CpuState> {
    if func < 0x7 {
        Some(with_reg(s, rd, muldiv_spec(func, reg(s, rd), reg(s, rs1))))
    } else if func == 0x7 {
        let val = daa_adjusted(reg(s, rd), s.flags);
        Some(with_flags(with_reg(s, rd, val % 256), logic_flags(s.flags, val)))
    } else {
        None
    }
}

/// The state with Z set or cleared and every other flag as it was.
pub open spec fn with_zero_flag(s: CpuState, z: bool) -> CpuState {
    with_flags(
        s,
        if z {
            s.flags | FLAG_Z
        } else {
            s.flags & !FLAG_Z
        },
    )
}

/// One step of a block copy: the byte at R5 goes to R6, both pointers move
/// by `delta` and the count in R4 goes down by one.
pub open spec fn copy_step(s: CpuState, delta: int) -> CpuState {
    let src = reg(s, 5);
    let dst = reg(s, 6);
    let count = reg(s, 4);
    let moved = with_byte(s, dst, byte_at(s, src));
    with_reg(
        with_reg(with_reg(moved, 5, wrap16(src + delta)), 6, wrap16(dst + delta)),
        4,
        wrap16(count - 1),
    )
}

/// A repeated block copy: steps until the count in R4 is zero.
pub open spec fn copy_all(s: CpuState, delta: int) -> CpuState
    decreases reg(s, 4),
    when s.regs.len() == 16
{
    if reg(s, 4) == 0 {
        s
    } else {
        copy_all(copy_step(s, delta), delta)
    }
}

/// The search of `count` bytes from `addr` for `needle`: whether it was
/// found, and the address and the count left where the search stopped.
pub open spec fn search(memory: Seq<u8>, needle: u8, addr: u16, count: u16) -> (bool, u16, u16)
    decreases count,
{
    if count == 0 {
        (false, addr, 0)
    } else if memory[addr as int] == needle {
        (true, addr, count)
    } else {
        search(memory, needle, next(addr), (count - 1) as u16)
    }
}

/// The memory after `count` bytes from `addr` on are set to `val`.
pub open spec fn filled(memory: Seq<u8>, val: u8, addr: u16, count: u16) -> Seq<u8>
    decreases count,
{
    if count == 0 {
        memory
    } else {
        filled(memory.update(addr as int, val), val, next(addr), (count - 1) as u16)
    }
}

/// The registers after the live and the alternate bank are exchanged.
pub open spec fn swapped_regs(s: CpuState) -> Seq<u16> {
    Seq::new(16, |i: int| if 4 <= i < 12 { s.alt[i - 4] } else { s.regs[i] })
}

/// The alternate bank after the live and the alternate bank are exchanged.
pub open spec fn swapped_alt(s: CpuState) -> Seq<u16> {
    Seq::new(8, |i: int| s.regs[i + 4])
}

/// Opcode 12: stack, compare, move, block operations, bank exchange and
/// flag transfer. Functions 14 and 15 do not exist.
pub open spec fn misc_spec(s: CpuState, rd: int, rs1: int, func: u16) -> Option<CpuState> {
    if func == 0x0 {
        let sp = wrap16(reg(s, 2) - 2);
        let lowered = with_reg(s, 2, sp);
        Some(with_word(lowered, sp, reg(lowered, rs1)))
    } else if func == 0x1 {
        let sp = reg(s, 2);
        Some(with_reg(with_reg(s, rd, word_at(s, sp)), 2, wrap16(sp + 2)))
    } else if func == 0x2 {
        Some(with_flags(s, sub_flags(reg(s, rd), reg(s, rs1))))
    } else if func == 0x3 {
        Some(with_flags(s, logic_flags(s.flags, reg(s, rd) & reg(s, rs1))))
    } else if func == 0x4 {
        Some(with_reg(s, rd, reg(s, rs1)))
    } else if func == 0x5 {
        let t = copy_step(s, 1);
        Some(with_zero_flag(t, reg(t, 4) == 0))
    } else if func == 0x6 {
        let t = copy_step(s, -1);
        Some(with_zero_flag(t, reg(t, 4) == 0))
    } else if func == 0x7 {
        Some(with_zero_flag(copy_all(s, 1), true))
    } else if func == 0x8 {
        Some(with_zero_flag(copy_all(s, -1), true))
    } else if func == 0x9 {
        let (found, addr, count) = search(s.memory, low(reg(s, 4)), reg(s, 5), reg(s, 6));
        Some(with_reg(with_reg(with_zero_flag(s, found), 5, addr), 6, count))
    } else if func == 0xA {
        let dst = reg(s, 6);
        let count = reg(s, 4);
        let t = CpuState { memory: filled(s.memory, low(reg(s, 5)), dst, count), ..s };
        Some(with_reg(with_reg(t, 6, wrap16(dst + count)), 4, 0))
    } else if func == 0xB {
        Some(CpuState { regs: swapped_regs(s), alt: swapped_alt(s), ..s })
    } else if func == 0xC {
        Some(with_reg(s, rd, s.flags as u16))
    } else if func == 0xD {
        Some(with_flags(s, low(reg(s, rs1))))
    } else {
        None
    }
}

/// Opcode 13: port input and output. Functions 0 and 1 name the port by
/// the Rs1 nibble, 2 and 3 by the low byte of a register. Functions above
/// 3 do not exist.
pub open spec fn io_spec(s: CpuState, rd: int, rs1: int, func: u16) -> Option<CpuState> {
    if func == 0x0 {
        let port = rs1 as u8;
        Some(with_reg(after_port_read(s, port), rd, port_value(s, port) as u16))
    } else if func == 0x1 {
        Some(after_port_write(s, rs1 as u8, low(reg(s, rd))))
    } else if func == 0x2 {
        let port = low(reg(s, rs1));
        Some(with_reg(after_port_read(s, port), rd, port_value(s, port) as u16))
    } else if func == 0x3 {
        Some(after_port_write(s, low(reg(s, rd)), low(reg(s, rs1))))
    } else {
        None
    }
}

/// Opcode 14: system operations, chosen by the Rd field: 0 nothing, 1
/// halt, 2 and 3 clear and set the interrupt enable, 4 return from
/// interrupt, 5 software interrupt through the vector at twice the
/// immediate, 6 set carry, 7 complement carry. Functions above 7 do not
/// exist.
pub open spec fn system_spec(s: CpuState, func: u16, imm: u8) -> Option<CpuState> {
    if func == 0x0 {
        Some(s)
    } else if func == 0x1 {
        Some(CpuState { halted: true, ..s })
    } else if func == 0x2 {
        Some(with_flags(s, s.flags & !FLAG_I))
    } else if func == 0x3 {
        Some(with_flags(s, s.flags | FLAG_I))
    } else if func == 0x4 {
        let sp = reg(s, 2);
        let popped = with_pc(with_reg(s, 2, wrap16(sp + 2)), word_at(s, sp));
        Some(with_flags(popped, s.flags | FLAG_I))
    } else if func == 0x5 {
        let sp = wrap16(reg(s, 2) - 2);
        Some(with_pc(with_word(with_reg(s, 2, sp), sp, s.pc), (imm * 2) as u16))
    } else if func == 0x6 {
        Some(with_flags(s, s.flags | FLAG_C))
    } else if func == 0x7 {
        Some(with_flags(s, s.flags ^ FLAG_C))
    } else {
        None
    }
}

/// Opcode 15: the extended forms, chosen by the low nibble, with the
/// immediate word `imm`.
pub open spec fn extended_spec(s: CpuState, rd: int, rs1: int, sub: u16, imm: u16) -> CpuState {
    let a = reg(s, rs1);
    if sub == 0x0 {
        with_flags(with_reg(s, rd, add_result(a, imm)), add_flags(a, imm))
    } else if sub == 0x1 {
        with_flags(with_reg(s, rd, sub_result(a, imm)), sub_flags(a, imm))
    } else if sub == 0x2 {
        with_flags(with_reg(s, rd, a & imm), logic_flags(s.flags, a & imm))
    } else if sub == 0x3 {
        with_flags(with_reg(s, rd, a | imm), logic_flags(s.flags, a | imm))
    } else if sub == 0x4 {
        with_flags(with_reg(s, rd, a ^ imm), logic_flags(s.flags, a ^ imm))
    } else if sub == 0x5 {
        with_reg(s, rd, word_at(s, wrap16(a + imm)))
    } else if sub == 0x6 {
        with_word(s, wrap16(a + imm), reg(s, rd))
    } else if sub == 0x7 {
        with_reg(s, rd, imm)
    } else if sub == 0x8 {
        with_pc(s, imm)
    } else if sub == 0x9 {
        with_pc(with_reg(s, rd, s.pc), imm)
    } else if sub == 0xA {
        with_flags(s, sub_flags(reg(s, rd), imm))
    } else if sub == 0xB {
        let port = low(imm);
        with_reg(after_port_read(s, port), rd, port_value(s, port) as u16)
    } else if sub == 0xC {
        after_port_write(s, low(imm), low(a))
    } else if sub == 0xD {
        let r = a << (imm % 16);
        with_flags(with_reg(s, rd, r), logic_flags(s.flags, r))
    } else if sub == 0xE {
        let r = a >> (imm % 16);
        with_flags(with_reg(s, rd, r), logic_flags(s.flags, r))
    } else {
        let r = ((a as i16) >> (imm % 16)) as u16;
        with_flags(with_reg(s, rd, r), logic_flags(s.flags, r))
    }
}

/// What the instruction word `instr` does to a state whose program counter
/// is already past the word. `None` means that the word names no
/// operation. An extended instruction reads its immediate word at the
/// program counter and moves past it.
pub open spec fn execute_spec(s: CpuState, instr: u16) -> Option<CpuState> {
    let op = opcode_of(instr);
    let rd = rd_of(instr) as int;
    let rs1 = rs1_of(instr) as int;
    let func = func_of(instr);
    if op <= 0x5 {
        Some(alu_spec(s, instr))
    } else if op == 0x6 {
        load_spec(s, rd, rs1, func)
    } else if op == 0x7 {
        store_spec(s, rd, rs1, func)
    } else if op == 0x8 {
        Some(branch_spec(s, instr))
    } else if op == 0x9 {
        Some(jump_spec(s, instr))
    } else if op == 0xA {
        Some(shift_op_spec(s, rd, rs1, func))
    } else if op == 0xB {
        muldiv_op_spec(s, rd, rs1, func)
    } else if op == 0xC {
        misc_spec(s, rd, rs1, func)
    } else if op == 0xD {
        io_spec(s, rd, rs1, func)
    } else if op == 0xE {
        system_spec(s, rd_of(instr), low(instr))
    } else {
        Some(extended_spec(with_pc(s, wrap16(s.pc + 2)), rd, rs1, func, word_at(s, s.pc)))
    }
}

/// The message for an instruction word that names no operation.
pub open spec fn fault_text(instr: u16) -> Seq<char> {
    let op = opcode_of(instr);
    let func = hex_digits(func_of(instr) as nat, 1);
    if op == 0x6 {
        "Unknown load func: 0x"@ + func
    } else if op == 0x7 {
        "Unknown store func: 0x"@ + func
    } else if op == 0xB {
        "Unknown muldiv func: 0x"@ + func
    } else if op == 0xC {
        "Unknown misc func: 0x"@ + func
    } else if op == 0xD {
        "Unknown I/O func: 0x"@ + func
    } else {
        "Unknown system func: 0x"@ + hex_digits(rd_of(instr) as nat, 1)
    }
}

/// The state after the instruction at the program counter has been
/// fetched: the program counter is past its first word.
pub open spec fn fetched(s: CpuState) -> CpuState {
    with_pc(s, wrap16(s.pc + 2))
}

/// One step of the machine. A halted machine stays as it is. Otherwise the
/// instruction at the program counter is fetched and executed and the
/// cycle counter goes up by one; a word that names no operation leaves the
/// machine as it was after the fetch.
pub open spec fn step_spec(s: CpuState) -> CpuState {
    if s.halted {
        s
    } else {
        match execute_spec(fetched(s), word_at(s, s.pc)) {
            Some(t) => CpuState { cycles: (if t.cycles == u64::MAX { 0 } else { t.cycles + 1 }) as u64, ..t },
            None => fetched(s),
        }
    }
}

/// Whether a step fails: the machine is running and the word at the
/// program counter names no operation.
pub open spec fn step_faults(s: CpuState) -> bool {
    !s.halted && execute_spec(fetched(s), word_at(s, s.pc)) is None
}

} // verus!
