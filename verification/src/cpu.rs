//! The emulated processor: fetch, decode and execute over the state that
//! [`crate::machine`] describes, and the accessors that a debugger reads
//! it through.

use crate::alu::{
    FLAG_C, FLAG_I, FLAG_Z, add_words, check_condition, daa, flags_after_logic, muldiv, shift,
    sub_words, to_word,
};
use crate::isa::{func_field, make_word, opcode, rd_field, rs1_field, sext8, wrap16};
use crate::machine::{
    CpuState, after_port_read, after_port_write, alu_spec, branch_spec, byte_at, copy_all,
    copy_step, execute_spec, extended_spec, fault_text, fetched, filled, io_spec, jump_spec,
    load_spec, low, misc_spec, muldiv_op_spec, port_value, reg, search, shift_op_spec, step_faults,
    step_spec, store_spec, swapped_alt, swapped_regs, system_spec, well_formed, with_byte,
    with_flags, with_pc, with_reg, with_word, with_zero_flag, word_at,
};
use crate::text::push_hex;
use std::collections::VecDeque;
use vstd::prelude::*;
use vstd::string::*;

verus! {

/// Bytes of memory.
pub const MEM_SIZE: usize = 65536;

/// The 64 KiB of byte-addressable memory. Addresses are 16 bits wide, so
/// every access is in range.
pub struct Memory {
    bytes: Vec<u8>,
}

impl View for Memory {
    type V = Seq<u8>;

    closed spec fn view(&self) -> Seq<u8> {
        self.bytes@
    }
}

impl Memory {
    #[verifier::type_invariant]
    spec fn is_whole(self) -> bool {
        self.bytes.len() == 65536
    }

    /// Memory filled with zeros.
    pub fn new() -> (m: Memory)
        ensures
            m@ == Seq::new(65536, |i: int| 0u8),
    {
        let m = Memory { bytes: vec![0u8; 65536] };
        assert(m@ =~= Seq::new(65536, |i: int| 0u8));
        m
    }

    /// The byte at an address.
    pub fn get(&self, addr: u16) -> (b: u8)
        ensures
            b == self@[addr as int],
            self@.len() == 65536,
    {
        proof {
            use_type_invariant(self);
        }
        self.bytes[addr as usize]
    }

    /// Stores a byte at an address.
    pub fn set(&mut self, addr: u16, val: u8)
        ensures
            final(self)@ == old(self)@.update(addr as int, val),
            final(self)@.len() == 65536,
    {
        proof {
            use_type_invariant(&*self);
        }
        self.bytes[addr as usize] = val;
    }
}

/// The Sampo processor with its memory, its ports and its serial line.
pub struct Cpu {
    regs: [u16; 16],
    regs_alt: [u16; 8],
    pc: u16,
    flags: u8,
    memory: Memory,
    ports: [u8; 256],
    halted: bool,
    trace: bool,
    quiet: bool,
    cycles: u64,
    serial_out: Vec<u8>,
    serial_in: VecDeque<u8>,
}

impl View for Cpu {
    type V = CpuState;

    closed spec fn view(&self) -> CpuState {
        CpuState {
            regs: self.regs@,
            alt: self.regs_alt@,
            pc: self.pc,
            flags: self.flags,
            memory: self.memory@,
            ports: self.ports@,
            halted: self.halted,
            trace: self.trace,
            quiet: self.quiet,
            cycles: self.cycles,
            serial_out: self.serial_out@,
            serial_in: self.serial_in@,
        }
    }
}

/// The state of a machine that has just been built: memory and registers
/// zero, the stack pointer at 0xFFFE, the program counter at 0x0100 and
/// the serial status port showing "ready".
pub open spec fn power_on() -> CpuState {
    CpuState {
        regs: Seq::new(16, |i: int| if i == 2 { 0xFFFEu16 } else { 0u16 }),
        alt: Seq::new(8, |i: int| 0u16),
        pc: 0x0100,
        flags: 0,
        memory: Seq::new(65536, |i: int| 0u8),
        ports: Seq::new(256, |i: int| if i == 0x80 { 0x02u8 } else { 0u8 }),
        halted: false,
        trace: false,
        quiet: false,
        cycles: 0,
        serial_out: Seq::empty(),
        serial_in: Seq::empty(),
    }
}

/// The state after a reset: everything as at power-on, except that the
/// memory and the trace and quiet settings stay.
pub open spec fn after_reset(s: CpuState) -> CpuState {
    CpuState { memory: s.memory, trace: s.trace, quiet: s.quiet, ..power_on() }
}

/// Whether the two bytes at offset `i` of an image are zero.
pub open spec fn is_zero_word(image: Seq<u8>, i: int) -> bool {
    image[i] == 0 && image[i + 1] == 0
}

/// Whether the word at even offset `i` of an image is the first that is
/// not zero.
pub open spec fn is_entry(image: Seq<u8>, i: int) -> bool {
    &&& 0 <= i
    &&& i % 2 == 0
    &&& i + 1 < image.len()
    &&& !is_zero_word(image, i)
    &&& forall|j: int| 0 <= j < i && j % 2 == 0 ==> #[trigger] is_zero_word(image, j)
}

/// The memory after an image is loaded at address 0: bytes beyond the end
/// of memory are dropped.
pub open spec fn loaded(memory: Seq<u8>, image: Seq<u8>) -> Seq<u8> {
    Seq::new(65536, |a: int| if a < image.len() { image[a] } else { memory[a] })
}

/// A byte sign-extended to a word.
fn sign_extend(b: u8) -> (w: u16)
    ensures
        w == sext8(b),
{
    if b < 128 {
        b as u16
    } else {
        b as u16 + 0xFF00
    }
}

/// The address `d` bytes from `base`, modulo 2^16.
fn displaced(base: u16, d: i32) -> (a: u16)
    requires
        -0x10000 <= d <= 0x10000,
    ensures
        a == wrap16(base + d),
{
    to_word(base as i32 + d)
}

impl Cpu {
    /// Every processor has the machine's dimensions.
    fn check(&self)
        ensures
            well_formed(self@),
    {
        let _ = self.memory.get(0);
    }

    /// A machine at power-on.
    pub fn new() -> (cpu: Cpu)
        ensures
            cpu@ == power_on(),
            well_formed(cpu@),
    {
        let mut cpu = Cpu {
            regs: [0; 16],
            regs_alt: [0; 8],
            pc: 0x0100,
            flags: 0,
            memory: Memory::new(),
            ports: [0; 256],
            halted: false,
            trace: false,
            quiet: false,
            cycles: 0,
            serial_out: Vec::new(),
            serial_in: VecDeque::new(),
        };
        cpu.regs[2] = 0xFFFE;
        cpu.ports[0x80] = 0x02;
        assert(cpu@.regs =~= power_on().regs);
        assert(cpu@.alt =~= power_on().alt);
        assert(cpu@.memory =~= power_on().memory);
        assert(cpu@.ports =~= power_on().ports);
        cpu
    }

    /// Resets the processor and its devices and keeps the memory, so that
    /// a loaded program can run again.
    pub fn reset(&mut self)
        ensures
            final(self)@ == after_reset(old(self)@),
            well_formed(final(self)@),
    {
        self.check();
        self.regs = [0; 16];
        self.regs[2] = 0xFFFE;
        self.regs_alt = [0; 8];
        self.pc = 0x0100;
        self.flags = 0;
        self.ports = [0; 256];
        self.ports[0x80] = 0x02;
        self.halted = false;
        self.cycles = 0;
        self.serial_out = Vec::new();
        self.serial_in = VecDeque::new();
        assert(self@.regs =~= power_on().regs);
        assert(self@.alt =~= power_on().alt);
        assert(self@.ports =~= power_on().ports);
    }

    /// Copies an image into memory from address 0 and moves the program
    /// counter to the first 16-bit word of the image that is not zero, if
    /// there is one. Bytes of the image beyond the end of memory are
    /// dropped, and an entry point beyond it is taken modulo 2^16.
    pub fn load_program(&mut self, program: &[u8])
        ensures
            final(self)@.memory == loaded(old(self)@.memory, program@),
            forall|i: int| is_entry(program@, i) ==> final(self)@.pc == wrap16(i),
            (forall|i: int| !is_entry(program@, i)) ==> final(self)@.pc == old(self)@.pc,
            final(self)@ == (CpuState {
                memory: final(self)@.memory,
                pc: final(self)@.pc,
                ..old(self)@
            }),
            well_formed(final(self)@),
    {
        self.check();
        let n = if program.len() < MEM_SIZE {
            program.len()
        } else {
            MEM_SIZE
        };
        let mut i: usize = 0;
        while i < n
            invariant
                i <= n <= 65536,
                n <= program.len(),
                self.memory@.len() == 65536,
                forall|a: int| 0 <= a < i ==> self.memory@[a] == program@[a],
                forall|a: int| i <= a < 65536 ==> self.memory@[a] == old(self).memory@[a],
                self@ == (CpuState { memory: self@.memory, ..old(self)@ }),
            decreases n - i,
        {
            self.memory.set(i as u16, program[i]);
            i += 1;
        }
        assert(self@.memory =~= loaded(old(self)@.memory, program@));
        let mut k: usize = 0;
        while k < program.len() && k + 1 < program.len()
            invariant
                k % 2 == 0,
                k <= program.len(),
                forall|j: int| 0 <= j < k && j % 2 == 0 ==> #[trigger] is_zero_word(program@, j),
                self@ == (CpuState {
                    memory: loaded(old(self)@.memory, program@),
                    ..old(self)@
                }),
            decreases program.len() - k,
        {
            if program[k] != 0 || program[k + 1] != 0 {
                self.pc = (k % 65536) as u16;
                assert(is_entry(program@, k as int));
                assert forall|i: int| is_entry(program@, i) implies i == k by {
                    if i < k {
                        assert(is_zero_word(program@, i));
                    } else if i > k {
                        assert(is_zero_word(program@, k as int));
                    }
                }
                return ;
            }
            k += 2;
        }
        assert forall|i: int| !is_entry(program@, i) by {
            if is_entry(program@, i) {
                assert(i < k);
                assert(is_zero_word(program@, i));
            }
        }
    }

    /// Turns instruction tracing on or off. The processor only keeps the
    /// setting; its owner does the printing.
    pub fn set_trace(&mut self, trace: bool)
        ensures
            final(self)@ == (CpuState { trace, ..old(self)@ }),
    {
        self.check();
        self.trace = trace;
    }

    /// Whether instruction tracing is on.
    pub fn is_tracing(&self) -> (r: bool)
        ensures
            r == self@.trace,
    {
        self.trace
    }

    /// Tells the owner whether serial output should be echoed.
    pub fn set_quiet(&mut self, quiet: bool)
        ensures
            final(self)@ == (CpuState { quiet, ..old(self)@ }),
    {
        self.check();
        self.quiet = quiet;
    }

    /// Whether serial output should not be echoed.
    pub fn is_quiet(&self) -> (r: bool)
        ensures
            r == self@.quiet,
    {
        self.quiet
    }

    /// The program counter.
    pub fn get_pc(&self) -> (pc: u16)
        ensures
            pc == self@.pc,
    {
        self.pc
    }

    /// Moves the program counter.
    pub fn set_pc(&mut self, pc: u16)
        ensures
            final(self)@ == with_pc(old(self)@, pc),
    {
        self.check();
        self.pc = pc;
    }

    /// The stack pointer: register 2.
    pub fn get_sp(&self) -> (sp: u16)
        ensures
            sp == reg(self@, 2),
    {
        self.regs[2]
    }

    /// The flags byte.
    pub fn get_flags(&self) -> (f: u8)
        ensures
            f == self@.flags,
    {
        self.flags
    }

    /// Instructions executed since power-on or the last reset.
    pub fn get_cycles(&self) -> (n: u64)
        ensures
            n == self@.cycles,
    {
        self.cycles
    }

    /// Whether the processor has executed `HALT`.
    pub fn is_halted(&self) -> (h: bool)
        ensures
            h == self@.halted,
    {
        self.halted
    }

    /// The value that register `r` reads as.
    pub fn get_register(&self, r: usize) -> (v: u16)
        requires
            r < 16,
        ensures
            v == reg(self@, r as int),
    {
        self.get_reg(r)
    }

    /// The byte of memory at `addr`.
    pub fn read_memory(&self, addr: u16) -> (b: u8)
        ensures
            b == byte_at(self@, addr),
            well_formed(self@),
    {
        self.check();
        self.memory.get(addr)
    }

    /// The bytes written to the serial port since they were last cleared.
    pub fn get_serial_output(&self) -> (out: &Vec<u8>)
        ensures
            out@ == self@.serial_out,
    {
        &self.serial_out
    }

    /// Forgets the bytes written to the serial port.
    pub fn clear_serial_output(&mut self)
        ensures
            final(self)@ == (CpuState { serial_out: Seq::empty(), ..old(self)@ }),
    {
        self.check();
        self.serial_out = Vec::new();
        assert(self@.serial_out =~= Seq::empty());
    }

    /// Queues a byte for the serial port to read.
    pub fn send_key(&mut self, key: u8)
        ensures
            final(self)@ == (CpuState {
                serial_in: old(self)@.serial_in.push(key),
                ..old(self)@
            }),
    {
        self.check();
        self.serial_in.push_back(key);
    }

    /// Reads a register: register 0 reads as zero.
    pub fn get_reg(&self, r: usize) -> (v: u16)
        requires
            r < 16,
        ensures
            v == reg(self@, r as int),
    {
        if r == 0 {
            0
        } else {
            self.regs[r]
        }
    }

    /// Writes a register: writes to register 0 are ignored.
    pub fn set_reg(&mut self, r: usize, val: u16)
        requires
            r < 16,
        ensures
            final(self)@ == with_reg(old(self)@, r as int, val),
    {
        self.check();
        if r != 0 {
            self.regs[r] = val;
        }
    }

    /// Reads a byte of memory.
    pub fn read_byte(&self, addr: u16) -> (b: u8)
        ensures
            b == byte_at(self@, addr),
    {
        self.check();
        self.memory.get(addr)
    }

    /// Writes a byte of memory.
    pub fn write_byte(&mut self, addr: u16, val: u8)
        ensures
            final(self)@ == with_byte(old(self)@, addr, val),
    {
        self.check();
        self.memory.set(addr, val);
    }

    /// Reads a little-endian word; the address of its second byte wraps.
    pub fn read_word(&self, addr: u16) -> (w: u16)
        ensures
            w == word_at(self@, addr),
    {
        self.check();
        let lo = self.memory.get(addr);
        let hi = self.memory.get(addr.wrapping_add(1));
        make_word(lo, hi)
    }

    /// Writes a little-endian word; the address of its second byte wraps.
    pub fn write_word(&mut self, addr: u16, val: u16)
        ensures
            final(self)@ == with_word(old(self)@, addr, val),
    {
        self.check();
        self.memory.set(addr, (val & 0xFF) as u8);
        self.memory.set(addr.wrapping_add(1), (val >> 8) as u8);
    }

    /// Reads a port.
    pub fn port_read(&mut self, port: u8) -> (b: u8)
        ensures
            b == port_value(old(self)@, port),
            final(self)@ == after_port_read(old(self)@, port),
    {
        self.check();
        if port == 0x80 {
            0x02
        } else if port == 0x81 {
            match self.serial_in.pop_front() {
                Some(b) => b,
                None => 0,
            }
        } else {
            self.ports[port as usize]
        }
    }

    /// Writes a port.
    pub fn port_write(&mut self, port: u8, val: u8)
        ensures
            final(self)@ == after_port_write(old(self)@, port, val),
    {
        self.check();
        if port == 0x81 {
            self.serial_out.push(val);
        } else {
            self.ports[port as usize] = val;
        }
    }

    fn set_flags(&mut self, flags: u8)
        ensures
            final(self)@ == with_flags(old(self)@, flags),
    {
        self.check();
        self.flags = flags;
    }

    fn set_zero_flag(&mut self, z: bool)
        ensures
            final(self)@ == with_zero_flag(old(self)@, z),
    {
        self.check();
        if z {
            self.flags = self.flags | FLAG_Z;
        } else {
            self.flags = self.flags & !FLAG_Z;
        }
    }

    /// Reads the word at the program counter and moves past it.
    fn fetch_word(&mut self) -> (w: u16)
        ensures
            w == word_at(old(self)@, old(self)@.pc),
            final(self)@ == fetched(old(self)@),
    {
        self.check();
        let w = self.read_word(self.pc);
        self.pc = self.pc.wrapping_add(2);
        w
    }

    /// Executes one instruction, if the processor is running.
    ///
    /// Returns `Ok(true)` while the processor runs on, `Ok(false)` once it
    /// is halted, and the message of [`fault_text`] when the word at the
    /// program counter names no operation. The new state is the one that
    /// [`step_spec`] gives.
    pub fn step(&mut self) -> (r: Result<bool, String>)
        ensures
            final(self)@ == step_spec(old(self)@),
            well_formed(final(self)@),
            step_faults(old(self)@) ==> (r matches Err(e) && e@ == fault_text(
                word_at(old(self)@, old(self)@.pc),
            )),
            !step_faults(old(self)@) ==> r == Ok::<bool, String>(!final(self)@.halted),
    {
        self.check();
        if self.halted {
            return Ok(false);
        }
        let instr = self.fetch_word();
        match self.execute(instr) {
            Ok(()) => {
                self.cycles = self.cycles.wrapping_add(1);
                self.check();
                Ok(!self.halted)
            },
            Err(e) => Err(e),
        }
    }

    /// Decodes an instruction word that has been fetched and executes it.
    #[verifier::rlimit(40)]
    fn execute(&mut self, instr: u16) -> (r: Result<(), String>)
        ensures
            match execute_spec(old(self)@, instr) {
                Some(t) => r is Ok && final(self)@ == t,
                None => r matches Err(e) && e@ == fault_text(instr) && final(self)@ == old(self)@,
            },
    {
        let op = opcode(instr);
        let rd = rd_field(instr) as usize;
        let rs1 = rs1_field(instr) as usize;
        let func = func_field(instr);
        if op <= 0x5 {
            self.execute_alu(instr);
            Ok(())
        } else if op == 0x6 {
            self.execute_load(rd, rs1, func)
        } else if op == 0x7 {
            self.execute_store(rd, rs1, func)
        } else if op == 0x8 {
            self.execute_branch(instr);
            Ok(())
        } else if op == 0x9 {
            self.execute_jump(instr);
            Ok(())
        } else if op == 0xA {
            self.execute_shift(rd, rs1, func);
            Ok(())
        } else if op == 0xB {
            self.execute_muldiv(rd, rs1, func)
        } else if op == 0xC {
            self.execute_misc(rd, rs1, func)
        } else if op == 0xD {
            self.execute_io(rd, rs1, func)
        } else if op == 0xE {
            self.execute_system(rd as u16, (instr % 256) as u8)
        } else {
            let imm16 = self.fetch_word();
            self.execute_extended(rd, rs1, func, imm16);
            Ok(())
        }
    }

    /// Opcodes 0 to 5.
    fn execute_alu(&mut self, instr: u16)
        requires
            crate::isa::opcode_of(instr) <= 0x5,
        ensures
            final(self)@ == alu_spec(old(self)@, instr),
    {
        let op = opcode(instr);
        let rd = rd_field(instr) as usize;
        let a = self.get_reg(rs1_field(instr) as usize);
        let b = self.get_reg(func_field(instr) as usize);
        if op == 0x0 {
            let (result, flags) = add_words(a, b);
            self.set_reg(rd, result);
            self.set_flags(flags);
        } else if op == 0x1 {
            let (result, flags) = sub_words(a, b);
            self.set_reg(rd, result);
            self.set_flags(flags);
        } else if op == 0x2 {
            let result = a & b;
            let flags = flags_after_logic(self.flags, result);
            self.set_reg(rd, result);
            self.set_flags(flags);
        } else if op == 0x3 {
            let result = a | b;
            let flags = flags_after_logic(self.flags, result);
            self.set_reg(rd, result);
            self.set_flags(flags);
        } else if op == 0x4 {
            let result = a ^ b;
            let flags = flags_after_logic(self.flags, result);
            self.set_reg(rd, result);
            self.set_flags(flags);
        } else {
            let x = self.get_reg(rd);
            let y = sign_extend((instr % 256) as u8);
            let (result, flags) = add_words(x, y);
            self.set_reg(rd, result);
            self.set_flags(flags);
        }
    }

    /// Opcode 6.
    fn execute_load(&mut self, rd: usize, rs1: usize, func: u16) -> (r: Result<(), String>)
        requires
            rd < 16,
            rs1 < 16,
            func < 16,
        ensures
            match load_spec(old(self)@, rd as int, rs1 as int, func) {
                Some(t) => r is Ok && final(self)@ == t,
                None => r matches Err(e) && e@ == "Unknown load func: 0x"@ + crate::text::hex_digits(
                    func as nat,
                    1,
                ) && final(self)@ == old(self)@,
            },
    {
        if func == 0x8 {
            self.set_reg(rd, (rs1 * 256) as u16);
            return Ok(());
        }
        if func > 0x8 {
            return Err(unknown("Unknown load func: 0x", func));
        }
        let d: i32 = if func == 0x3 {
            2
        } else if func == 0x4 {
            4
        } else if func == 0x5 {
            6
        } else if func == 0x6 {
            -2
        } else if func == 0x7 {
            -4
        } else {
            0
        };
        let addr = displaced(self.get_reg(rs1), d);
        if func == 0x1 {
            let val = sign_extend(self.read_byte(addr));
            self.set_reg(rd, val);
        } else if func == 0x2 {
            let val = self.read_byte(addr) as u16;
            self.set_reg(rd, val);
        } else {
            let val = self.read_word(addr);
            self.set_reg(rd, val);
        }
        Ok(())
    }

    /// Opcode 7.
    fn execute_store(&mut self, rs2: usize, rs1: usize, func: u16) -> (r: Result<(), String>)
        requires
            rs2 < 16,
            rs1 < 16,
            func < 16,
        ensures
            match store_spec(old(self)@, rs2 as int, rs1 as int, func) {
                Some(t) => r is Ok && final(self)@ == t,
                None => r matches Err(e) && e@ == "Unknown store func: 0x"@
                    + crate::text::hex_digits(func as nat, 1) && final(self)@ == old(self)@,
            },
    {
        if func >= 0x7 {
            return Err(unknown("Unknown store func: 0x", func));
        }
        let d: i32 = if func == 0x2 {
            2
        } else if func == 0x3 {
            4
        } else if func == 0x4 {
            6
        } else if func == 0x5 {
            -2
        } else if func == 0x6 {
            -4
        } else {
            0
        };
        let addr = displaced(self.get_reg(rs1), d);
        let value = self.get_reg(rs2);
        if func == 0x1 {
            self.write_byte(addr, (value % 256) as u8);
        } else {
            self.write_word(addr, value);
        }
        Ok(())
    }

    /// Opcode 8.
    fn execute_branch(&mut self, instr: u16)
        ensures
            final(self)@ == branch_spec(old(self)@, instr),
    {
        let cond = rd_field(instr);
        if check_condition(cond, self.flags) {
            let b = (instr % 256) as u8;
            let off: i32 = if b < 128 {
                b as i32
            } else {
                b as i32 - 256
            };
            let target = displaced(self.pc, off * 2);
            self.set_pc(target);
        }
    }

    /// Opcode 9.
    fn execute_jump(&mut self, instr: u16)
        ensures
            final(self)@ == jump_spec(old(self)@, instr),
    {
        let rd = rd_field(instr) as usize;
        let rs1 = rs1_field(instr) as usize;
        let func = func_field(instr);
        if rd == 0xF && func == 0 {
            let target = self.get_reg(rs1);
            self.set_pc(target);
        } else if func == 0x1 && rd != 0 {
            let ret = self.pc;
            let target = self.get_reg(rs1);
            self.set_pc(target);
            self.set_reg(rd, ret);
        } else {
            let field = instr % 0x1000;
            let off: i32 = if field < 0x800 {
                field as i32
            } else {
                field as i32 - 0x1000
            };
            let target = displaced(self.pc, off * 2);
            self.set_pc(target);
        }
    }

    /// Opcode 10.
    fn execute_shift(&mut self, rd: usize, rs1: usize, func: u16)
        requires
            rd < 16,
            rs1 < 16,
        ensures
            final(self)@ == shift_op_spec(old(self)@, rd as int, rs1 as int, func),
    {
        let (result, flags) = shift(func, self.get_reg(rs1), self.flags);
        self.set_reg(rd, result);
        self.set_flags(flags);
    }

    /// Opcode 11.
    fn execute_muldiv(&mut self, rd: usize, rs1: usize, func: u16) -> (r: Result<(), String>)
        requires
            rd < 16,
            rs1 < 16,
            func < 16,
        ensures
            match muldiv_op_spec(old(self)@, rd as int, rs1 as int, func) {
                Some(t) => r is Ok && final(self)@ == t,
                None => r matches Err(e) && e@ == "Unknown muldiv func: 0x"@
                    + crate::text::hex_digits(func as nat, 1) && final(self)@ == old(self)@,
            },
    {
        if func < 0x7 {
            let result = muldiv(func, self.get_reg(rd), self.get_reg(rs1));
            self.set_reg(rd, result);
            Ok(())
        } else if func == 0x7 {
            let val = daa(self.get_reg(rd), self.flags);
            let flags = flags_after_logic(self.flags, val);
            self.set_reg(rd, val % 256);
            self.set_flags(flags);
            Ok(())
        } else {
            Err(unknown("Unknown muldiv func: 0x", func))
        }
    }

    /// One step of a block copy.
    fn copy_one(&mut self, up: bool)
        ensures
            final(self)@ == copy_step(old(self)@, if up { 1int } else { -1int }),
    {
        let d: i32 = if up {
            1
        } else {
            -1
        };
        let src = self.get_reg(5);
        let dst = self.get_reg(6);
        let count = self.get_reg(4);
        let byte = self.read_byte(src);
        self.write_byte(dst, byte);
        self.set_reg(5, displaced(src, d));
        self.set_reg(6, displaced(dst, d));
        self.set_reg(4, displaced(count, -1));
    }

    /// A repeated block copy.
    fn copy_block(&mut self, up: bool)
        ensures
            final(self)@ == copy_all(old(self)@, if up { 1int } else { -1int }),
    {
        self.check();
        let ghost delta = if up { 1int } else { -1int };
        while self.get_reg(4) != 0
            invariant
                well_formed(self@),
                delta == (if up { 1int } else { -1int }),
                copy_all(self@, delta) == copy_all(old(self)@, delta),
            decreases reg(self@, 4),
        {
            self.copy_one(up);
            self.check();
        }
    }

    /// Searches memory from R5 on, for R6 bytes, for the low byte of R4.
    fn search_block(&mut self)
        ensures
            final(self)@ == misc_spec(old(self)@, 0, 0, 0x9)->Some_0,
    {
        self.check();
        let needle = (self.get_reg(4) % 256) as u8;
        let mut addr = self.get_reg(5);
        let mut count = self.get_reg(6);
        let mut found = false;
        while count > 0 && !found
            invariant
                self@ == old(self)@,
                well_formed(self@),
                search(self@.memory, needle, reg(old(self)@, 5), reg(old(self)@, 6)) == if found {
                    (true, addr, count)
                } else {
                    search(self@.memory, needle, addr, count)
                },
            decreases count + (if found { 0int } else { 1int }),
        {
            if self.read_byte(addr) == needle {
                found = true;
            } else {
                addr = addr.wrapping_add(1);
                count = count - 1;
            }
        }
        self.set_zero_flag(found);
        self.set_reg(5, addr);
        self.set_reg(6, count);
    }

    /// Fills R4 bytes of memory from R6 on with the low byte of R5.
    fn fill_block(&mut self)
        ensures
            final(self)@ == misc_spec(old(self)@, 0, 0, 0xA)->Some_0,
    {
        self.check();
        let val = (self.get_reg(5) % 256) as u8;
        let mut dst = self.get_reg(6);
        let mut count = self.get_reg(4);
        while count > 0
            invariant
                well_formed(self@),
                self@ == (CpuState { memory: self@.memory, ..old(self)@ }),
                filled(self@.memory, val, dst, count) == filled(
                    old(self)@.memory,
                    val,
                    reg(old(self)@, 6),
                    reg(old(self)@, 4),
                ),
                dst == wrap16(reg(old(self)@, 6) + reg(old(self)@, 4) - count),
            decreases count,
        {
            self.write_byte(dst, val);
            dst = dst.wrapping_add(1);
            count = count - 1;
        }
        self.set_reg(6, dst);
        self.set_reg(4, 0);
    }

    /// Exchanges registers 4 to 11 with the alternate bank.
    fn exchange(&mut self)
        ensures
            final(self)@ == (CpuState {
                regs: swapped_regs(old(self)@),
                alt: swapped_alt(old(self)@),
                ..old(self)@
            }),
    {
        let mut i: usize = 0;
        while i < 8
            invariant
                i <= 8,
                forall|k: int| 4 <= k < 4 + i ==> self.regs@[k] == old(self).regs_alt@[k - 4],
                forall|j: int| 0 <= j < i ==> self.regs_alt@[j] == old(self).regs@[j + 4],
                forall|k: int| 4 + i <= k < 12 ==> self.regs@[k] == old(self).regs@[k],
                forall|j: int| i <= j < 8 ==> self.regs_alt@[j] == old(self).regs_alt@[j],
                forall|k: int|
                    0 <= k < 16 && !(4 <= k < 12) ==> self.regs@[k] == old(self).regs@[k],
                self@ == (CpuState { regs: self@.regs, alt: self@.alt, ..old(self)@ }),
            decreases 8 - i,
        {
            let live = self.regs[i + 4];
            self.regs[i + 4] = self.regs_alt[i];
            self.regs_alt[i] = live;
            i += 1;
        }
        assert(self@.regs =~= swapped_regs(old(self)@));
        assert(self@.alt =~= swapped_alt(old(self)@));
    }

    /// Opcode 12.
    #[verifier::rlimit(40)]
    fn execute_misc(&mut self, rd: usize, rs1: usize, func: u16) -> (r: Result<(), String>)
        requires
            rd < 16,
            rs1 < 16,
            func < 16,
        ensures
            match misc_spec(old(self)@, rd as int, rs1 as int, func) {
                Some(t) => r is Ok && final(self)@ == t,
                None => r matches Err(e) && e@ == "Unknown misc func: 0x"@
                    + crate::text::hex_digits(func as nat, 1) && final(self)@ == old(self)@,
            },
    {
        self.check();
        if func == 0x0 {
            let sp = displaced(self.get_reg(2), -2);
            self.set_reg(2, sp);
            let val = self.get_reg(rs1);
            self.write_word(sp, val);
        } else if func == 0x1 {
            let sp = self.get_reg(2);
            let val = self.read_word(sp);
            self.set_reg(rd, val);
            self.set_reg(2, displaced(sp, 2));
        } else if func == 0x2 {
            let (_, flags) = sub_words(self.get_reg(rd), self.get_reg(rs1));
            self.set_flags(flags);
        } else if func == 0x3 {
            let result = self.get_reg(rd) & self.get_reg(rs1);
            let flags = flags_after_logic(self.flags, result);
            self.set_flags(flags);
        } else if func == 0x4 {
            let val = self.get_reg(rs1);
            self.set_reg(rd, val);
        } else if func == 0x5 {
            self.copy_one(true);
            let done = self.get_reg(4) == 0;
            self.set_zero_flag(done);
        } else if func == 0x6 {
            self.copy_one(false);
            let done = self.get_reg(4) == 0;
            self.set_zero_flag(done);
        } else if func == 0x7 {
            self.copy_block(true);
            self.set_zero_flag(true);
        } else if func == 0x8 {
            self.copy_block(false);
            self.set_zero_flag(true);
        } else if func == 0x9 {
            self.search_block();
        } else if func == 0xA {
            self.fill_block();
        } else if func == 0xB {
            self.exchange();
        } else if func == 0xC {
            let flags = self.flags as u16;
            self.set_reg(rd, flags);
        } else if func == 0xD {
            let flags = (self.get_reg(rs1) % 256) as u8;
            self.set_flags(flags);
        } else {
            return Err(unknown("Unknown misc func: 0x", func));
        }
        Ok(())
    }

    /// Opcode 13.
    fn execute_io(&mut self, rd: usize, rs1: usize, func: u16) -> (r: Result<(), String>)
        requires
            rd < 16,
            rs1 < 16,
            func < 16,
        ensures
            match io_spec(old(self)@, rd as int, rs1 as int, func) {
                Some(t) => r is Ok && final(self)@ == t,
                None => r matches Err(e) && e@ == "Unknown I/O func: 0x"@ + crate::text::hex_digits(
                    func as nat,
                    1,
                ) && final(self)@ == old(self)@,
            },
    {
        if func == 0x0 {
            let val = self.port_read(rs1 as u8);
            self.set_reg(rd, val as u16);
        } else if func == 0x1 {
            let val = (self.get_reg(rd) % 256) as u8;
            self.port_write(rs1 as u8, val);
        } else if func == 0x2 {
            let port = (self.get_reg(rs1) % 256) as u8;
            let val = self.port_read(port);
            self.set_reg(rd, val as u16);
        } else if func == 0x3 {
            let port = (self.get_reg(rd) % 256) as u8;
            let val = (self.get_reg(rs1) % 256) as u8;
            self.port_write(port, val);
        } else {
            return Err(unknown("Unknown I/O func: 0x", func));
        }
        Ok(())
    }

    /// Opcode 14.
    fn execute_system(&mut self, func: u16, imm: u8) -> (r: Result<(), String>)
        requires
            func < 16,
        ensures
            match system_spec(old(self)@, func, imm) {
                Some(t) => r is Ok && final(self)@ == t,
                None => r matches Err(e) && e@ == "Unknown system func: 0x"@
                    + crate::text::hex_digits(func as nat, 1) && final(self)@ == old(self)@,
            },
    {
        self.check();
        if func == 0x0 {
        } else if func == 0x1 {
            self.halted = true;
        } else if func == 0x2 {
            self.set_flags(self.flags & !FLAG_I);
        } else if func == 0x3 {
            self.set_flags(self.flags | FLAG_I);
        } else if func == 0x4 {
            let sp = self.get_reg(2);
            let pc = self.read_word(sp);
            let flags = self.flags | FLAG_I;
            self.set_reg(2, displaced(sp, 2));
            self.set_pc(pc);
            self.set_flags(flags);
        } else if func == 0x5 {
            let sp = displaced(self.get_reg(2), -2);
            let pc = self.pc;
            self.set_reg(2, sp);
            self.write_word(sp, pc);
            self.set_pc((imm as u16) * 2);
        } else if func == 0x6 {
            self.set_flags(self.flags | FLAG_C);
        } else if func == 0x7 {
            self.set_flags(self.flags ^ FLAG_C);
        } else {
            return Err(unknown("Unknown system func: 0x", func));
        }
        Ok(())
    }

    /// Opcode 15.
    #[verifier::rlimit(40)]
    fn execute_extended(&mut self, rd: usize, rs1: usize, sub: u16, imm16: u16)
        requires
            rd < 16,
            rs1 < 16,
        ensures
            final(self)@ == extended_spec(old(self)@, rd as int, rs1 as int, sub, imm16),
    {
        let a = self.get_reg(rs1);
        if sub == 0x0 {
            let (result, flags) = add_words(a, imm16);
            self.set_reg(rd, result);
            self.set_flags(flags);
        } else if sub == 0x1 {
            let (result, flags) = sub_words(a, imm16);
            self.set_reg(rd, result);
            self.set_flags(flags);
        } else if sub == 0x2 {
            let result = a & imm16;
            let flags = flags_after_logic(self.flags, result);
            self.set_reg(rd, result);
            self.set_flags(flags);
        } else if sub == 0x3 {
            let result = a | imm16;
            let flags = flags_after_logic(self.flags, result);
            self.set_reg(rd, result);
            self.set_flags(flags);
        } else if sub == 0x4 {
            let result = a ^ imm16;
            let flags = flags_after_logic(self.flags, result);
            self.set_reg(rd, result);
            self.set_flags(flags);
        } else if sub == 0x5 {
            let val = self.read_word(a.wrapping_add(imm16));
            self.set_reg(rd, val);
        } else if sub == 0x6 {
            let val = self.get_reg(rd);
            self.write_word(a.wrapping_add(imm16), val);
        } else if sub == 0x7 {
            self.set_reg(rd, imm16);
        } else if sub == 0x8 {
            self.set_pc(imm16);
        } else if sub == 0x9 {
            let ret = self.pc;
            self.set_reg(rd, ret);
            self.set_pc(imm16);
        } else if sub == 0xA {
            let (_, flags) = sub_words(self.get_reg(rd), imm16);
            self.set_flags(flags);
        } else if sub == 0xB {
            let val = self.port_read((imm16 % 256) as u8);
            self.set_reg(rd, val as u16);
        } else if sub == 0xC {
            self.port_write((imm16 % 256) as u8, (a % 256) as u8);
        } else if sub == 0xD {
            let result = a << (imm16 % 16);
            let flags = flags_after_logic(self.flags, result);
            self.set_reg(rd, result);
            self.set_flags(flags);
        } else if sub == 0xE {
            let result = a >> (imm16 % 16);
            let flags = flags_after_logic(self.flags, result);
            self.set_reg(rd, result);
            self.set_flags(flags);
        } else {
            let result = ((a as i16) >> (imm16 % 16)) as u16;
            let flags = flags_after_logic(self.flags, result);
            self.set_reg(rd, result);
            self.set_flags(flags);
        }
    }
}

/// The message for a function code that names no operation.
fn unknown(prefix: &str, func: u16) -> (s: String)
    ensures
        s@ == prefix@ + crate::text::hex_digits(func as nat, 1),
{
    let mut s = String::from_str(prefix);
    push_hex(&mut s, func as u32, 1);
    s
}

} // verus!
