//! Laws that tie the parts of the toolchain together. Each is stated over
//! the spec functions that the contracts of the executable code use, and
//! proved once and for all.

use crate::alu::{
    FLAG_C, FLAG_H, FLAG_I, FLAG_N, FLAG_V, FLAG_Z, add_flags, add_result, condition_holds,
    is_negative, is_set, lemma_flags_of, logic_flags, muldiv_spec, quotient, remainder, sub_flags,
    sub_result,
};
use crate::encode::word_with;
use crate::isa::{opcode_of, signed16, word_of, wrap16};
use crate::isa_laws::law_fields_round_trip;
use crate::machine::{
    CpuState, copy_all, copy_step, execute_spec, fetched, filled, low, misc_spec, next, reg,
    search, step_faults, step_spec, swapped_alt, swapped_regs, well_formed, with_reg, with_word,
    word_at,
};
use vstd::prelude::*;

verus! {

/// A register other than register 0 reads back what was written to it, and
/// a write leaves every other register as it was.
pub proof fn law_register_write_read(s: CpuState, i: int, j: int, v: u16)
    requires
        well_formed(s),
        1 <= i <= 15,
        0 <= j <= 15,
    ensures
        reg(with_reg(s, i, v), i) == v,
        j != i ==> reg(with_reg(s, i, v), j) == reg(s, j),
        well_formed(with_reg(s, i, v)),
{
}

/// Register 0 reads as zero in every state, whatever was written to it,
/// and a write to it changes nothing.
pub proof fn law_register_zero(s: CpuState, v: u16)
    ensures
        reg(s, 0) == 0,
        with_reg(s, 0, v) == s,
        reg(with_reg(s, 0, v), 0) == 0,
{
}

/// A word reads back as it was written, at every address: also at 0xFFFF,
/// where its second byte lies at address 0.
pub proof fn law_word_write_read(s: CpuState, a: u16, v: u16)
    requires
        well_formed(s),
    ensures
        word_at(with_word(s, a, v), a) == v,
        well_formed(with_word(s, a, v)),
{
    crate::isa::lemma_word_bytes(v, 0, 0);
    assert(next(a) != a);
}

/// A word read at 0xFFFF is made of the byte at 0xFFFF and the byte at 0.
pub proof fn law_word_read_wraps(s: CpuState)
    ensures
        word_at(s, 0xFFFF) == word_of(s.memory[0xFFFF], s.memory[0]),
{
}

/// The state after the live and the alternate bank are exchanged.
pub open spec fn exchanged(s: CpuState) -> CpuState {
    CpuState { regs: swapped_regs(s), alt: swapped_alt(s), ..s }
}

/// Exchanging the banks twice restores every register, live and
/// alternate, and touches nothing else.
pub proof fn law_exchange_twice(s: CpuState)
    requires
        well_formed(s),
    ensures
        exchanged(exchanged(s)) == s,
{
    let t = exchanged(s);
    assert(swapped_regs(t) =~= s.regs);
    assert(swapped_alt(t) =~= s.alt);
}

/// `EXX`, the word 0xC00B, is the exchange of the banks, and two `EXX` in
/// a row leave the processor as it was: every register and every flag.
pub proof fn law_exx_twice(s: CpuState)
    requires
        well_formed(s),
    ensures
        execute_spec(s, 0xC00B) == Some(exchanged(s)),
        execute_spec(exchanged(s), 0xC00B) == Some(s),
{
    law_exchange_twice(s);
    assert((0xC00Bu16 >> 12) & 0xF == 0xC && 0xC00Bu16 & 0xF == 0xB) by (bit_vector);
}

/// The cycle counter after one more step: it wraps at its limit.
pub open spec fn counted(cycles: u64) -> u64 {
    if cycles == u64::MAX {
        0
    } else {
        (cycles + 1) as u64
    }
}

/// Two steps over two `EXX` in a row. The first exchanges the banks; the
/// second gives every register back, live and alternate. Flags, memory
/// and ports are never touched: after both steps the processor differs
/// from what it was only in the program counter, which has passed the two
/// words, and in the cycle counter, which has counted two steps.
pub proof fn law_exx_steps_twice(s: CpuState)
    requires
        well_formed(s),
        !s.halted,
        word_at(s, s.pc) == 0xC00B,
        word_at(s, wrap16(s.pc + 2)) == 0xC00B,
    ensures
        step_spec(s) == (CpuState {
            pc: wrap16(s.pc + 2),
            cycles: counted(s.cycles),
            ..exchanged(s)
        }),
        step_spec(step_spec(s)) == (CpuState {
            pc: wrap16(s.pc + 4),
            cycles: counted(counted(s.cycles)),
            ..s
        }),
{
    let once = step_spec(s);
    law_exx_twice(fetched(s));
    assert(once == (CpuState {
        pc: wrap16(s.pc + 2),
        cycles: counted(s.cycles),
        ..exchanged(s)
    }));
    assert(word_at(once, once.pc) == 0xC00B);
    law_exx_twice(fetched(once));
    law_exchange_twice(s);
    let twice = step_spec(once);
    assert(swapped_regs(fetched(once)) =~= s.regs);
    assert(swapped_alt(fetched(once)) =~= s.alt);
    assert(wrap16(wrap16(s.pc + 2) + 2) == wrap16(s.pc + 4));
}

/// The condition code of the opposite condition: the codes come in pairs
/// that differ in their lowest bit.
pub open spec fn opposite(cond: u16) -> u16 {
    if cond % 2 == 0 {
        (cond + 1) as u16
    } else {
        (cond - 1) as u16
    }
}

/// Of a branch condition and its opposite exactly one holds, whatever the
/// flags.
pub proof fn law_conditions_complement(cond: u16, flags: u8)
    requires
        cond < 16,
    ensures
        condition_holds(opposite(cond), flags) == !condition_holds(cond, flags),
{
}

/// The value that `PUSH Rs` stores: the register as it reads once the
/// stack pointer has moved.
pub open spec fn pushed_value(s: CpuState, rs: int) -> u16 {
    if rs == 2 {
        wrap16(reg(s, 2) - 2)
    } else {
        reg(s, rs)
    }
}

/// `PUSH Rs` followed by `POP Rd` leaves the stack pointer where it was
/// and, unless `Rd` is register 0 or the stack pointer itself, leaves in
/// `Rd` the value that was pushed: for every source register but the stack
/// pointer, the value it had. No register but `Rd` changes, no byte of
/// memory but the two below the stack pointer, and nothing else of the
/// processor.
pub proof fn law_push_pop(s: CpuState, rs: int, rd: int)
    requires
        well_formed(s),
        0 <= rs <= 15,
        0 <= rd <= 15,
    ensures
        misc_spec(s, 0, rs, 0x0) is Some,
        misc_spec(misc_spec(s, 0, rs, 0x0)->Some_0, rd, 0, 0x1) is Some,
        ({
            let after = misc_spec(misc_spec(s, 0, rs, 0x0)->Some_0, rd, 0, 0x1)->Some_0;
            &&& reg(after, 2) == reg(s, 2)
            &&& (rd != 0 && rd != 2 ==> reg(after, rd) == pushed_value(s, rs))
            &&& (rs != 2 ==> pushed_value(s, rs) == reg(s, rs))
            &&& forall|k: int| 0 <= k <= 15 && k != rd ==> #[trigger] reg(after, k) == reg(s, k)
            &&& forall|a: int|
                0 <= a < 65536 && a != wrap16(reg(s, 2) - 2) && a != wrap16(reg(s, 2) - 1)
                    ==> #[trigger] after.memory[a] == s.memory[a]
            &&& after == (CpuState { regs: after.regs, memory: after.memory, ..s })
            &&& well_formed(after)
        }),
{
    let sp = wrap16(reg(s, 2) - 2);
    let lowered = with_reg(s, 2, sp);
    law_word_write_read(lowered, sp, reg(lowered, rs));
}

/// The same for the words that the assembler makes of `PUSH Rs` and `POP
/// Rd`: the emulator executes them as the push and the pop of those
/// registers, so that executing one after the other restores the stack
/// pointer, leaves the pushed value in `Rd`, and changes no other
/// register and no byte of memory but the two below the stack pointer.
pub proof fn law_push_then_pop_executes(s: CpuState, rs: u8, rd: u8)
    requires
        well_formed(s),
        rs < 16,
        rd < 16,
    ensures
        execute_spec(s, word_with(0xC000, 0, rs, 0x0)) == misc_spec(s, 0, rs as int, 0x0),
        execute_spec(s, word_with(0xC000, 0, rs, 0x0)) matches Some(pushed) && execute_spec(
            pushed,
            word_with(0xC000, rd, 0, 0x1),
        ) == misc_spec(pushed, rd as int, 0, 0x1),
{
    assert(0xC000u16 & 0x0FFF == 0 && 0xC000u16 >> 12 == 0xC) by (bit_vector);
    law_fields_round_trip(0xC000, 0, rs, 0x0);
    law_fields_round_trip(0xC000, rd, 0, 0x1);
}

/// A repeated block copy keeps the machine's dimensions.
proof fn lemma_copy_keeps_dimensions(s: CpuState, delta: int)
    requires
        well_formed(s),
    ensures
        well_formed(copy_all(s, delta)),
    decreases reg(s, 4),
{
    if reg(s, 4) != 0 {
        lemma_copy_keeps_dimensions(copy_step(s, delta), delta);
    }
}

/// A fill keeps the size of memory.
proof fn lemma_fill_keeps_size(memory: Seq<u8>, val: u8, addr: u16, count: u16)
    requires
        memory.len() == 65536,
    ensures
        filled(memory, val, addr, count).len() == 65536,
    decreases count,
{
    if count != 0 {
        lemma_fill_keeps_size(memory.update(addr as int, val), val, next(addr), (count - 1) as u16);
    }
}

/// No instruction changes the dimensions of the machine: after every
/// step there are sixteen registers, eight alternates, 65 536 bytes of
/// memory and 256 ports, so that no access can ever be out of range.
#[verifier::rlimit(40)]
pub proof fn law_step_keeps_dimensions(s: CpuState)
    requires
        well_formed(s),
    ensures
        well_formed(step_spec(s)),
{
    let t = fetched(s);
    let instr = word_at(s, s.pc);
    crate::isa::lemma_fields_are_nibbles(instr);
    if opcode_of(instr) == 0xC {
        lemma_copy_keeps_dimensions(t, 1);
        lemma_copy_keeps_dimensions(t, -1);
        lemma_fill_keeps_size(t.memory, low(reg(t, 5)), reg(t, 6), reg(t, 4));
    }
}

/// A step of a halted machine changes nothing, and a step of a running
/// machine that does not fail counts one cycle.
pub proof fn law_step_counts_one_cycle(s: CpuState)
    requires
        well_formed(s),
    ensures
        s.halted ==> step_spec(s) == s,
        !s.halted && !step_faults(s) && s.cycles < u64::MAX ==> step_spec(s).cycles == s.cycles
            + 1,
        step_faults(s) ==> step_spec(s) == fetched(s),
{
    if !s.halted && !step_faults(s) {
        lemma_execute_keeps_cycles(fetched(s), word_at(s, s.pc));
    }
}

/// No instruction touches the cycle counter itself.
proof fn lemma_execute_keeps_cycles(s: CpuState, instr: u16)
    requires
        well_formed(s),
    ensures
        execute_spec(s, instr) matches Some(t) ==> t.cycles == s.cycles,
{
    if opcode_of(instr) == 0xC {
        lemma_copy_keeps_cycles(s, 1);
        lemma_copy_keeps_cycles(s, -1);
    }
}

/// A repeated block copy does not touch the cycle counter.
proof fn lemma_copy_keeps_cycles(s: CpuState, delta: int)
    requires
        well_formed(s),
    ensures
        copy_all(s, delta).cycles == s.cycles,
    decreases reg(s, 4),
{
    if reg(s, 4) != 0 {
        lemma_copy_keeps_cycles(copy_step(s, delta), delta);
    }
}

/// How far the address `a` lies after the address `from`, going up and
/// around the top of memory.
pub open spec fn distance_after(a: int, from: u16) -> int {
    (a - from) % 0x10000
}

/// What a fill leaves in memory: the pattern in the `count` bytes from
/// `addr` on, around the top of memory if need be, and every other byte
/// as it was.
pub proof fn law_fill_contents(memory: Seq<u8>, val: u8, addr: u16, count: u16, a: int)
    requires
        memory.len() == 65536,
        0 <= a < 65536,
    ensures
        filled(memory, val, addr, count)[a] == (if distance_after(a, addr) < count {
            val
        } else {
            memory[a]
        }),
    decreases count,
{
    if count != 0 {
        law_fill_contents(memory.update(addr as int, val), val, next(addr), (count - 1) as u16, a);
        if a != addr {
            assert(distance_after(a, next(addr)) == distance_after(a, addr) - 1);
        }
    }
}

/// What a search finds: it stops at the first of the `count` bytes from
/// `addr` on that equals the needle, and leaves there the number of bytes
/// that were still to be searched; if none equals it, it stops after the
/// last with nothing left.
pub proof fn law_search_finds_first(memory: Seq<u8>, needle: u8, addr: u16, count: u16, k: int)
    requires
        memory.len() == 65536,
        0 <= k < count,
    ensures
        ({
            let (found, stop, left) = search(memory, needle, addr, count);
            &&& found ==> memory[stop as int] == needle && 0 < left <= count && stop == wrap16(
                addr + count - left,
            )
            &&& found && k < count - left ==> memory[wrap16(addr + k) as int] != needle
            &&& !found ==> memory[wrap16(addr + k) as int] != needle && left == 0 && stop
                == wrap16(addr + count)
        }),
    decreases count,
{
    if memory[addr as int] != needle {
        if count > 1 {
            if k >= 1 {
                law_search_finds_first(memory, needle, next(addr), (count - 1) as u16, k - 1);
            } else {
                law_search_finds_first(memory, needle, next(addr), (count - 1) as u16, 0);
            }
        }
    }
}

/// What the flags say after an addition: Z and N describe the result, C
/// tells that the unsigned sum does not fit a word, and V that the signed
/// sum does not.
pub proof fn law_add_flags(a: u16, b: u16)
    ensures
        is_set(add_flags(a, b), FLAG_Z) == (add_result(a, b) == 0),
        is_set(add_flags(a, b), FLAG_N) == (signed16(add_result(a, b)) < 0),
        is_set(add_flags(a, b), FLAG_C) == (a + b > 0xFFFF),
        is_set(add_flags(a, b), FLAG_V) == !(-0x8000 <= signed16(a) + signed16(b) <= 0x7FFF),
        !is_set(add_flags(a, b), FLAG_I),
{
    let r = add_result(a, b);
    lemma_flags_of(
        is_negative(r),
        r == 0,
        a + b > 0xFFFF,
        is_negative(a) == is_negative(b) && is_negative(a) != is_negative(r),
    );
}

/// What the flags say after a subtraction or comparison: Z and N describe
/// the difference, C tells that there was no borrow, and V that the
/// signed difference does not fit a word.
pub proof fn law_sub_flags(a: u16, b: u16)
    ensures
        is_set(sub_flags(a, b), FLAG_Z) == (a == b),
        is_set(sub_flags(a, b), FLAG_N) == (signed16(sub_result(a, b)) < 0),
        is_set(sub_flags(a, b), FLAG_C) == (a >= b),
        is_set(sub_flags(a, b), FLAG_V) == !(-0x8000 <= signed16(a) - signed16(b) <= 0x7FFF),
        !is_set(sub_flags(a, b), FLAG_I),
{
    let r = sub_result(a, b);
    lemma_flags_of(
        is_negative(r),
        r == 0,
        a >= b,
        is_negative(a) != is_negative(b) && is_negative(b) == is_negative(r),
    );
}

/// What the flags say after a logic operation: N and Z describe the
/// result, C and V are clear, and H and I stay as they were.
pub proof fn law_logic_flags(flags: u8, r: u16)
    ensures
        is_set(logic_flags(flags, r), FLAG_N) == is_negative(r),
        is_set(logic_flags(flags, r), FLAG_Z) == (r == 0),
        !is_set(logic_flags(flags, r), FLAG_C),
        !is_set(logic_flags(flags, r), FLAG_V),
        is_set(logic_flags(flags, r), FLAG_H) == is_set(flags, FLAG_H),
        is_set(logic_flags(flags, r), FLAG_I) == is_set(flags, FLAG_I),
{
    let n = is_negative(r);
    let z = r == 0;
    let f = logic_flags(flags, r);
    assert({
        &&& (f & 0x80 != 0) == n
        &&& (f & 0x40 != 0) == z
        &&& f & 0x20 == 0
        &&& f & 0x10 == 0
        &&& f & 0x08 == flags & 0x08
        &&& f & 0x04 == flags & 0x04
    }) by (bit_vector)
        requires
            f == (flags & 0x0Fu8) | (if n { 0x80u8 } else { 0u8 }) | (if z { 0x40u8 } else { 0u8 }),
    ;
}

/// After a comparison of `a` with `b`, every branch condition holds
/// exactly when the relation it is named for holds between the two: the
/// signed conditions of the numbers read as two's complement, the
/// unsigned ones of the plain words. The carry conditions read "no
/// borrow": `LTU` and `CC` hold when the carry is clear, `GEU` and `CS`
/// when it is set.
#[verifier::rlimit(40)]
pub proof fn law_compare_then_branch(a: u16, b: u16)
    ensures
        condition_holds(0x0, sub_flags(a, b)) == (a == b),
        condition_holds(0x1, sub_flags(a, b)) == (a != b),
        condition_holds(0x2, sub_flags(a, b)) == (signed16(a) < signed16(b)),
        condition_holds(0x3, sub_flags(a, b)) == (signed16(a) >= signed16(b)),
        condition_holds(0x4, sub_flags(a, b)) == (a < b),
        condition_holds(0x5, sub_flags(a, b)) == (a >= b),
        condition_holds(0xA, sub_flags(a, b)) == (a >= b),
        condition_holds(0xB, sub_flags(a, b)) == (a < b),
        condition_holds(0xC, sub_flags(a, b)) == (signed16(a) > signed16(b)),
        condition_holds(0xD, sub_flags(a, b)) == (signed16(a) <= signed16(b)),
        condition_holds(0xE, sub_flags(a, b)) == (a > b),
        condition_holds(0xF, sub_flags(a, b)) == (a <= b),
{
    law_sub_flags(a, b);
}

/// Division by zero is defined: the quotient is 0xFFFF and the remainder
/// is the dividend, signed or not.
pub proof fn law_division_by_zero(a: u16)
    ensures
        muldiv_spec(0x3, a, 0) == 0xFFFF,
        muldiv_spec(0x4, a, 0) == 0xFFFF,
        muldiv_spec(0x5, a, 0) == a,
        muldiv_spec(0x6, a, 0) == a,
{
}

/// Quotient and remainder belong together: the divisor times the quotient
/// plus the remainder is the dividend, and the remainder is smaller than
/// the divisor.
pub proof fn law_division(a: u16, b: u16)
    requires
        b != 0,
    ensures
        muldiv_spec(0x4, a, b) * b + muldiv_spec(0x6, a, b) == a,
        muldiv_spec(0x6, a, b) < b,
        quotient(signed16(a), signed16(b)) * signed16(b) + remainder(signed16(a), signed16(b))
            == signed16(a),
{
    let x = signed16(a);
    let y = signed16(b);
    let ax = if x >= 0 { x } else { -x };
    let ay = if y >= 0 { y } else { -y };
    assert((a / b) * b + a % b == a && a % b < b) by (nonlinear_arith)
        requires
            b > 0,
    ;
    assert((ax / ay) * ay + ax % ay == ax) by (nonlinear_arith)
        requires
            ay > 0,
    ;
    assert(quotient(x, y) * y + remainder(x, y) == x) by (nonlinear_arith)
        requires
            (ax / ay) * ay + ax % ay == ax,
            ax == (if x >= 0 { x } else { -x }),
            ay == (if y >= 0 { y } else { -y }),
            quotient(x, y) == (if (x >= 0) == (y >= 0) { ax / ay } else { -(ax / ay) }),
            remainder(x, y) == (if x >= 0 { ax % ay } else { -(ax % ay) }),
    ;
}

} // verus!
