//! The arithmetic of the processor on plain values: results, flags and
//! branch conditions. Nothing here touches the machine's state.

use crate::isa::{signed16, wrap16};
use vstd::prelude::*;

verus! {

/// Negative: bit 15 of the result.
pub const FLAG_N: u8 = 0x80;

/// Zero: the result is zero.
pub const FLAG_Z: u8 = 0x40;

/// Carry: unsigned overflow on addition, no borrow on subtraction.
pub const FLAG_C: u8 = 0x20;

/// Overflow of the signed result.
pub const FLAG_V: u8 = 0x10;

/// Half-carry, read by the decimal adjust.
pub const FLAG_H: u8 = 0x08;

/// Interrupt enable.
pub const FLAG_I: u8 = 0x04;

/// Whether a flag is set in the flags byte.
pub open spec fn is_set(flags: u8, mask: u8) -> bool {
    flags & mask != 0
}

/// Whether a word is negative as a two's complement number.
pub open spec fn is_negative(w: u16) -> bool {
    w >= 0x8000
}

/// The flags byte that holds exactly the given N, Z, C and V.
pub open spec fn flags_of(n: bool, z: bool, c: bool, v: bool) -> u8 {
    (if n { 0x80u8 } else { 0u8 }) | (if z { 0x40u8 } else { 0u8 }) | (if c { 0x20u8 } else { 0u8 })
        | (if v { 0x10u8 } else { 0u8 })
}

/// Computes [`flags_of`].
pub fn make_flags(n: bool, z: bool, c: bool, v: bool) -> (f: u8)
    ensures
        f == flags_of(n, z, c, v),
{
    (if n { 0x80u8 } else { 0u8 }) | (if z { 0x40u8 } else { 0u8 }) | (if c { 0x20u8 } else { 0u8 })
        | (if v { 0x10u8 } else { 0u8 })
}

/// Reading a flags byte built by [`flags_of`] gives the four flags back,
/// and every other bit is clear.
pub proof fn lemma_flags_of(n: bool, z: bool, c: bool, v: bool)
    ensures
        is_set(flags_of(n, z, c, v), FLAG_N) == n,
        is_set(flags_of(n, z, c, v), FLAG_Z) == z,
        is_set(flags_of(n, z, c, v), FLAG_C) == c,
        is_set(flags_of(n, z, c, v), FLAG_V) == v,
        !is_set(flags_of(n, z, c, v), FLAG_H),
        !is_set(flags_of(n, z, c, v), FLAG_I),
{
    let f = flags_of(n, z, c, v);
    assert({
        &&& (f & 0x80 != 0) == n
        &&& (f & 0x40 != 0) == z
        &&& (f & 0x20 != 0) == c
        &&& (f & 0x10 != 0) == v
        &&& f & 0x08 == 0
        &&& f & 0x04 == 0
    }) by (bit_vector)
        requires
            f == (if n { 0x80u8 } else { 0u8 }) | (if z { 0x40u8 } else { 0u8 }) | (if c {
                0x20u8
            } else {
                0u8
            }) | (if v { 0x10u8 } else { 0u8 }),
    ;
}

/// The sum of two words, modulo 2^16.
pub open spec fn add_result(a: u16, b: u16) -> u16 {
    wrap16(a + b)
}

/// The flags after an addition: the whole byte is rewritten. Z and N
/// describe the result, C is the unsigned overflow, and V is set when the
/// operands have one sign and the result the other.
pub open spec fn add_flags(a: u16, b: u16) -> u8 {
    let r = add_result(a, b);
    flags_of(
        is_negative(r),
        r == 0,
        a + b > 0xFFFF,
        is_negative(a) == is_negative(b) && is_negative(a) != is_negative(r),
    )
}

/// The difference of two words, modulo 2^16.
pub open spec fn sub_result(a: u16, b: u16) -> u16 {
    wrap16(a - b)
}

/// The flags after a subtraction or comparison: the whole byte is
/// rewritten. Z and N describe the result, C is set when there is no
/// borrow, and V is set when the operands differ in sign and the result has
/// the sign of the subtrahend.
pub open spec fn sub_flags(a: u16, b: u16) -> u8 {
    let r = sub_result(a, b);
    flags_of(
        is_negative(r),
        r == 0,
        a >= b,
        is_negative(a) != is_negative(b) && is_negative(b) == is_negative(r),
    )
}

/// The flags after a logic or shift result: N and Z describe the result, C
/// and V are cleared, and the low four bits keep their value.
pub open spec fn logic_flags(flags: u8, r: u16) -> u8 {
    (flags & 0x0Fu8) | (if is_negative(r) { 0x80u8 } else { 0u8 }) | (if r == 0 {
        0x40u8
    } else {
        0u8
    })
}

/// Adds two words: the result and the flags.
pub fn add_words(a: u16, b: u16) -> (r: (u16, u8))
    ensures
        r.0 == add_result(a, b),
        r.1 == add_flags(a, b),
{
    let wide: u32 = a as u32 + b as u32;
    let carry = wide > 0xFFFF;
    let result: u16 = a.wrapping_add(b);
    let a_neg = a >= 0x8000;
    let b_neg = b >= 0x8000;
    let r_neg = result >= 0x8000;
    (result, make_flags(r_neg, result == 0, carry, a_neg == b_neg && a_neg != r_neg))
}

/// Subtracts two words: the result and the flags.
pub fn sub_words(a: u16, b: u16) -> (r: (u16, u8))
    ensures
        r.0 == sub_result(a, b),
        r.1 == sub_flags(a, b),
{
    let result: u16 = a.wrapping_sub(b);
    let a_neg = a >= 0x8000;
    let b_neg = b >= 0x8000;
    let r_neg = result >= 0x8000;
    (result, make_flags(r_neg, result == 0, a >= b, a_neg != b_neg && b_neg == r_neg))
}

/// The flags after a logic or shift result.
pub fn flags_after_logic(flags: u8, result: u16) -> (f: u8)
    ensures
        f == logic_flags(flags, result),
{
    (flags & 0x0Fu8) | (if result >= 0x8000 { 0x80u8 } else { 0u8 }) | (if result == 0 {
        0x40u8
    } else {
        0u8
    })
}

/// Whether branch condition `cond` holds of a flags byte: 0 EQ, 1 NE,
/// 2 LT, 3 GE, 4 LTU, 5 GEU, 6 MI, 7 PL, 8 VS, 9 VC, 10 CS, 11 CC, 12 GT,
/// 13 LE, 14 HI, 15 LS. No other code holds.
pub open spec fn condition_holds(cond: u16, flags: u8) -> bool {
    let n = is_set(flags, FLAG_N);
    let z = is_set(flags, FLAG_Z);
    let c = is_set(flags, FLAG_C);
    let v = is_set(flags, FLAG_V);
    if cond == 0x0 {
        z
    } else if cond == 0x1 {
        !z
    } else if cond == 0x2 {
        n != v
    } else if cond == 0x3 {
        n == v
    } else if cond == 0x4 {
        !c
    } else if cond == 0x5 {
        c
    } else if cond == 0x6 {
        n
    } else if cond == 0x7 {
        !n
    } else if cond == 0x8 {
        v
    } else if cond == 0x9 {
        !v
    } else if cond == 0xA {
        c
    } else if cond == 0xB {
        !c
    } else if cond == 0xC {
        !z && n == v
    } else if cond == 0xD {
        z || n != v
    } else if cond == 0xE {
        c && !z
    } else if cond == 0xF {
        !c || z
    } else {
        false
    }
}

/// Computes [`condition_holds`].
pub fn check_condition(cond: u16, flags: u8) -> (r: bool)
    ensures
        r == condition_holds(cond, flags),
{
    let n = flags & FLAG_N != 0;
    let z = flags & FLAG_Z != 0;
    let c = flags & FLAG_C != 0;
    let v = flags & FLAG_V != 0;
    if cond == 0x0 {
        z
    } else if cond == 0x1 {
        !z
    } else if cond == 0x2 {
        n != v
    } else if cond == 0x3 {
        n == v
    } else if cond == 0x4 {
        !c
    } else if cond == 0x5 {
        c
    } else if cond == 0x6 {
        n
    } else if cond == 0x7 {
        !n
    } else if cond == 0x8 {
        v
    } else if cond == 0x9 {
        !v
    } else if cond == 0xA {
        c
    } else if cond == 0xB {
        !c
    } else if cond == 0xC {
        !z && n == v
    } else if cond == 0xD {
        z || n != v
    } else if cond == 0xE {
        c && !z
    } else if cond == 0xF {
        !c || z
    } else {
        false
    }
}

/// The result and the flags of shift operation `func` on `val`.
///
/// Operations 0 to 4 move one bit, 5 and 6 rotate one bit through the carry
/// flag, 7 swaps the bytes, 8 to 11 move four bits and 12 to 15 move eight.
/// N and Z describe the result and V is cleared. The two rotations through
/// carry leave in C the bit that left the word; every other operation
/// clears C.
pub open spec fn shift_spec(func: u16, val: u16, flags: u8) -> (u16, u8) {
    let carry: u16 = if is_set(flags, FLAG_C) {
        1
    } else {
        0
    };
    if func == 0x5 {
        let r = (val << 1) | carry;
        (r, logic_flags(flags, r) | (if val >= 0x8000 { 0x20u8 } else { 0u8 }))
    } else if func == 0x6 {
        let r = (val >> 1) | (carry << 15);
        (r, logic_flags(flags, r) | (if val % 2 == 1 { 0x20u8 } else { 0u8 }))
    } else {
        let r: u16 = if func == 0x0 {
            val << 1
        } else if func == 0x1 {
            val >> 1
        } else if func == 0x2 {
            ((val as i16) >> 1) as u16
        } else if func == 0x3 {
            (val << 1) | (val >> 15)
        } else if func == 0x4 {
            (val >> 1) | (val << 15)
        } else if func == 0x7 {
            ((val & 0xFF) << 8) | ((val >> 8) & 0xFF)
        } else if func == 0x8 {
            val << 4
        } else if func == 0x9 {
            val >> 4
        } else if func == 0xA {
            ((val as i16) >> 4) as u16
        } else if func == 0xB {
            (val << 4) | (val >> 12)
        } else if func == 0xC {
            val << 8
        } else if func == 0xD {
            val >> 8
        } else if func == 0xE {
            ((val as i16) >> 8) as u16
        } else {
            (val << 8) | (val >> 8)
        };
        (r, logic_flags(flags, r))
    }
}

/// Computes [`shift_spec`].
pub fn shift(func: u16, val: u16, flags: u8) -> (r: (u16, u8))
    ensures
        r == shift_spec(func, val, flags),
{
    let carry: u16 = if flags & FLAG_C != 0 {
        1
    } else {
        0
    };
    if func == 0x5 {
        let r = (val << 1) | carry;
        (r, flags_after_logic(flags, r) | (if val >= 0x8000 { 0x20u8 } else { 0u8 }))
    } else if func == 0x6 {
        let r = (val >> 1) | (carry << 15);
        (r, flags_after_logic(flags, r) | (if val % 2 == 1 { 0x20u8 } else { 0u8 }))
    } else {
        let r: u16 = if func == 0x0 {
            val << 1
        } else if func == 0x1 {
            val >> 1
        } else if func == 0x2 {
            ((val as i16) >> 1) as u16
        } else if func == 0x3 {
            (val << 1) | (val >> 15)
        } else if func == 0x4 {
            (val >> 1) | (val << 15)
        } else if func == 0x7 {
            ((val & 0xFF) << 8) | ((val >> 8) & 0xFF)
        } else if func == 0x8 {
            val << 4
        } else if func == 0x9 {
            val >> 4
        } else if func == 0xA {
            ((val as i16) >> 4) as u16
        } else if func == 0xB {
            (val << 4) | (val >> 12)
        } else if func == 0xC {
            val << 8
        } else if func == 0xD {
            val >> 8
        } else if func == 0xE {
            ((val as i16) >> 8) as u16
        } else {
            (val << 8) | (val >> 8)
        };
        (r, flags_after_logic(flags, r))
    }
}

/// The quotient of two integers rounded toward zero.
pub open spec fn quotient(x: int, y: int) -> int
    recommends
        y != 0,
{
    let q = (if x >= 0 { x } else { -x }) / (if y >= 0 { y } else { -y });
    if (x >= 0) == (y >= 0) {
        q
    } else {
        -q
    }
}

/// The remainder that goes with [`quotient`]: it has the sign of the
/// dividend.
pub open spec fn remainder(x: int, y: int) -> int
    recommends
        y != 0,
{
    let r = (if x >= 0 { x } else { -x }) % (if y >= 0 { y } else { -y });
    if x >= 0 {
        r
    } else {
        -r
    }
}

/// The result of multiply or divide operation `func` on `a` and `b`, for
/// `func` below 7: 0 the low word of the product, 1 the high word of the
/// signed product, 2 the high word of the unsigned product, 3 the signed
/// quotient, 4 the unsigned quotient, 5 the signed remainder, 6 the
/// unsigned remainder. Dividing by zero gives 0xFFFF as the quotient and
/// the dividend as the remainder.
pub open spec fn muldiv_spec(func: u16, a: u16, b: u16) -> u16 {
    if func == 0x0 {
        wrap16(a * b)
    } else if func == 0x1 {
        wrap16((signed16(a) * signed16(b)) / 0x10000)
    } else if func == 0x2 {
        wrap16((a * b) / 0x10000)
    } else if func == 0x3 {
        if b == 0 {
            0xFFFF
        } else {
            wrap16(quotient(signed16(a), signed16(b)))
        }
    } else if func == 0x4 {
        if b == 0 {
            0xFFFF
        } else {
            a / b
        }
    } else if func == 0x5 {
        if b == 0 {
            a
        } else {
            wrap16(remainder(signed16(a), signed16(b)))
        }
    } else {
        if b == 0 {
            a
        } else {
            a % b
        }
    }
}

/// A word as a two's complement number.
pub fn to_signed(w: u16) -> (r: i32)
    ensures
        r == signed16(w),
{
    if w < 0x8000 {
        w as i32
    } else {
        w as i32 - 0x10000
    }
}

/// The word that holds a small integer modulo 2^16.
pub fn to_word(i: i32) -> (w: u16)
    requires
        -0x10000 <= i < 0x20000,
    ensures
        w == wrap16(i as int),
{
    if i < 0 {
        (i + 0x10000) as u16
    } else if i >= 0x10000 {
        (i - 0x10000) as u16
    } else {
        i as u16
    }
}

/// Computes [`muldiv_spec`].
pub fn muldiv(func: u16, a: u16, b: u16) -> (r: u16)
    requires
        func < 7,
    ensures
        r == muldiv_spec(func, a, b),
{
    if func == 0x0 {
        assert(a * b <= 0xFFFF * 0xFFFF) by (nonlinear_arith)
            requires
                a <= 0xFFFF,
                b <= 0xFFFF,
        ;
        let p: u32 = a as u32 * b as u32;
        (p % 0x10000) as u16
    } else if func == 0x1 {
        let x = to_signed(a);
        let y = to_signed(b);
        assert(-0x4000_0000 <= x * y <= 0x4000_0000) by (nonlinear_arith)
            requires
                -0x8000 <= x < 0x8000,
                -0x8000 <= y < 0x8000,
        ;
        let p: i32 = x * y;
        let q: i32 = if p >= 0 {
            p / 0x10000
        } else {
            -((-p + 0xFFFF) / 0x10000)
        };
        to_word(q)
    } else if func == 0x2 {
        assert(a * b <= 0xFFFF * 0xFFFF) by (nonlinear_arith)
            requires
                a <= 0xFFFF,
                b <= 0xFFFF,
        ;
        let p: u32 = a as u32 * b as u32;
        (p / 0x10000) as u16
    } else if func == 0x3 {
        if b == 0 {
            0xFFFF
        } else {
            let x = to_signed(a);
            let y = to_signed(b);
            let ax: i32 = if x >= 0 { x } else { -x };
            let ay: i32 = if y >= 0 { y } else { -y };
            let q: i32 = ax / ay;
            assert(0 <= q <= 0x8000) by (nonlinear_arith)
                requires
                    0 <= ax <= 0x8000,
                    0 < ay,
                    q == ax / ay,
            ;
            to_word(if (x >= 0) == (y >= 0) { q } else { -q })
        }
    } else if func == 0x4 {
        if b == 0 {
            0xFFFF
        } else {
            a / b
        }
    } else if func == 0x5 {
        if b == 0 {
            a
        } else {
            let x = to_signed(a);
            let y = to_signed(b);
            let ax: i32 = if x >= 0 { x } else { -x };
            let ay: i32 = if y >= 0 { y } else { -y };
            let m: i32 = ax % ay;
            assert(0 <= m < 0x8000) by (nonlinear_arith)
                requires
                    0 <= ax <= 0x8000,
                    0 < ay <= 0x8000,
                    m == ax % ay,
            ;
            to_word(if x >= 0 { m } else { -m })
        }
    } else {
        if b == 0 {
            a
        } else {
            a % b
        }
    }
}

/// The word after a decimal adjust of `val`: six is added when the low
/// nibble is above nine or H is set, then 0x60 when the next nibble is
/// above nine or C is set.
pub open spec fn daa_adjusted(val: u16, flags: u8) -> u16 {
    let low: u16 = if val % 16 > 9 || is_set(flags, FLAG_H) {
        wrap16(val + 6)
    } else {
        val
    };
    if (low / 16) % 16 > 9 || is_set(flags, FLAG_C) {
        wrap16(low + 0x60)
    } else {
        low
    }
}

/// Computes [`daa_adjusted`].
pub fn daa(val: u16, flags: u8) -> (r: u16)
    ensures
        r == daa_adjusted(val, flags),
{
    let low: u16 = if val % 16 > 9 || flags & FLAG_H != 0 {
        val.wrapping_add(6)
    } else {
        val
    };
    if (low / 16) % 16 > 9 || flags & FLAG_C != 0 {
        low.wrapping_add(0x60)
    } else {
        low
    }
}

} // verus!
