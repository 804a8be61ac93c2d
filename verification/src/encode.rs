//! Encoding of one instruction: which operand shapes each mnemonic takes,
//! and the word or words it becomes.
//!
//! Where the encoder and the decoder could disagree, the decoder's tables
//! are the authority: stores use the store function codes that the emulator
//! reads, `OUT (Rd), Rs` puts the port register in the Rd field, and `LUI`
//! keeps the function nibble at 8 and places the high nibble of its
//! immediate byte in the Rs1 field.

use crate::isa::Mnemonic;
use crate::parser::{Operand, OperandView, operand_views};
use crate::symbols::{SymbolTable, lookup};
use crate::text::{dec_text, push_int};
use vstd::prelude::*;
use vstd::string::*;

verus! {

/// How a deferred reference is patched into the image.
#[derive(Clone, Copy, Debug, PartialEq, Eq, Structural)]
pub enum FixupKind {
    /// The symbol's value, as a little-endian word.
    Absolute16,
    /// The distance in words from the end of the instruction, in the low
    /// byte of the instruction word.
    Relative8,
    /// The distance in words from the end of the instruction, in the low
    /// twelve bits of the instruction word.
    Relative12,
}

/// An encoded instruction, before it is placed in the image.
pub enum Encoded {
    /// One word.
    Short(u16),
    /// A header word and an immediate word.
    Long(u16, u16),
    /// A header word and the absolute value of a symbol.
    LongSym(u16, String),
    /// One word whose low bits are the relative distance to a symbol.
    ShortSym(u16, String, FixupKind),
}

/// Model of [`Encoded`].
pub enum EncodedView {
    Short(u16),
    Long(u16, u16),
    LongSym(u16, Seq<char>),
    ShortSym(u16, Seq<char>, FixupKind),
}

impl View for Encoded {
    type V = EncodedView;

    open spec fn view(&self) -> EncodedView {
        match *self {
            Encoded::Short(w) => EncodedView::Short(w),
            Encoded::Long(w, imm) => EncodedView::Long(w, imm),
            Encoded::LongSym(w, s) => EncodedView::LongSym(w, s@),
            Encoded::ShortSym(w, s, k) => EncodedView::ShortSym(w, s@, k),
        }
    }
}

/// Bytes that an encoded instruction occupies.
pub open spec fn encoded_len(e: EncodedView) -> int {
    match e {
        EncodedView::Short(_) => 2,
        EncodedView::Long(_, _) => 4,
        EncodedView::LongSym(_, _) => 4,
        EncodedView::ShortSym(_, _, _) => 2,
    }
}

/// An executable result agrees with a specified one: the same value, or an
/// error with the specified message.
pub open spec fn same_result<T>(r: Result<T, String>, s: Result<T, Seq<char>>) -> bool {
    match r {
        Ok(v) => s == Ok::<T, Seq<char>>(v),
        Err(e) => s == Err::<T, Seq<char>>(e@),
    }
}

/// An executable encoding agrees with a specified one.
pub open spec fn same_encoding(
    r: Result<Encoded, String>,
    s: Result<EncodedView, Seq<char>>,
) -> bool {
    match r {
        Ok(v) => s == Ok::<EncodedView, Seq<char>>(v@),
        Err(e) => s == Err::<EncodedView, Seq<char>>(e@),
    }
}

/// An instruction word: `base` with a register in the Rd field, a register
/// in the Rs1 field and `low` in the remaining bits.
pub open spec fn word_with(base: u16, rd: u8, rs1: u8, low: u16) -> u16 {
    base | ((rd as u16) << 8) | ((rs1 as u16) << 4) | low
}

/// Computes [`word_with`].
pub fn pack(base: u16, rd: u8, rs1: u8, low: u16) -> (w: u16)
    ensures
        w == word_with(base, rd, rs1, low),
{
    base | ((rd as u16) << 8) | ((rs1 as u16) << 4) | low
}

/// The message for a symbol that has no binding.
pub open spec fn undefined_symbol(name: Seq<char>) -> Seq<char> {
    "Undefined symbol: "@ + name
}

/// Builds the message of [`undefined_symbol`].
pub fn undefined_symbol_message(name: &String) -> (s: String)
    ensures
        s@ == undefined_symbol(name@),
{
    let mut s = String::from_str("Undefined symbol: ");
    s.append(name.as_str());
    s
}

/// The operand shape "one register".
pub open spec fn one_reg(ops: Seq<OperandView>) -> Result<u8, Seq<char>> {
    if ops.len() > 0 && ops[0] is Register {
        Ok(ops[0]->Register_0)
    } else {
        Err("Expected register"@)
    }
}

/// The operand shape "two registers".
pub open spec fn two_regs(ops: Seq<OperandView>) -> Result<(u8, u8), Seq<char>> {
    if ops.len() >= 2 && ops[0] is Register && ops[1] is Register {
        Ok((ops[0]->Register_0, ops[1]->Register_0))
    } else {
        Err("Expected two registers"@)
    }
}

/// The operand shape "three registers".
pub open spec fn three_regs(ops: Seq<OperandView>) -> Result<(u8, u8, u8), Seq<char>> {
    if ops.len() >= 3 && ops[0] is Register && ops[1] is Register && ops[2] is Register {
        Ok((ops[0]->Register_0, ops[1]->Register_0, ops[2]->Register_0))
    } else {
        Err("Expected three registers"@)
    }
}

/// An immediate operand, or a symbol standing for one.
pub open spec fn value_of(
    op: OperandView,
    symbols: Map<Seq<char>, u16>,
    otherwise: Seq<char>,
) -> Result<i32, Seq<char>> {
    match op {
        OperandView::Immediate(i) => Ok(i),
        OperandView::Label(sym) => match lookup(symbols, sym) {
            Some(v) => Ok(v as i32),
            None => Err(undefined_symbol(sym)),
        },
        _ => Err(otherwise),
    }
}

/// The operand shape "register, immediate".
pub open spec fn reg_imm(ops: Seq<OperandView>, symbols: Map<Seq<char>, u16>) -> Result<
    (u8, i32),
    Seq<char>,
> {
    if ops.len() >= 2 && ops[0] is Register {
        match value_of(ops[1], symbols, "Expected register and immediate"@) {
            Ok(i) => Ok((ops[0]->Register_0, i)),
            Err(e) => Err(e),
        }
    } else {
        Err("Expected register and immediate"@)
    }
}

/// The operand shape "immediate, register".
pub open spec fn imm_reg(ops: Seq<OperandView>, symbols: Map<Seq<char>, u16>) -> Result<
    (i32, u8),
    Seq<char>,
> {
    if ops.len() >= 2 && ops[1] is Register {
        match value_of(ops[0], symbols, "Expected immediate and register"@) {
            Ok(i) => Ok((i, ops[1]->Register_0)),
            Err(e) => Err(e),
        }
    } else {
        Err("Expected immediate and register"@)
    }
}

/// The operand shape "immediate".
pub open spec fn imm_only(ops: Seq<OperandView>, symbols: Map<Seq<char>, u16>) -> Result<
    i32,
    Seq<char>,
> {
    if ops.len() > 0 {
        value_of(ops[0], symbols, "Expected immediate"@)
    } else {
        Err("Expected immediate"@)
    }
}

/// The operand shape of a load: destination, then an address given as a
/// register with a displacement or as a bare register. The result is
/// (destination, base, displacement).
pub open spec fn load_store_ops(ops: Seq<OperandView>) -> Result<(u8, u8, i32), Seq<char>> {
    if ops.len() < 2 {
        Err("Expected register and address"@)
    } else {
        match (ops[0], ops[1]) {
            (OperandView::Register(rd), OperandView::Indirect(rs, off)) => Ok((rd, rs, off)),
            (OperandView::Register(rd), OperandView::Register(rs)) => Ok((rd, rs, 0)),
            _ => Err("Expected register and indirect address"@),
        }
    }
}

/// The operand shape of a store: an address, then the source register. The
/// result is (source, base, displacement).
pub open spec fn store_ops(ops: Seq<OperandView>) -> Result<(u8, u8, i32), Seq<char>> {
    if ops.len() < 2 {
        Err("Expected address and register"@)
    } else {
        match (ops[0], ops[1]) {
            (OperandView::Indirect(rs1, off), OperandView::Register(rs2)) => Ok((rs2, rs1, off)),
            (OperandView::Register(rs1), OperandView::Register(rs2)) => Ok((rs2, rs1, 0)),
            _ => Err("Expected address and register for store"@),
        }
    }
}

/// The operand shape of `IN`: destination, then the port register. The
/// result is (destination, port register).
pub open spec fn in_operands(ops: Seq<OperandView>) -> Result<(u8, u8), Seq<char>> {
    if ops.len() < 2 {
        Err("Expected register and port"@)
    } else {
        match (ops[0], ops[1]) {
            (OperandView::Register(rd), OperandView::Indirect(rs, _)) => Ok((rd, rs)),
            (OperandView::Register(rd), OperandView::Register(rs)) => Ok((rd, rs)),
            _ => Err("Expected register and port register"@),
        }
    }
}

/// The operand shape of `OUT`: the port register, then the source. The
/// result is (port register, source).
pub open spec fn out_operands(ops: Seq<OperandView>) -> Result<(u8, u8), Seq<char>> {
    if ops.len() < 2 {
        Err("Expected port and register"@)
    } else {
        match (ops[0], ops[1]) {
            (OperandView::Indirect(rd, _), OperandView::Register(rs)) => Ok((rd, rs)),
            (OperandView::Register(rd), OperandView::Register(rs)) => Ok((rd, rs)),
            _ => Err("Expected port register and register"@),
        }
    }
}

/// The message for a displacement that the short forms cannot express.
pub open spec fn unsupported_offset(offset: i32) -> Seq<char> {
    "Unsupported offset "@ + dec_text(offset as int) + " for short load/store"@
}

/// The function code of a short word load or store with the given byte
/// displacement. Loads and stores have different tables, each the inverse
/// of the table that the emulator decodes.
pub open spec fn offset_to_func(offset: i32, is_load: bool) -> Result<u16, Seq<char>> {
    if offset == 0 {
        Ok(0x0)
    } else if offset == 2 {
        Ok(if is_load { 0x3 } else { 0x2 })
    } else if offset == 4 {
        Ok(if is_load { 0x4 } else { 0x3 })
    } else if offset == 6 {
        Ok(if is_load { 0x5 } else { 0x4 })
    } else if offset == -2 {
        Ok(if is_load { 0x6 } else { 0x5 })
    } else if offset == -4 {
        Ok(if is_load { 0x7 } else { 0x6 })
    } else {
        Err(unsupported_offset(offset))
    }
}

/// A register and either an immediate or the name of a symbol.
pub enum ImmOrLabel {
    Imm(i32),
    Label(Seq<char>),
}

/// The operand shape "register, immediate or label".
pub open spec fn reg_imm_or_label(ops: Seq<OperandView>) -> Result<(u8, ImmOrLabel), Seq<char>> {
    if ops.len() < 2 {
        Err("Expected register and value"@)
    } else {
        match (ops[0], ops[1]) {
            (OperandView::Register(r), OperandView::Immediate(i)) => Ok((r, ImmOrLabel::Imm(i))),
            (OperandView::Register(r), OperandView::Label(l)) => Ok((r, ImmOrLabel::Label(l))),
            _ => Err("Expected register and immediate or label"@),
        }
    }
}

/// Half of a byte distance, rounded toward zero: the distance in words.
pub open spec fn half(i: int) -> int {
    if i >= 0 {
        i / 2
    } else {
        -((-i) / 2)
    }
}

/// Reads the operand shape "one register".
pub fn get_one_reg(operands: &[Operand]) -> (r: Result<u8, String>)
    ensures
        same_result(r, one_reg(operand_views(operands@))),
{
    if operands.len() > 0 {
        if let Operand::Register(r) = &operands[0] {
            return Ok(*r);
        }
    }
    Err(String::from_str("Expected register"))
}

/// Reads the operand shape "two registers".
pub fn get_two_regs(operands: &[Operand]) -> (r: Result<(u8, u8), String>)
    ensures
        same_result(r, two_regs(operand_views(operands@))),
{
    if operands.len() >= 2 {
        if let Operand::Register(r1) = &operands[0] {
            if let Operand::Register(r2) = &operands[1] {
                return Ok((*r1, *r2));
            }
        }
    }
    Err(String::from_str("Expected two registers"))
}

/// Reads the operand shape "three registers".
pub fn get_three_regs(operands: &[Operand]) -> (r: Result<(u8, u8, u8), String>)
    ensures
        same_result(r, three_regs(operand_views(operands@))),
{
    if operands.len() >= 3 {
        if let Operand::Register(r1) = &operands[0] {
            if let Operand::Register(r2) = &operands[1] {
                if let Operand::Register(r3) = &operands[2] {
                    return Ok((*r1, *r2, *r3));
                }
            }
        }
    }
    Err(String::from_str("Expected three registers"))
}

fn get_value(op: &Operand, symbols: &SymbolTable, otherwise: &str) -> (r: Result<i32, String>)
    ensures
        same_result(r, value_of(op@, symbols@, otherwise@)),
{
    match op {
        Operand::Immediate(i) => Ok(*i),
        Operand::Label(sym) => match symbols.get(sym) {
            Some(v) => Ok(v as i32),
            None => Err(undefined_symbol_message(sym)),
        },
        _ => Err(String::from_str(otherwise)),
    }
}

/// Reads the operand shape "register, immediate".
pub fn get_reg_imm(operands: &[Operand], symbols: &SymbolTable) -> (r: Result<(u8, i32), String>)
    ensures
        same_result(r, reg_imm(operand_views(operands@), symbols@)),
{
    if operands.len() >= 2 {
        if let Operand::Register(r) = &operands[0] {
            return match get_value(&operands[1], symbols, "Expected register and immediate") {
                Ok(i) => Ok((*r, i)),
                Err(e) => Err(e),
            };
        }
    }
    Err(String::from_str("Expected register and immediate"))
}

/// Reads the operand shape "immediate, register".
pub fn get_imm_reg(operands: &[Operand], symbols: &SymbolTable) -> (r: Result<(i32, u8), String>)
    ensures
        same_result(r, imm_reg(operand_views(operands@), symbols@)),
{
    if operands.len() >= 2 {
        if let Operand::Register(r) = &operands[1] {
            return match get_value(&operands[0], symbols, "Expected immediate and register") {
                Ok(i) => Ok((i, *r)),
                Err(e) => Err(e),
            };
        }
    }
    Err(String::from_str("Expected immediate and register"))
}

/// Reads the operand shape "immediate".
pub fn get_imm(operands: &[Operand], symbols: &SymbolTable) -> (r: Result<i32, String>)
    ensures
        same_result(r, imm_only(operand_views(operands@), symbols@)),
{
    if operands.len() > 0 {
        get_value(&operands[0], symbols, "Expected immediate")
    } else {
        Err(String::from_str("Expected immediate"))
    }
}

/// Reads the operand shape of a load.
pub fn get_load_store_ops(operands: &[Operand]) -> (r: Result<(u8, u8, i32), String>)
    ensures
        same_result(r, load_store_ops(operand_views(operands@))),
{
    if operands.len() < 2 {
        return Err(String::from_str("Expected register and address"));
    }
    match (&operands[0], &operands[1]) {
        (Operand::Register(rd), Operand::Indirect(rs, off)) => Ok((*rd, *rs, *off)),
        (Operand::Register(rd), Operand::Register(rs)) => Ok((*rd, *rs, 0)),
        _ => Err(String::from_str("Expected register and indirect address")),
    }
}

/// Reads the operand shape of a store.
pub fn get_store_ops(operands: &[Operand]) -> (r: Result<(u8, u8, i32), String>)
    ensures
        same_result(r, store_ops(operand_views(operands@))),
{
    if operands.len() < 2 {
        return Err(String::from_str("Expected address and register"));
    }
    match (&operands[0], &operands[1]) {
        (Operand::Indirect(rs1, off), Operand::Register(rs2)) => Ok((*rs2, *rs1, *off)),
        (Operand::Register(rs1), Operand::Register(rs2)) => Ok((*rs2, *rs1, 0)),
        _ => Err(String::from_str("Expected address and register for store")),
    }
}

/// Reads the operand shape of `IN`.
pub fn get_in_operands(operands: &[Operand]) -> (r: Result<(u8, u8), String>)
    ensures
        same_result(r, in_operands(operand_views(operands@))),
{
    if operands.len() < 2 {
        return Err(String::from_str("Expected register and port"));
    }
    match (&operands[0], &operands[1]) {
        (Operand::Register(rd), Operand::Indirect(rs, _)) => Ok((*rd, *rs)),
        (Operand::Register(rd), Operand::Register(rs)) => Ok((*rd, *rs)),
        _ => Err(String::from_str("Expected register and port register")),
    }
}

/// Reads the operand shape of `OUT`.
pub fn get_out_operands(operands: &[Operand]) -> (r: Result<(u8, u8), String>)
    ensures
        same_result(r, out_operands(operand_views(operands@))),
{
    if operands.len() < 2 {
        return Err(String::from_str("Expected port and register"));
    }
    match (&operands[0], &operands[1]) {
        (Operand::Indirect(rd, _), Operand::Register(rs)) => Ok((*rd, *rs)),
        (Operand::Register(rd), Operand::Register(rs)) => Ok((*rd, *rs)),
        _ => Err(String::from_str("Expected port register and register")),
    }
}

/// Computes [`offset_to_func`].
pub fn get_offset_func(offset: i32, is_load: bool) -> (r: Result<u16, String>)
    ensures
        same_result(r, offset_to_func(offset, is_load)),
{
    if offset == 0 {
        Ok(0x0)
    } else if offset == 2 {
        Ok(if is_load { 0x3 } else { 0x2 })
    } else if offset == 4 {
        Ok(if is_load { 0x4 } else { 0x3 })
    } else if offset == 6 {
        Ok(if is_load { 0x5 } else { 0x4 })
    } else if offset == -2 {
        Ok(if is_load { 0x6 } else { 0x5 })
    } else if offset == -4 {
        Ok(if is_load { 0x7 } else { 0x6 })
    } else {
        let mut s = String::from_str("Unsupported offset ");
        push_int(&mut s, offset);
        s.append(" for short load/store");
        Err(s)
    }
}

/// A three-register instruction: the registers fill the Rd, Rs1 and Rs2
/// fields.
pub open spec fn three_reg_form(base: u16, ops: Seq<OperandView>) -> Result<
    EncodedView,
    Seq<char>,
> {
    match three_regs(ops) {
        Ok((rd, rs1, rs2)) => Ok(EncodedView::Short(word_with(base, rd, rs1, rs2 as u16))),
        Err(e) => Err(e),
    }
}

/// A two-register instruction with a function code in the low nibble.
pub open spec fn two_reg_form(base: u16, func: u16, ops: Seq<OperandView>) -> Result<
    EncodedView,
    Seq<char>,
> {
    match two_regs(ops) {
        Ok((rd, rs)) => Ok(EncodedView::Short(word_with(base, rd, rs, func))),
        Err(e) => Err(e),
    }
}

/// A one-register instruction whose register fills the Rd field.
pub open spec fn dest_form(base: u16, func: u16, ops: Seq<OperandView>) -> Result<
    EncodedView,
    Seq<char>,
> {
    match one_reg(ops) {
        Ok(rd) => Ok(EncodedView::Short(word_with(base, rd, 0, func))),
        Err(e) => Err(e),
    }
}

/// A one-register instruction whose register fills the Rs1 field.
pub open spec fn source_form(base: u16, func: u16, ops: Seq<OperandView>) -> Result<
    EncodedView,
    Seq<char>,
> {
    match one_reg(ops) {
        Ok(rs) => Ok(EncodedView::Short(word_with(base, 0, rs, func))),
        Err(e) => Err(e),
    }
}

/// The message for an `ADDI` immediate outside -128..=127.
pub open spec fn addi_out_of_range(imm: i32) -> Seq<char> {
    "Immediate "@ + dec_text(imm as int) + " out of range for ADDI"@
}

/// `ADDI Rd, imm8`: the immediate must fit a signed byte.
pub open spec fn addi_form(ops: Seq<OperandView>, symbols: Map<Seq<char>, u16>) -> Result<
    EncodedView,
    Seq<char>,
> {
    match reg_imm(ops, symbols) {
        Ok((rd, imm)) => if imm < -128 || imm > 127 {
            Err(addi_out_of_range(imm))
        } else {
            Ok(EncodedView::Short(word_with(0x5000, rd, 0, (imm as u8) as u16)))
        },
        Err(e) => Err(e),
    }
}

/// `LW Rd, off(Rs)`: the displacement must be in the short load table.
pub open spec fn word_load_form(ops: Seq<OperandView>) -> Result<EncodedView, Seq<char>> {
    match load_store_ops(ops) {
        Ok((rd, rs, off)) => match offset_to_func(off, true) {
            Ok(func) => Ok(EncodedView::Short(word_with(0x6000, rd, rs, func))),
            Err(e) => Err(e),
        },
        Err(e) => Err(e),
    }
}

/// `LB` and `LBU`: byte loads have no displacement; one that is written is
/// ignored.
pub open spec fn byte_load_form(func: u16, ops: Seq<OperandView>) -> Result<
    EncodedView,
    Seq<char>,
> {
    match load_store_ops(ops) {
        Ok((rd, rs, _)) => Ok(EncodedView::Short(word_with(0x6000, rd, rs, func))),
        Err(e) => Err(e),
    }
}

/// `LUI Rd, imm`: the high nibble of the immediate's low byte goes to the
/// Rs1 field, which is what the emulator shifts into the register.
pub open spec fn lui_form(ops: Seq<OperandView>, symbols: Map<Seq<char>, u16>) -> Result<
    EncodedView,
    Seq<char>,
> {
    match reg_imm(ops, symbols) {
        Ok((rd, imm)) => Ok(
            EncodedView::Short(word_with(0x6000, rd, 0, (((imm as u8) & 0xF0) as u16) | 0x08)),
        ),
        Err(e) => Err(e),
    }
}

/// `SW off(Rs1), Rs2`: the displacement must be in the short store table.
pub open spec fn word_store_form(ops: Seq<OperandView>) -> Result<EncodedView, Seq<char>> {
    match store_ops(ops) {
        Ok((rs2, rs1, off)) => match offset_to_func(off, false) {
            Ok(func) => Ok(EncodedView::Short(word_with(0x7000, rs2, rs1, func))),
            Err(e) => Err(e),
        },
        Err(e) => Err(e),
    }
}

/// `SB (Rs1), Rs2`: a displacement that is written is ignored.
pub open spec fn byte_store_form(ops: Seq<OperandView>) -> Result<EncodedView, Seq<char>> {
    match store_ops(ops) {
        Ok((rs2, rs1, _)) => Ok(EncodedView::Short(word_with(0x7000, rs2, rs1, 0x1))),
        Err(e) => Err(e),
    }
}

/// The word of a conditional branch over `off` words.
pub open spec fn branch_word(cond: u16, off: i32) -> u16 {
    0x8000 | (cond << 8) | ((off as u8) as u16)
}

/// A conditional branch: to a label, resolved later, or over a byte
/// distance given as a number, which must come to -128..=127 words.
pub open spec fn branch_form(cond: u16, ops: Seq<OperandView>) -> Result<EncodedView, Seq<char>> {
    if ops.len() == 0 {
        Err("Branch requires target"@)
    } else {
        match ops[0] {
            OperandView::Label(l) => Ok(
                EncodedView::ShortSym(0x8000 | (cond << 8), l, FixupKind::Relative8),
            ),
            OperandView::Immediate(offset) => {
                let off = half(offset as int);
                if off < -128 || off > 127 {
                    Err("Branch offset out of range"@)
                } else {
                    Ok(EncodedView::Short(branch_word(cond, off as i32)))
                }
            },
            _ => Err("Branch requires target"@),
        }
    }
}

/// The word of a relative jump over `off` words.
pub open spec fn jump_word(off: i32) -> u16 {
    0x9000 | ((off as u16) & 0x0FFF)
}

/// A relative jump: to a label, resolved later, or over a byte distance
/// given as a number, which must come to -2048..=2047 words.
pub open spec fn jump_form(ops: Seq<OperandView>) -> Result<EncodedView, Seq<char>> {
    if ops.len() == 0 {
        Err("Jump requires target"@)
    } else {
        match ops[0] {
            OperandView::Label(l) => Ok(EncodedView::ShortSym(0x9000, l, FixupKind::Relative12)),
            OperandView::Immediate(offset) => {
                let off = half(offset as int);
                if off < -2048 || off > 2047 {
                    Err("Jump offset out of range"@)
                } else {
                    Ok(EncodedView::Short(jump_word(off as i32)))
                }
            },
            _ => Err("Jump requires target"@),
        }
    }
}

/// An absolute jump: the header word, then the address of a label or a
/// number.
pub open spec fn target_form(header: u16, ops: Seq<OperandView>, otherwise: Seq<char>) -> Result<
    EncodedView,
    Seq<char>,
> {
    if ops.len() == 0 {
        Err(otherwise)
    } else {
        match ops[0] {
            OperandView::Label(l) => Ok(EncodedView::LongSym(header, l)),
            OperandView::Immediate(addr) => Ok(EncodedView::Long(header, addr as u16)),
            _ => Err(otherwise),
        }
    }
}

/// `IN Rd, (Rs)`.
pub open spec fn in_form(ops: Seq<OperandView>) -> Result<EncodedView, Seq<char>> {
    match in_operands(ops) {
        Ok((rd, port)) => Ok(EncodedView::Short(word_with(0xD000, rd, port, 0x2))),
        Err(e) => Err(e),
    }
}

/// `OUT (Rd), Rs`: the port register in the Rd field, the source in Rs1.
pub open spec fn out_form(ops: Seq<OperandView>) -> Result<EncodedView, Seq<char>> {
    match out_operands(ops) {
        Ok((port, rs)) => Ok(EncodedView::Short(word_with(0xD000, port, rs, 0x3))),
        Err(e) => Err(e),
    }
}

/// `INI Rd, port`: always the extended form, with an 8-bit port number.
pub open spec fn ini_form(ops: Seq<OperandView>, symbols: Map<Seq<char>, u16>) -> Result<
    EncodedView,
    Seq<char>,
> {
    match reg_imm(ops, symbols) {
        Ok((rd, port)) => if port < 0 || port > 255 {
            Err("Port number out of range"@)
        } else {
            Ok(EncodedView::Long(word_with(0xF000, rd, 0, 0x0B), port as u16))
        },
        Err(e) => Err(e),
    }
}

/// `OUTI port, Rs`: always the extended form, with an 8-bit port number.
pub open spec fn outi_form(ops: Seq<OperandView>, symbols: Map<Seq<char>, u16>) -> Result<
    EncodedView,
    Seq<char>,
> {
    match imm_reg(ops, symbols) {
        Ok((port, rs)) => if port < 0 || port > 255 {
            Err("Port number out of range"@)
        } else {
            Ok(EncodedView::Long(word_with(0xF000, 0, rs, 0x0C), port as u16))
        },
        Err(e) => Err(e),
    }
}

/// `SWI imm8`.
pub open spec fn swi_form(ops: Seq<OperandView>, symbols: Map<Seq<char>, u16>) -> Result<
    EncodedView,
    Seq<char>,
> {
    match imm_only(ops, symbols) {
        Ok(imm) => Ok(EncodedView::Short(0xE500 | ((imm as u8) as u16))),
        Err(e) => Err(e),
    }
}

/// `LIX Rd, imm16` or `LIX Rd, label`.
pub open spec fn lix_form(ops: Seq<OperandView>) -> Result<EncodedView, Seq<char>> {
    match reg_imm_or_label(ops) {
        Ok((rd, ImmOrLabel::Imm(v))) => Ok(
            EncodedView::Long(word_with(0xF000, rd, 0, 0x07), v as u16),
        ),
        Ok((rd, ImmOrLabel::Label(l))) => Ok(
            EncodedView::LongSym(word_with(0xF000, rd, 0, 0x07), l),
        ),
        Err(e) => Err(e),
    }
}

/// `NEG Rd, Rs` is `SUB Rd, R0, Rs`.
pub open spec fn neg_form(ops: Seq<OperandView>) -> Result<EncodedView, Seq<char>> {
    match two_regs(ops) {
        Ok((rd, rs)) => Ok(EncodedView::Short(word_with(0x1000, rd, 0, rs as u16))),
        Err(e) => Err(e),
    }
}

/// `NOT Rd, Rs` is `XORIX Rd, Rs, 0xFFFF`.
pub open spec fn not_form(ops: Seq<OperandView>) -> Result<EncodedView, Seq<char>> {
    match two_regs(ops) {
        Ok((rd, rs)) => Ok(EncodedView::Long(word_with(0xF000, rd, rs, 0x04), 0xFFFF)),
        Err(e) => Err(e),
    }
}

/// The message for a name that is no instruction.
pub open spec fn unknown_instruction(text: Seq<char>) -> Seq<char> {
    "Unknown instruction: "@ + text
}

/// The encoding of an instruction: `m` is the mnemonic, `text` its spelling
/// in the source (for messages), `ops` the operands and `symbols` the
/// bindings that immediate operands may name.
pub open spec fn encode_spec(
    m: Mnemonic,
    text: Seq<char>,
    ops: Seq<OperandView>,
    symbols: Map<Seq<char>, u16>,
) -> Result<EncodedView, Seq<char>> {
    match m {
        Mnemonic::Add => three_reg_form(0x0000, ops),
        Mnemonic::Sub => three_reg_form(0x1000, ops),
        Mnemonic::And => three_reg_form(0x2000, ops),
        Mnemonic::Or => three_reg_form(0x3000, ops),
        Mnemonic::Xor => three_reg_form(0x4000, ops),
        Mnemonic::Addi => addi_form(ops, symbols),
        Mnemonic::Lw => word_load_form(ops),
        Mnemonic::Lb => byte_load_form(0x1, ops),
        Mnemonic::Lbu => byte_load_form(0x2, ops),
        Mnemonic::Lui => lui_form(ops, symbols),
        Mnemonic::Sw => word_store_form(ops),
        Mnemonic::Sb => byte_store_form(ops),
        Mnemonic::Beq => branch_form(0x0, ops),
        Mnemonic::Bne => branch_form(0x1, ops),
        Mnemonic::Blt => branch_form(0x2, ops),
        Mnemonic::Bge => branch_form(0x3, ops),
        Mnemonic::Bltu => branch_form(0x4, ops),
        Mnemonic::Bgeu => branch_form(0x5, ops),
        Mnemonic::Bmi => branch_form(0x6, ops),
        Mnemonic::Bpl => branch_form(0x7, ops),
        Mnemonic::Bvs => branch_form(0x8, ops),
        Mnemonic::Bvc => branch_form(0x9, ops),
        Mnemonic::Bcs => branch_form(0xA, ops),
        Mnemonic::Bcc => branch_form(0xB, ops),
        Mnemonic::Bgt => branch_form(0xC, ops),
        Mnemonic::Ble => branch_form(0xD, ops),
        Mnemonic::Bhi => branch_form(0xE, ops),
        Mnemonic::Bls => branch_form(0xF, ops),
        Mnemonic::J => jump_form(ops),
        Mnemonic::Jr => source_form(0x9F00, 0x0, ops),
        Mnemonic::Jalr => two_reg_form(0x9000, 0x1, ops),
        Mnemonic::Jal => target_form(0xF109, ops, "JAL requires a label or address"@),
        Mnemonic::Sll => two_reg_form(0xA000, 0x0, ops),
        Mnemonic::Srl => two_reg_form(0xA000, 0x1, ops),
        Mnemonic::Sra => two_reg_form(0xA000, 0x2, ops),
        Mnemonic::Rol => two_reg_form(0xA000, 0x3, ops),
        Mnemonic::Ror => two_reg_form(0xA000, 0x4, ops),
        Mnemonic::Swap => two_reg_form(0xA000, 0x7, ops),
        Mnemonic::Mul => two_reg_form(0xB000, 0x0, ops),
        Mnemonic::Mulh => two_reg_form(0xB000, 0x1, ops),
        Mnemonic::Mulhu => two_reg_form(0xB000, 0x2, ops),
        Mnemonic::Div => two_reg_form(0xB000, 0x3, ops),
        Mnemonic::Divu => two_reg_form(0xB000, 0x4, ops),
        Mnemonic::Rem => two_reg_form(0xB000, 0x5, ops),
        Mnemonic::Remu => two_reg_form(0xB000, 0x6, ops),
        Mnemonic::Daa => dest_form(0xB000, 0x7, ops),
        Mnemonic::Push => source_form(0xC000, 0x0, ops),
        Mnemonic::Pop => dest_form(0xC000, 0x1, ops),
        Mnemonic::Compare => two_reg_form(0xC000, 0x2, ops),
        Mnemonic::Test => two_reg_form(0xC000, 0x3, ops),
        Mnemonic::Mov => two_reg_form(0xC000, 0x4, ops),
        Mnemonic::Ldi => Ok(EncodedView::Short(0xC005)),
        Mnemonic::Ldd => Ok(EncodedView::Short(0xC006)),
        Mnemonic::Ldir => Ok(EncodedView::Short(0xC007)),
        Mnemonic::Lddr => Ok(EncodedView::Short(0xC008)),
        Mnemonic::Cpir => Ok(EncodedView::Short(0xC009)),
        Mnemonic::Fill => Ok(EncodedView::Short(0xC00A)),
        Mnemonic::Exx => Ok(EncodedView::Short(0xC00B)),
        Mnemonic::Getf => dest_form(0xC000, 0xC, ops),
        Mnemonic::Setf => source_form(0xC000, 0xD, ops),
        Mnemonic::In => in_form(ops),
        Mnemonic::Ini => ini_form(ops, symbols),
        Mnemonic::Out => out_form(ops),
        Mnemonic::Outi => outi_form(ops, symbols),
        Mnemonic::Nop => Ok(EncodedView::Short(0xE000)),
        Mnemonic::Halt => Ok(EncodedView::Short(0xE100)),
        Mnemonic::Di => Ok(EncodedView::Short(0xE200)),
        Mnemonic::Ei => Ok(EncodedView::Short(0xE300)),
        Mnemonic::Reti => Ok(EncodedView::Short(0xE400)),
        Mnemonic::Swi => swi_form(ops, symbols),
        Mnemonic::Scf => Ok(EncodedView::Short(0xE600)),
        Mnemonic::Ccf => Ok(EncodedView::Short(0xE700)),
        Mnemonic::Lix => lix_form(ops),
        Mnemonic::Jx => target_form(0xF008, ops, "JX requires address"@),
        Mnemonic::Jalx => target_form(0xF109, ops, "JALX requires address"@),
        Mnemonic::Neg => neg_form(ops),
        Mnemonic::Not => not_form(ops),
        Mnemonic::Addix
        | Mnemonic::Subix
        | Mnemonic::Andix
        | Mnemonic::Orix
        | Mnemonic::Xorix
        | Mnemonic::Lwx
        | Mnemonic::Swx
        | Mnemonic::CompareIx
        | Mnemonic::Inx
        | Mnemonic::Outx
        | Mnemonic::Sllx
        | Mnemonic::Srlx
        | Mnemonic::Srax => Err(unknown_instruction(text)),
    }
}

fn encode_three_reg(base: u16, operands: &[Operand]) -> (r: Result<Encoded, String>)
    ensures
        same_encoding(r, three_reg_form(base, operand_views(operands@))),
{
    match get_three_regs(operands) {
        Ok((rd, rs1, rs2)) => Ok(Encoded::Short(pack(base, rd, rs1, rs2 as u16))),
        Err(e) => Err(e),
    }
}

fn encode_two_reg(base: u16, func: u16, operands: &[Operand]) -> (r: Result<Encoded, String>)
    ensures
        same_encoding(r, two_reg_form(base, func, operand_views(operands@))),
{
    match get_two_regs(operands) {
        Ok((rd, rs)) => Ok(Encoded::Short(pack(base, rd, rs, func))),
        Err(e) => Err(e),
    }
}

fn encode_dest(base: u16, func: u16, operands: &[Operand]) -> (r: Result<Encoded, String>)
    ensures
        same_encoding(r, dest_form(base, func, operand_views(operands@))),
{
    match get_one_reg(operands) {
        Ok(rd) => Ok(Encoded::Short(pack(base, rd, 0, func))),
        Err(e) => Err(e),
    }
}

fn encode_source(base: u16, func: u16, operands: &[Operand]) -> (r: Result<Encoded, String>)
    ensures
        same_encoding(r, source_form(base, func, operand_views(operands@))),
{
    match get_one_reg(operands) {
        Ok(rs) => Ok(Encoded::Short(pack(base, 0, rs, func))),
        Err(e) => Err(e),
    }
}

fn encode_addi(operands: &[Operand], symbols: &SymbolTable) -> (r: Result<Encoded, String>)
    ensures
        same_encoding(r, addi_form(operand_views(operands@), symbols@)),
{
    match get_reg_imm(operands, symbols) {
        Ok((rd, imm)) => {
            if imm < -128 || imm > 127 {
                let mut s = String::from_str("Immediate ");
                push_int(&mut s, imm);
                s.append(" out of range for ADDI");
                Err(s)
            } else {
                Ok(Encoded::Short(pack(0x5000, rd, 0, (imm as u8) as u16)))
            }
        },
        Err(e) => Err(e),
    }
}

fn encode_word_load(operands: &[Operand]) -> (r: Result<Encoded, String>)
    ensures
        same_encoding(r, word_load_form(operand_views(operands@))),
{
    match get_load_store_ops(operands) {
        Ok((rd, rs, off)) => match get_offset_func(off, true) {
            Ok(func) => Ok(Encoded::Short(pack(0x6000, rd, rs, func))),
            Err(e) => Err(e),
        },
        Err(e) => Err(e),
    }
}

fn encode_byte_load(func: u16, operands: &[Operand]) -> (r: Result<Encoded, String>)
    ensures
        same_encoding(r, byte_load_form(func, operand_views(operands@))),
{
    match get_load_store_ops(operands) {
        Ok((rd, rs, _)) => Ok(Encoded::Short(pack(0x6000, rd, rs, func))),
        Err(e) => Err(e),
    }
}

fn encode_lui(operands: &[Operand], symbols: &SymbolTable) -> (r: Result<Encoded, String>)
    ensures
        same_encoding(r, lui_form(operand_views(operands@), symbols@)),
{
    match get_reg_imm(operands, symbols) {
        Ok((rd, imm)) => Ok(
            Encoded::Short(pack(0x6000, rd, 0, (((imm as u8) & 0xF0) as u16) | 0x08)),
        ),
        Err(e) => Err(e),
    }
}

fn encode_word_store(operands: &[Operand]) -> (r: Result<Encoded, String>)
    ensures
        same_encoding(r, word_store_form(operand_views(operands@))),
{
    match get_store_ops(operands) {
        Ok((rs2, rs1, off)) => match get_offset_func(off, false) {
            Ok(func) => Ok(Encoded::Short(pack(0x7000, rs2, rs1, func))),
            Err(e) => Err(e),
        },
        Err(e) => Err(e),
    }
}

fn encode_byte_store(operands: &[Operand]) -> (r: Result<Encoded, String>)
    ensures
        same_encoding(r, byte_store_form(operand_views(operands@))),
{
    match get_store_ops(operands) {
        Ok((rs2, rs1, _)) => Ok(Encoded::Short(pack(0x7000, rs2, rs1, 0x1))),
        Err(e) => Err(e),
    }
}

/// The distance in words for a byte distance, when it lies within
/// `-limit..limit`.
fn words_within(offset: i32, limit: i32) -> (r: Option<i32>)
    requires
        0 < limit <= 0x10000,
    ensures
        r == if -limit <= half(offset as int) < limit {
            Some(half(offset as int) as i32)
        } else {
            None::<i32>
        },
{
    if offset >= 0 {
        let off = offset / 2;
        if off < limit {
            Some(off)
        } else {
            None
        }
    } else if offset == i32::MIN {
        None
    } else {
        let off = -((-offset) / 2);
        if off >= -limit {
            Some(off)
        } else {
            None
        }
    }
}

/// Encodes a conditional branch with condition code `cond`.
pub fn emit_branch(cond: u16, operands: &[Operand]) -> (r: Result<Encoded, String>)
    ensures
        same_encoding(r, branch_form(cond, operand_views(operands@))),
{
    if operands.len() == 0 {
        return Err(String::from_str("Branch requires target"));
    }
    match &operands[0] {
        Operand::Label(label) => Ok(
            Encoded::ShortSym(0x8000 | (cond << 8), label.clone(), FixupKind::Relative8),
        ),
        Operand::Immediate(offset) => match words_within(*offset, 128) {
            Some(off) => Ok(Encoded::Short(0x8000 | (cond << 8) | ((off as u8) as u16))),
            None => Err(String::from_str("Branch offset out of range")),
        },
        _ => Err(String::from_str("Branch requires target")),
    }
}

/// Encodes a relative jump.
pub fn emit_jump(operands: &[Operand]) -> (r: Result<Encoded, String>)
    ensures
        same_encoding(r, jump_form(operand_views(operands@))),
{
    if operands.len() == 0 {
        return Err(String::from_str("Jump requires target"));
    }
    match &operands[0] {
        Operand::Label(label) => Ok(
            Encoded::ShortSym(0x9000, label.clone(), FixupKind::Relative12),
        ),
        Operand::Immediate(offset) => match words_within(*offset, 2048) {
            Some(off) => Ok(Encoded::Short(0x9000 | ((off as u16) & 0x0FFF))),
            None => Err(String::from_str("Jump offset out of range")),
        },
        _ => Err(String::from_str("Jump requires target")),
    }
}

fn encode_target(header: u16, operands: &[Operand], otherwise: &str) -> (r: Result<
    Encoded,
    String,
>)
    ensures
        same_encoding(r, target_form(header, operand_views(operands@), otherwise@)),
{
    if operands.len() == 0 {
        return Err(String::from_str(otherwise));
    }
    match &operands[0] {
        Operand::Label(label) => Ok(Encoded::LongSym(header, label.clone())),
        Operand::Immediate(addr) => Ok(Encoded::Long(header, *addr as u16)),
        _ => Err(String::from_str(otherwise)),
    }
}

fn encode_in(operands: &[Operand]) -> (r: Result<Encoded, String>)
    ensures
        same_encoding(r, in_form(operand_views(operands@))),
{
    match get_in_operands(operands) {
        Ok((rd, port)) => Ok(Encoded::Short(pack(0xD000, rd, port, 0x2))),
        Err(e) => Err(e),
    }
}

fn encode_out(operands: &[Operand]) -> (r: Result<Encoded, String>)
    ensures
        same_encoding(r, out_form(operand_views(operands@))),
{
    match get_out_operands(operands) {
        Ok((port, rs)) => Ok(Encoded::Short(pack(0xD000, port, rs, 0x3))),
        Err(e) => Err(e),
    }
}

fn encode_ini(operands: &[Operand], symbols: &SymbolTable) -> (r: Result<Encoded, String>)
    ensures
        same_encoding(r, ini_form(operand_views(operands@), symbols@)),
{
    match get_reg_imm(operands, symbols) {
        Ok((rd, port)) => {
            if port < 0 || port > 255 {
                Err(String::from_str("Port number out of range"))
            } else {
                Ok(Encoded::Long(pack(0xF000, rd, 0, 0x0B), port as u16))
            }
        },
        Err(e) => Err(e),
    }
}

fn encode_outi(operands: &[Operand], symbols: &SymbolTable) -> (r: Result<Encoded, String>)
    ensures
        same_encoding(r, outi_form(operand_views(operands@), symbols@)),
{
    match get_imm_reg(operands, symbols) {
        Ok((port, rs)) => {
            if port < 0 || port > 255 {
                Err(String::from_str("Port number out of range"))
            } else {
                Ok(Encoded::Long(pack(0xF000, 0, rs, 0x0C), port as u16))
            }
        },
        Err(e) => Err(e),
    }
}

fn encode_swi(operands: &[Operand], symbols: &SymbolTable) -> (r: Result<Encoded, String>)
    ensures
        same_encoding(r, swi_form(operand_views(operands@), symbols@)),
{
    match get_imm(operands, symbols) {
        Ok(imm) => Ok(Encoded::Short(0xE500 | ((imm as u8) as u16))),
        Err(e) => Err(e),
    }
}

fn encode_lix(operands: &[Operand]) -> (r: Result<Encoded, String>)
    ensures
        same_encoding(r, lix_form(operand_views(operands@))),
{
    if operands.len() < 2 {
        return Err(String::from_str("Expected register and value"));
    }
    match (&operands[0], &operands[1]) {
        (Operand::Register(rd), Operand::Immediate(v)) => Ok(
            Encoded::Long(pack(0xF000, *rd, 0, 0x07), *v as u16),
        ),
        (Operand::Register(rd), Operand::Label(l)) => Ok(
            Encoded::LongSym(pack(0xF000, *rd, 0, 0x07), l.clone()),
        ),
        _ => Err(String::from_str("Expected register and immediate or label")),
    }
}

fn encode_neg(operands: &[Operand]) -> (r: Result<Encoded, String>)
    ensures
        same_encoding(r, neg_form(operand_views(operands@))),
{
    match get_two_regs(operands) {
        Ok((rd, rs)) => Ok(Encoded::Short(pack(0x1000, rd, 0, rs as u16))),
        Err(e) => Err(e),
    }
}

fn encode_not(operands: &[Operand]) -> (r: Result<Encoded, String>)
    ensures
        same_encoding(r, not_form(operand_views(operands@))),
{
    match get_two_regs(operands) {
        Ok((rd, rs)) => Ok(Encoded::Long(pack(0xF000, rd, rs, 0x04), 0xFFFF)),
        Err(e) => Err(e),
    }
}

/// Builds the message of [`unknown_instruction`].
pub fn unknown_instruction_message(text: &str) -> (s: String)
    ensures
        s@ == unknown_instruction(text@),
{
    let mut s = String::from_str("Unknown instruction: ");
    s.append(text);
    s
}

/// Encodes one instruction as [`encode_spec`] says.
#[verifier::rlimit(40)]
pub fn encode_instruction(
    m: Mnemonic,
    text: &str,
    operands: &[Operand],
    symbols: &SymbolTable,
) -> (r: Result<Encoded, String>)
    ensures
        same_encoding(r, encode_spec(m, text@, operand_views(operands@), symbols@)),
{
    match m {
        Mnemonic::Add => encode_three_reg(0x0000, operands),
        Mnemonic::Sub => encode_three_reg(0x1000, operands),
        Mnemonic::And => encode_three_reg(0x2000, operands),
        Mnemonic::Or => encode_three_reg(0x3000, operands),
        Mnemonic::Xor => encode_three_reg(0x4000, operands),
        Mnemonic::Addi => encode_addi(operands, symbols),
        Mnemonic::Lw => encode_word_load(operands),
        Mnemonic::Lb => encode_byte_load(0x1, operands),
        Mnemonic::Lbu => encode_byte_load(0x2, operands),
        Mnemonic::Lui => encode_lui(operands, symbols),
        Mnemonic::Sw => encode_word_store(operands),
        Mnemonic::Sb => encode_byte_store(operands),
        Mnemonic::Beq => emit_branch(0x0, operands),
        Mnemonic::Bne => emit_branch(0x1, operands),
        Mnemonic::Blt => emit_branch(0x2, operands),
        Mnemonic::Bge => emit_branch(0x3, operands),
        Mnemonic::Bltu => emit_branch(0x4, operands),
        Mnemonic::Bgeu => emit_branch(0x5, operands),
        Mnemonic::Bmi => emit_branch(0x6, operands),
        Mnemonic::Bpl => emit_branch(0x7, operands),
        Mnemonic::Bvs => emit_branch(0x8, operands),
        Mnemonic::Bvc => emit_branch(0x9, operands),
        Mnemonic::Bcs => emit_branch(0xA, operands),
        Mnemonic::Bcc => emit_branch(0xB, operands),
        Mnemonic::Bgt => emit_branch(0xC, operands),
        Mnemonic::Ble => emit_branch(0xD, operands),
        Mnemonic::Bhi => emit_branch(0xE, operands),
        Mnemonic::Bls => emit_branch(0xF, operands),
        Mnemonic::J => emit_jump(operands),
        Mnemonic::Jr => encode_source(0x9F00, 0x0, operands),
        Mnemonic::Jalr => encode_two_reg(0x9000, 0x1, operands),
        Mnemonic::Jal => encode_target(0xF109, operands, "JAL requires a label or address"),
        Mnemonic::Sll => encode_two_reg(0xA000, 0x0, operands),
        Mnemonic::Srl => encode_two_reg(0xA000, 0x1, operands),
        Mnemonic::Sra => encode_two_reg(0xA000, 0x2, operands),
        Mnemonic::Rol => encode_two_reg(0xA000, 0x3, operands),
        Mnemonic::Ror => encode_two_reg(0xA000, 0x4, operands),
        Mnemonic::Swap => encode_two_reg(0xA000, 0x7, operands),
        Mnemonic::Mul => encode_two_reg(0xB000, 0x0, operands),
        Mnemonic::Mulh => encode_two_reg(0xB000, 0x1, operands),
        Mnemonic::Mulhu => encode_two_reg(0xB000, 0x2, operands),
        Mnemonic::Div => encode_two_reg(0xB000, 0x3, operands),
        Mnemonic::Divu => encode_two_reg(0xB000, 0x4, operands),
        Mnemonic::Rem => encode_two_reg(0xB000, 0x5, operands),
        Mnemonic::Remu => encode_two_reg(0xB000, 0x6, operands),
        Mnemonic::Daa => encode_dest(0xB000, 0x7, operands),
        Mnemonic::Push => encode_source(0xC000, 0x0, operands),
        Mnemonic::Pop => encode_dest(0xC000, 0x1, operands),
        Mnemonic::Compare => encode_two_reg(0xC000, 0x2, operands),
        Mnemonic::Test => encode_two_reg(0xC000, 0x3, operands),
        Mnemonic::Mov => encode_two_reg(0xC000, 0x4, operands),
        Mnemonic::Ldi => Ok(Encoded::Short(0xC005)),
        Mnemonic::Ldd => Ok(Encoded::Short(0xC006)),
        Mnemonic::Ldir => Ok(Encoded::Short(0xC007)),
        Mnemonic::Lddr => Ok(Encoded::Short(0xC008)),
        Mnemonic::Cpir => Ok(Encoded::Short(0xC009)),
        Mnemonic::Fill => Ok(Encoded::Short(0xC00A)),
        Mnemonic::Exx => Ok(Encoded::Short(0xC00B)),
        Mnemonic::Getf => encode_dest(0xC000, 0xC, operands),
        Mnemonic::Setf => encode_source(0xC000, 0xD, operands),
        Mnemonic::In => encode_in(operands),
        Mnemonic::Ini => encode_ini(operands, symbols),
        Mnemonic::Out => encode_out(operands),
        Mnemonic::Outi => encode_outi(operands, symbols),
        Mnemonic::Nop => Ok(Encoded::Short(0xE000)),
        Mnemonic::Halt => Ok(Encoded::Short(0xE100)),
        Mnemonic::Di => Ok(Encoded::Short(0xE200)),
        Mnemonic::Ei => Ok(Encoded::Short(0xE300)),
        Mnemonic::Reti => Ok(Encoded::Short(0xE400)),
        Mnemonic::Swi => encode_swi(operands, symbols),
        Mnemonic::Scf => Ok(Encoded::Short(0xE600)),
        Mnemonic::Ccf => Ok(Encoded::Short(0xE700)),
        Mnemonic::Lix => encode_lix(operands),
        Mnemonic::Jx => encode_target(0xF008, operands, "JX requires address"),
        Mnemonic::Jalx => encode_target(0xF109, operands, "JALX requires address"),
        Mnemonic::Neg => encode_neg(operands),
        Mnemonic::Not => encode_not(operands),
        Mnemonic::Addix
        | Mnemonic::Subix
        | Mnemonic::Andix
        | Mnemonic::Orix
        | Mnemonic::Xorix
        | Mnemonic::Lwx
        | Mnemonic::Swx
        | Mnemonic::CompareIx
        | Mnemonic::Inx
        | Mnemonic::Outx
        | Mnemonic::Sllx
        | Mnemonic::Srlx
        | Mnemonic::Srax => Err(unknown_instruction_message(text)),
    }
}

} // verus!
