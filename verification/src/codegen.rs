//! The code generator: a sizing pass that binds symbols, an emission pass
//! that writes the image and records deferred references, and a patching
//! pass that resolves them.
//!
//! Addresses are 16 bits wide and wrap. The sizing pass starts at address
//! 0 and remembers the address of the first `.org` as the initial origin;
//! the emission pass starts at that origin, with the image padded up to
//! it. The image only grows: an `.org` beyond its end pads it with zeros,
//! and an `.org` below its end moves the running address and nothing else.

use crate::encode::{
    Encoded, EncodedView, FixupKind, encode_instruction, encode_spec, undefined_symbol,
    undefined_symbol_message, unknown_instruction, unknown_instruction_message,
};
use crate::isa::{
    high_byte, instruction_bytes, lookup_mnemonic, low_byte, make_word, mnemonic_of, size_of,
    word_bytes, word_of, wrap16,
};
use crate::parser::{
    DirectiveArg, DirectiveArgView, Operand, OperandView, Program, Statement, StatementView,
    arg_views, operand_views,
};
use crate::symbols::{SymbolTable, lookup};
use crate::text::{str_eq, to_upper, uppercase_of};
use vstd::prelude::*;
use vstd::string::*;
use vstd::utf8::encode_utf8;

verus! {

/// A deferred reference: the bytes at `address` wait for the value of
/// `symbol`.
pub struct Fixup {
    pub address: u16,
    pub symbol: String,
    pub kind: FixupKind,
}

/// Model of a [`Fixup`].
pub struct FixupView {
    pub address: u16,
    pub symbol: Seq<char>,
    pub kind: FixupKind,
}

impl View for Fixup {
    type V = FixupView;

    open spec fn view(&self) -> FixupView {
        FixupView { address: self.address, symbol: self.symbol@, kind: self.kind }
    }
}

/// The models of a sequence of fixups.
pub open spec fn fixup_views(v: Seq<Fixup>) -> Seq<FixupView> {
    v.map_values(|f: Fixup| f@)
}

/// What the sizing pass knows: the initial origin, if an `.org` has set
/// one, the running address and the symbols bound so far.
pub struct Layout {
    pub origin: Option<u16>,
    pub pc: u16,
    pub symbols: Map<Seq<char>, u16>,
}

/// What the emission pass has produced: the running address, the image and
/// the references still to be patched.
pub struct Image {
    pub pc: u16,
    pub output: Seq<u8>,
    pub fixups: Seq<FixupView>,
}

/// The address `n` bytes after `pc`, modulo 2^16.
pub open spec fn advance(pc: u16, n: int) -> u16 {
    wrap16(pc + n)
}

/// Bytes that one argument of a data directive occupies.
pub open spec fn arg_size(name: Seq<char>, a: DirectiveArgView) -> int {
    if name == "db"@ {
        match a {
            DirectiveArgView::Text(s) => encode_utf8(s).len() as int,
            _ => 1,
        }
    } else if name == "dw"@ {
        2
    } else if name == "ascii"@ {
        match a {
            DirectiveArgView::Text(s) => encode_utf8(s).len() as int,
            _ => 0,
        }
    } else if name == "asciz"@ {
        match a {
            DirectiveArgView::Text(s) => encode_utf8(s).len() as int + 1,
            _ => 0,
        }
    } else {
        0
    }
}

/// Bytes that the first `n` arguments of a data directive occupy.
pub open spec fn data_size(name: Seq<char>, args: Seq<DirectiveArgView>, n: int) -> int
    decreases n,
{
    if n <= 0 {
        0
    } else {
        data_size(name, args, n - 1) + arg_size(name, args[n - 1])
    }
}

/// The sizing pass on one statement.
pub open spec fn layout_step(l: Layout, st: StatementView) -> Layout {
    match st {
        StatementView::Label(name) => Layout { symbols: l.symbols.insert(name, l.pc), ..l },
        StatementView::Directive { name, args } => {
            if name == "org"@ {
                if args.len() > 0 && args[0] is Number {
                    Layout {
                        origin: if l.origin is None {
                            Some(args[0]->Number_0 as u16)
                        } else {
                            l.origin
                        },
                        pc: args[0]->Number_0 as u16,
                        symbols: l.symbols,
                    }
                } else {
                    l
                }
            } else if name == "equ"@ {
                if args.len() >= 2 && args[0] is Ident && args[1] is Number {
                    Layout {
                        symbols: l.symbols.insert(args[0]->Ident_0, args[1]->Number_0 as u16),
                        ..l
                    }
                } else {
                    l
                }
            } else {
                Layout { pc: advance(l.pc, data_size(name, args, args.len() as int)), ..l }
            }
        },
        StatementView::Instruction { mnemonic, operands } => Layout {
            pc: advance(l.pc, size_of(mnemonic_of(uppercase_of(mnemonic))) as int),
            ..l
        },
    }
}

/// The sizing pass on the first `n` statements, from a fresh layout.
pub open spec fn layout_after(stmts: Seq<StatementView>, n: int) -> Layout
    decreases n,
{
    if n <= 0 {
        Layout { origin: None, pc: 0, symbols: Map::empty() }
    } else {
        layout_step(layout_after(stmts, n - 1), stmts[n - 1])
    }
}

/// The image with `bytes` appended at the running address.
pub open spec fn emit_bytes(im: Image, bytes: Seq<u8>) -> Image {
    Image { pc: advance(im.pc, bytes.len() as int), output: im.output + bytes, ..im }
}

/// The image with an encoded instruction placed at the running address. A
/// reference to a symbol leaves zero bits where the value will go and a
/// fixup that names the place.
pub open spec fn place(im: Image, e: EncodedView) -> Image {
    match e {
        EncodedView::Short(w) => emit_bytes(im, word_bytes(w)),
        EncodedView::Long(w, imm) => emit_bytes(emit_bytes(im, word_bytes(w)), word_bytes(imm)),
        EncodedView::LongSym(w, sym) => {
            let head = emit_bytes(im, word_bytes(w));
            let noted = Image {
                fixups: head.fixups.push(
                    FixupView { address: head.pc, symbol: sym, kind: FixupKind::Absolute16 },
                ),
                ..head
            };
            emit_bytes(noted, word_bytes(0))
        },
        EncodedView::ShortSym(w, sym, kind) => {
            let noted = Image {
                fixups: im.fixups.push(FixupView { address: im.pc, symbol: sym, kind }),
                ..im
            };
            emit_bytes(noted, word_bytes(w))
        },
    }
}

/// The emission pass on one instruction.
pub open spec fn emit_instruction_spec(
    im: Image,
    text: Seq<char>,
    ops: Seq<OperandView>,
    symbols: Map<Seq<char>, u16>,
) -> Result<Image, Seq<char>> {
    match mnemonic_of(uppercase_of(text)) {
        None => Err(unknown_instruction(text)),
        Some(m) => match encode_spec(m, text, ops, symbols) {
            Ok(e) => Ok(place(im, e)),
            Err(msg) => Err(msg),
        },
    }
}

/// The image grown with zero bytes until it holds `n` bytes.
pub open spec fn pad(output: Seq<u8>, n: int) -> Seq<u8> {
    if output.len() < n {
        output + Seq::new((n - output.len()) as nat, |i: int| 0u8)
    } else {
        output
    }
}

/// The emission pass on one argument of `.db`.
pub open spec fn db_arg(im: Image, a: DirectiveArgView, symbols: Map<Seq<char>, u16>) -> Result<
    Image,
    Seq<char>,
> {
    match a {
        DirectiveArgView::Number(n) => Ok(emit_bytes(im, seq![n as u8])),
        DirectiveArgView::Text(s) => Ok(emit_bytes(im, encode_utf8(s))),
        DirectiveArgView::Ident(sym) => match lookup(symbols, sym) {
            Some(v) => Ok(emit_bytes(im, seq![v as u8])),
            None => Err(undefined_symbol(sym)),
        },
    }
}

/// The emission pass on one argument of `.dw`.
pub open spec fn dw_arg(im: Image, a: DirectiveArgView, symbols: Map<Seq<char>, u16>) -> Result<
    Image,
    Seq<char>,
> {
    match a {
        DirectiveArgView::Number(n) => Ok(emit_bytes(im, word_bytes(n as u16))),
        DirectiveArgView::Ident(sym) => match lookup(symbols, sym) {
            Some(v) => Ok(emit_bytes(im, word_bytes(v))),
            None => {
                let noted = Image {
                    fixups: im.fixups.push(
                        FixupView { address: im.pc, symbol: sym, kind: FixupKind::Absolute16 },
                    ),
                    ..im
                };
                Ok(emit_bytes(noted, word_bytes(0)))
            },
        },
        DirectiveArgView::Text(_) => Err("Invalid .dw argument"@),
    }
}

/// The emission pass on one argument of `.ascii` or, with `terminate`, of
/// `.asciz`. Arguments that are no strings are passed over.
pub open spec fn text_arg(im: Image, a: DirectiveArgView, terminate: bool) -> Image {
    match a {
        DirectiveArgView::Text(s) => {
            let body = emit_bytes(im, encode_utf8(s));
            if terminate {
                emit_bytes(body, seq![0u8])
            } else {
                body
            }
        },
        _ => im,
    }
}

/// The emission pass on one argument of the data directive `name`.
pub open spec fn data_arg(
    im: Image,
    name: Seq<char>,
    a: DirectiveArgView,
    symbols: Map<Seq<char>, u16>,
) -> Result<Image, Seq<char>> {
    if name == "db"@ {
        db_arg(im, a, symbols)
    } else if name == "dw"@ {
        dw_arg(im, a, symbols)
    } else if name == "ascii"@ {
        Ok(text_arg(im, a, false))
    } else if name == "asciz"@ {
        Ok(text_arg(im, a, true))
    } else {
        Ok(im)
    }
}

/// The emission pass on the first `n` arguments of a data directive. The
/// first argument that fails ends it.
pub open spec fn data_after(
    im: Image,
    name: Seq<char>,
    args: Seq<DirectiveArgView>,
    n: int,
    symbols: Map<Seq<char>, u16>,
) -> Result<Image, Seq<char>>
    decreases n,
{
    if n <= 0 {
        Ok(im)
    } else {
        match data_after(im, name, args, n - 1, symbols) {
            Ok(s) => data_arg(s, name, args[n - 1], symbols),
            Err(e) => Err(e),
        }
    }
}

/// The emission pass on one directive.
pub open spec fn emit_directive_spec(
    im: Image,
    name: Seq<char>,
    args: Seq<DirectiveArgView>,
    symbols: Map<Seq<char>, u16>,
) -> Result<Image, Seq<char>> {
    if name == "org"@ {
        if args.len() > 0 && args[0] is Number {
            let pc = args[0]->Number_0 as u16;
            Ok(Image { pc, output: pad(im.output, pc as int), ..im })
        } else {
            Ok(im)
        }
    } else if name == "equ"@ {
        Ok(im)
    } else {
        data_after(im, name, args, args.len() as int, symbols)
    }
}

/// The emission pass on one statement.
pub open spec fn emit_step(im: Image, st: StatementView, symbols: Map<Seq<char>, u16>) -> Result<
    Image,
    Seq<char>,
> {
    match st {
        StatementView::Label(_) => Ok(im),
        StatementView::Directive { name, args } => emit_directive_spec(im, name, args, symbols),
        StatementView::Instruction { mnemonic, operands } => emit_instruction_spec(
            im,
            mnemonic,
            operands,
            symbols,
        ),
    }
}

/// The address at which the emission pass starts: the initial origin, or
/// 0 if no `.org` has set one.
pub open spec fn initial_origin(l: Layout) -> u16 {
    match l.origin {
        Some(origin) => origin,
        None => 0,
    }
}

/// The image that the emission pass starts from: `origin` zero bytes, the
/// running address at `origin`.
pub open spec fn blank(origin: u16) -> Image {
    Image { pc: origin, output: pad(Seq::empty(), origin as int), fixups: Seq::empty() }
}

/// The emission pass on the first `n` statements. The first statement that
/// fails ends it.
pub open spec fn emit_after(
    stmts: Seq<StatementView>,
    n: int,
    origin: u16,
    symbols: Map<Seq<char>, u16>,
) -> Result<Image, Seq<char>>
    decreases n,
{
    if n <= 0 {
        Ok(blank(origin))
    } else {
        match emit_after(stmts, n - 1, origin, symbols) {
            Ok(im) => emit_step(im, stmts[n - 1], symbols),
            Err(e) => Err(e),
        }
    }
}

/// Half of a byte distance, rounded toward zero.
pub open spec fn words_between(target: u16, from: u16) -> int {
    crate::encode::half(target - from)
}

/// The message for a branch whose target is too far.
pub open spec fn branch_too_far(sym: Seq<char>) -> Seq<char> {
    "Branch to "@ + sym + " out of range"@
}

/// The message for a jump whose target is too far.
pub open spec fn jump_too_far(sym: Seq<char>) -> Seq<char> {
    "Jump to "@ + sym + " out of range"@
}

/// The byte that holds a signed word distance.
pub open spec fn distance_byte(off: i32) -> u8 {
    (off as i8) as u8
}

/// The word `existing` with a signed word distance in its low twelve bits.
pub open spec fn with_distance(existing: u16, off: i32) -> u16 {
    (existing & 0xF000) | ((off as u16) & 0x0FFF)
}

/// The image with one fixup applied, `target` being the value of its
/// symbol. Relative distances are counted in words from the end of the
/// instruction and must fit their field.
pub open spec fn patch(output: Seq<u8>, f: FixupView, target: u16) -> Result<Seq<u8>, Seq<char>> {
    let a = f.address as int;
    match f.kind {
        FixupKind::Absolute16 => Ok(
            output.update(a, low_byte(target)).update(a + 1, high_byte(target)),
        ),
        FixupKind::Relative8 => {
            let off = words_between(target, advance(f.address, 2));
            if off < -128 || off > 127 {
                Err(branch_too_far(f.symbol))
            } else {
                Ok(output.update(a, distance_byte(off as i32)))
            }
        },
        FixupKind::Relative12 => {
            let off = words_between(target, advance(f.address, 2));
            if off < -2048 || off > 2047 {
                Err(jump_too_far(f.symbol))
            } else {
                let w = with_distance(word_of(output[a], output[a + 1]), off as i32);
                Ok(output.update(a, low_byte(w)).update(a + 1, high_byte(w)))
            }
        },
    }
}

/// The image with the first `n` fixups applied. The first fixup whose
/// symbol is unbound or whose distance does not fit ends it.
pub open spec fn patch_after(
    output: Seq<u8>,
    fixups: Seq<FixupView>,
    n: int,
    symbols: Map<Seq<char>, u16>,
) -> Result<Seq<u8>, Seq<char>>
    decreases n,
{
    if n <= 0 {
        Ok(output)
    } else {
        match patch_after(output, fixups, n - 1, symbols) {
            Ok(o) => match lookup(symbols, fixups[n - 1].symbol) {
                Some(target) => patch(o, fixups[n - 1], target),
                None => Err(undefined_symbol(fixups[n - 1].symbol)),
            },
            Err(e) => Err(e),
        }
    }
}

/// The image of a program, or the message of the first error: the sizing
/// pass over all statements, the emission pass from the initial origin
/// that the sizing pass found, and the patching pass over the recorded
/// fixups.
pub open spec fn assemble(stmts: Seq<StatementView>) -> Result<Seq<u8>, Seq<char>> {
    let l = layout_after(stmts, stmts.len() as int);
    match emit_after(stmts, stmts.len() as int, initial_origin(l), l.symbols) {
        Ok(im) => patch_after(im.output, im.fixups, im.fixups.len() as int, l.symbols),
        Err(e) => Err(e),
    }
}

/// What the emission pass makes of a program, before any reference is
/// patched: the sizing pass over all statements, then the emission pass
/// from the initial origin that the sizing pass found.
pub open spec fn emitted(stmts: Seq<StatementView>) -> Result<Image, Seq<char>> {
    let l = layout_after(stmts, stmts.len() as int);
    emit_after(stmts, stmts.len() as int, initial_origin(l), l.symbols)
}

/// An executable image agrees with a specified one.
pub open spec fn same_bytes(r: Result<Vec<u8>, String>, s: Result<Seq<u8>, Seq<char>>) -> bool {
    match r {
        Ok(v) => s == Ok::<Seq<u8>, Seq<char>>(v@),
        Err(e) => s == Err::<Seq<u8>, Seq<char>>(e@),
    }
}

/// Every recorded reference lies inside the image, and the running
/// address is not beyond its end.
pub open spec fn fits(im: Image) -> bool {
    &&& im.pc <= im.output.len()
    &&& forall|i: int| 0 <= i < im.fixups.len() ==> (#[trigger] im.fixups[i]).address + 2
        <= im.output.len()
}

/// The address `n` bytes after `pc`, modulo 2^16.
fn bump(pc: u16, n: usize) -> (r: u16)
    ensures
        r == advance(pc, n as int),
{
    let m: u16 = (n % 65536) as u16;
    pc.wrapping_add(m)
}

/// Grows `output` with zero bytes until it holds `n` bytes.
fn pad_to(output: &mut Vec<u8>, n: usize)
    ensures
        final(output)@ == pad(old(output)@, n as int),
{
    let ghost before = output@;
    while output.len() < n
        invariant
            before.len() <= output.len(),
            output.len() <= n || output@ == before,
            output@ == before + Seq::new((output.len() - before.len()) as nat, |i: int| 0u8),
        decreases n - output.len(),
    {
        output.push(0);
    }
    assert(output@ =~= pad(before, n as int));
}

/// Advancing twice is advancing by the sum.
pub proof fn lemma_advance_sum(pc: u16, a: int, b: int)
    requires
        0 <= a,
        0 <= b,
    ensures
        advance(advance(pc, a), b) == advance(pc, a + b),
{
}

/// The two-pass code generator.
pub struct CodeGen {
    origin: Option<u16>,
    pc: u16,
    symbols: SymbolTable,
    output: Vec<u8>,
    fixups: Vec<Fixup>,
}

impl CodeGen {
    /// What the sizing pass has found.
    pub closed spec fn layout(&self) -> Layout {
        Layout { origin: self.origin, pc: self.pc, symbols: self.symbols@ }
    }

    /// What the emission pass has produced.
    pub closed spec fn image(&self) -> Image {
        Image { pc: self.pc, output: self.output@, fixups: fixup_views(self.fixups@) }
    }

    /// A generator that has seen no program.
    pub fn new() -> (g: CodeGen)
        ensures
            g.layout() == (Layout { origin: None, pc: 0, symbols: Map::empty() }),
            g.image() == (Image { pc: 0, output: Seq::empty(), fixups: Seq::empty() }),
    {
        let g = CodeGen {
            origin: None,
            pc: 0,
            symbols: SymbolTable::new(),
            output: Vec::new(),
            fixups: Vec::new(),
        };
        assert(g.image().fixups =~= Seq::empty());
        g
    }

    /// Assembles a program into its image.
    ///
    /// Each call starts afresh, so the result depends on the program alone:
    /// it is the image that [`assemble`] defines, or the message of the
    /// first error. Whatever the outcome, the generator then holds the
    /// symbols and the initial origin of this program. After a success it
    /// also holds the image, the address after the last statement and the
    /// references that the emission pass recorded, and every one of those
    /// names a symbol of the table.
    pub fn generate(&mut self, program: &Program) -> (r: Result<Vec<u8>, String>)
        ensures
            same_bytes(r, assemble(program@)),
            final(self).layout().symbols == layout_after(program@, program@.len() as int).symbols,
            final(self).layout().origin == layout_after(program@, program@.len() as int).origin,
            r matches Ok(v) ==> final(self).image().output == v@,
            r is Ok ==> (emitted(program@) matches Ok(im) && final(self).image().fixups
                == im.fixups && final(self).image().pc == im.pc),
            r is Ok ==> forall|i: int|
                0 <= i < final(self).image().fixups.len() ==> lookup(
                    final(self).layout().symbols,
                    (#[trigger] final(self).image().fixups[i]).symbol,
                ) is Some,
    {
        self.pass1(program);
        match self.pass2(program) {
            Err(e) => Err(e),
            Ok(()) => {
                proof {
                    crate::encoder_laws::law_patching_succeeds(
                        self.image().output,
                        self.image().fixups,
                        self.image().fixups.len() as int,
                        self.layout().symbols,
                    );
                }
                match self.apply_fixups() {
                    Err(e) => Err(e),
                    Ok(()) => Ok(self.output.clone()),
                }
            },
        }
    }

    /// The sizing pass: walks the statements from address 0, binds every
    /// label to the address it stands at and every `.equ` name to its
    /// value, and remembers the address of the first `.org` as the initial
    /// origin.
    fn pass1(&mut self, program: &Program)
        ensures
            final(self).layout() == layout_after(program@, program@.len() as int),
    {
        self.origin = None;
        self.pc = 0;
        self.symbols = SymbolTable::new();
        let n = program.statements.len();
        let mut i: usize = 0;
        while i < n
            invariant
                i <= n,
                n == program.statements.len(),
                self.layout() == layout_after(program@, i as int),
            decreases n - i,
        {
            let stmt = &program.statements[i];
            assert(program@[i as int] == stmt@);
            match stmt {
                Statement::Label(name) => {
                    self.symbols.insert(name.clone(), self.pc);
                },
                Statement::Directive { name, args } => {
                    self.size_directive(name.as_str(), args.as_slice());
                },
                Statement::Instruction { mnemonic, operands } => {
                    let size = self.instruction_size(mnemonic.as_str(), operands.as_slice());
                    self.pc = bump(self.pc, size as usize);
                },
            }
            i += 1;
        }
    }

    /// The sizing pass on one directive.
    fn size_directive(&mut self, name: &str, args: &[DirectiveArg])
        ensures
            final(self).layout() == layout_step(
                old(self).layout(),
                StatementView::Directive { name: name@, args: arg_views(args@) },
            ),
            final(self).image().output == old(self).image().output,
            final(self).image().fixups == old(self).image().fixups,
    {
        if str_eq(name, "org") {
            if args.len() > 0 {
                if let DirectiveArg::Number(addr) = &args[0] {
                    if self.origin.is_none() {
                        self.origin = Some(*addr as u16);
                    }
                    self.pc = *addr as u16;
                }
            }
        } else if str_eq(name, "equ") {
            if args.len() >= 2 {
                if let DirectiveArg::Ident(sym) = &args[0] {
                    if let DirectiveArg::Number(val) = &args[1] {
                        self.symbols.insert(sym.clone(), *val as u16);
                    }
                }
            }
        } else {
            let is_db = str_eq(name, "db");
            let is_dw = str_eq(name, "dw");
            let is_ascii = str_eq(name, "ascii");
            let is_asciz = str_eq(name, "asciz");
            let ghost start = self.pc;
            let mut i: usize = 0;
            while i < args.len()
                invariant
                    i <= args.len(),
                    is_db == (name@ == "db"@),
                    is_dw == (name@ == "dw"@),
                    is_ascii == (name@ == "ascii"@),
                    is_asciz == (name@ == "asciz"@),
                    self.pc == advance(start, data_size(name@, arg_views(args@), i as int)),
                    data_size(name@, arg_views(args@), i as int) >= 0,
                    self.origin == old(self).origin,
                    self.symbols == old(self).symbols,
                    self.output == old(self).output,
                    self.fixups == old(self).fixups,
                decreases args.len() - i,
            {
                let arg = &args[i];
                assert(arg_views(args@)[i as int] == arg@);
                proof {
                    let done = data_size(name@, arg_views(args@), i as int);
                    lemma_advance_sum(start, done, arg_size(name@, arg@));
                    if !is_db && !is_dw && !is_ascii && is_asciz && arg is String {
                        lemma_advance_sum(start, done, arg_size(name@, arg@) - 1);
                        lemma_advance_sum(advance(start, done), arg_size(name@, arg@) - 1, 1);
                    }
                }
                if is_db {
                    match arg {
                        DirectiveArg::String(s) => {
                            self.pc = bump(self.pc, s.as_str().as_bytes().len());
                        },
                        _ => {
                            self.pc = bump(self.pc, 1);
                        },
                    }
                } else if is_dw {
                    self.pc = bump(self.pc, 2);
                } else if is_ascii {
                    if let DirectiveArg::String(s) = arg {
                        self.pc = bump(self.pc, s.as_str().as_bytes().len());
                    }
                } else if is_asciz {
                    if let DirectiveArg::String(s) = arg {
                        self.pc = bump(self.pc, s.as_str().as_bytes().len());
                        self.pc = bump(self.pc, 1);
                    }
                }
                i += 1;
            }
        }
    }

    /// Bytes that the sizing pass reserves for an instruction: two, or four
    /// for the extended forms. The operands play no part.
    fn instruction_size(&self, mnemonic: &str, _operands: &[Operand]) -> (n: u16)
        ensures
            n == size_of(mnemonic_of(uppercase_of(mnemonic@))),
    {
        let upper = to_upper(mnemonic);
        instruction_bytes(lookup_mnemonic(upper.as_str()))
    }

    /// The emission pass: pads the image to the origin, then writes every
    /// statement at the running address.
    fn pass2(&mut self, program: &Program) -> (r: Result<(), String>)
        ensures
            final(self).layout().symbols == old(self).layout().symbols,
            final(self).layout().origin == old(self).layout().origin,
            match emit_after(
                program@,
                program@.len() as int,
                initial_origin(old(self).layout()),
                old(self).layout().symbols,
            ) {
                Ok(im) => r is Ok && final(self).image() == im && fits(im),
                Err(msg) => r matches Err(e) && e@ == msg,
            },
    {
        self.output = Vec::new();
        self.fixups = Vec::new();
        let start: u16 = match self.origin {
            Some(origin) => origin,
            None => 0,
        };
        self.pc = start;
        pad_to(&mut self.output, start as usize);
        assert(self.image() =~= blank(start)) by {
            assert(self.image().fixups =~= Seq::empty());
        }
        let n = program.statements.len();
        let mut i: usize = 0;
        while i < n
            invariant
                i <= n,
                n == program.statements.len(),
                self.symbols == old(self).symbols,
                self.origin == old(self).origin,
                start == initial_origin(old(self).layout()),
                emit_after(program@, i as int, start, self.symbols@) == Ok::<Image, Seq<char>>(
                    self.image(),
                ),
                fits(self.image()),
            decreases n - i,
        {
            let stmt = &program.statements[i];
            assert(program@[i as int] == stmt@);
            match stmt {
                Statement::Label(_) => {},
                Statement::Directive { name, args } => {
                    match self.emit_directive(name.as_str(), args.as_slice()) {
                        Ok(()) => {},
                        Err(e) => {
                            proof {
                                lemma_emit_error_stays(
                                    program@,
                                    i as int + 1,
                                    n as int,
                                    start,
                                    old(self).symbols@,
                                );
                            }
                            return Err(e);
                        },
                    }
                },
                Statement::Instruction { mnemonic, operands } => {
                    match self.emit_instruction(mnemonic.as_str(), operands.as_slice()) {
                        Ok(()) => {},
                        Err(e) => {
                            proof {
                                lemma_emit_error_stays(
                                    program@,
                                    i as int + 1,
                                    n as int,
                                    start,
                                    old(self).symbols@,
                                );
                            }
                            return Err(e);
                        },
                    }
                },
            }
            i += 1;
        }
        Ok(())
    }

    /// Appends one byte at the running address.
    fn emit_byte(&mut self, b: u8)
        requires
            fits(old(self).image()),
        ensures
            final(self).image() == emit_bytes(old(self).image(), seq![b]),
            fits(final(self).image()),
            final(self).symbols == old(self).symbols,
            final(self).origin == old(self).origin,
    {
        self.output.push(b);
        self.pc = self.pc.wrapping_add(1);
        assert(self.output@ =~= old(self).output@ + seq![b]);
    }

    /// Appends one word at the running address, low byte first.
    fn emit_word(&mut self, w: u16)
        requires
            fits(old(self).image()),
        ensures
            final(self).image() == emit_bytes(old(self).image(), word_bytes(w)),
            fits(final(self).image()),
            final(self).symbols == old(self).symbols,
            final(self).origin == old(self).origin,
    {
        self.output.push((w & 0xFF) as u8);
        self.output.push((w >> 8) as u8);
        self.pc = self.pc.wrapping_add(2);
        assert(self.output@ =~= old(self).output@ + word_bytes(w));
    }

    /// Appends the bytes of a string at the running address.
    fn emit_text(&mut self, s: &str)
        requires
            fits(old(self).image()),
        ensures
            final(self).image() == emit_bytes(old(self).image(), encode_utf8(s@)),
            fits(final(self).image()),
            final(self).symbols == old(self).symbols,
            final(self).origin == old(self).origin,
    {
        let bytes = s.as_bytes();
        let mut i: usize = 0;
        while i < bytes.len()
            invariant
                i <= bytes.len(),
                bytes@ == encode_utf8(s@),
                self.image() == emit_bytes(old(self).image(), bytes@.take(i as int)),
                fits(self.image()),
                self.symbols == old(self).symbols,
                self.origin == old(self).origin,
            decreases bytes.len() - i,
        {
            self.emit_byte(bytes[i]);
            assert(bytes@.take(i + 1) =~= bytes@.take(i as int) + seq![bytes@[i as int]]);
            assert(self.image().output =~= old(self).image().output + bytes@.take(i + 1));
            i += 1;
        }
        assert(bytes@.take(i as int) =~= bytes@);
    }

    /// Records that the bytes at `address` wait for `symbol`.
    fn note(&mut self, address: u16, symbol: String, kind: FixupKind)
        requires
            fits(old(self).image()),
            address + 2 <= old(self).image().output.len(),
        ensures
            final(self).image() == (Image {
                fixups: old(self).image().fixups.push(
                    FixupView { address, symbol: symbol@, kind },
                ),
                ..old(self).image()
            }),
            fits(final(self).image()),
            final(self).symbols == old(self).symbols,
            final(self).origin == old(self).origin,
    {
        self.fixups.push(Fixup { address, symbol, kind });
        assert(self.image().fixups =~= old(self).image().fixups.push(
            FixupView { address, symbol: symbol@, kind },
        ));
    }

    /// Places an encoded instruction at the running address.
    fn emit_encoded(&mut self, e: Encoded)
        requires
            fits(old(self).image()),
        ensures
            final(self).image() == place(old(self).image(), e@),
            fits(final(self).image()),
            final(self).symbols == old(self).symbols,
            final(self).origin == old(self).origin,
    {
        match e {
            Encoded::Short(w) => {
                self.emit_word(w);
            },
            Encoded::Long(w, imm) => {
                self.emit_word(w);
                self.emit_word(imm);
            },
            Encoded::LongSym(w, sym) => {
                self.emit_word(w);
                let address = self.pc;
                self.emit_word(0);
                self.note(address, sym, FixupKind::Absolute16);
            },
            Encoded::ShortSym(w, sym, kind) => {
                let address = self.pc;
                self.emit_word(w);
                self.note(address, sym, kind);
            },
        }
    }

    /// The emission pass on one instruction.
    fn emit_instruction(&mut self, mnemonic: &str, operands: &[Operand]) -> (r: Result<
        (),
        String,
    >)
        requires
            fits(old(self).image()),
        ensures
            final(self).symbols == old(self).symbols,
            final(self).origin == old(self).origin,
            match emit_instruction_spec(
                old(self).image(),
                mnemonic@,
                operand_views(operands@),
                old(self).symbols@,
            ) {
                Ok(im) => r is Ok && final(self).image() == im && fits(im),
                Err(msg) => r matches Err(e) && e@ == msg && final(self).image() == old(
                    self,
                ).image(),
            },
    {
        let upper = to_upper(mnemonic);
        match lookup_mnemonic(upper.as_str()) {
            None => Err(unknown_instruction_message(mnemonic)),
            Some(m) => match encode_instruction(m, mnemonic, operands, &self.symbols) {
                Ok(e) => {
                    self.emit_encoded(e);
                    Ok(())
                },
                Err(msg) => Err(msg),
            },
        }
    }

    /// The emission pass on one directive.
    fn emit_directive(&mut self, name: &str, args: &[DirectiveArg]) -> (r: Result<(), String>)
        requires
            fits(old(self).image()),
        ensures
            final(self).symbols == old(self).symbols,
            final(self).origin == old(self).origin,
            match emit_directive_spec(
                old(self).image(),
                name@,
                arg_views(args@),
                old(self).symbols@,
            ) {
                Ok(im) => r is Ok && final(self).image() == im && fits(im),
                Err(msg) => r matches Err(e) && e@ == msg,
            },
    {
        if str_eq(name, "org") {
            if args.len() > 0 {
                if let DirectiveArg::Number(addr) = &args[0] {
                    self.pc = *addr as u16;
                    pad_to(&mut self.output, self.pc as usize);
                }
            }
            Ok(())
        } else if str_eq(name, "equ") {
            Ok(())
        } else {
            let is_db = str_eq(name, "db");
            let is_dw = str_eq(name, "dw");
            let is_ascii = str_eq(name, "ascii");
            let is_asciz = str_eq(name, "asciz");
            let mut i: usize = 0;
            while i < args.len()
                invariant
                    i <= args.len(),
                    is_db == (name@ == "db"@),
                    is_dw == (name@ == "dw"@),
                    is_ascii == (name@ == "ascii"@),
                    is_asciz == (name@ == "asciz"@),
                    name@ != "org"@,
                    name@ != "equ"@,
                    data_after(
                        old(self).image(),
                        name@,
                        arg_views(args@),
                        i as int,
                        self.symbols@,
                    ) == Ok::<Image, Seq<char>>(self.image()),
                    fits(self.image()),
                    self.symbols == old(self).symbols,
                    self.origin == old(self).origin,
                decreases args.len() - i,
            {
                let arg = &args[i];
                assert(arg_views(args@)[i as int] == arg@);
                let ghost before = self.image();
                assert(data_after(
                    old(self).image(),
                    name@,
                    arg_views(args@),
                    i as int + 1,
                    self.symbols@,
                ) == data_arg(before, name@, arg@, self.symbols@));
                let step = if is_db {
                    self.emit_db_arg(arg)
                } else if is_dw {
                    self.emit_dw_arg(arg)
                } else if is_ascii {
                    self.emit_text_arg(arg, false);
                    Ok(())
                } else if is_asciz {
                    self.emit_text_arg(arg, true);
                    Ok(())
                } else {
                    Ok(())
                };
                match step {
                    Ok(()) => {},
                    Err(e) => {
                        proof {
                            lemma_data_error_stays(
                                old(self).image(),
                                name@,
                                arg_views(args@),
                                i as int + 1,
                                args@.len() as int,
                                self.symbols@,
                            );
                        }
                        return Err(e);
                    },
                }
                i += 1;
            }
            Ok(())
        }
    }

    /// The emission pass on one argument of `.db`.
    fn emit_db_arg(&mut self, arg: &DirectiveArg) -> (r: Result<(), String>)
        requires
            fits(old(self).image()),
        ensures
            final(self).symbols == old(self).symbols,
            final(self).origin == old(self).origin,
            match db_arg(old(self).image(), arg@, old(self).symbols@) {
                Ok(im) => r is Ok && final(self).image() == im && fits(im),
                Err(msg) => r matches Err(e) && e@ == msg,
            },
    {
        match arg {
            DirectiveArg::Number(n) => {
                self.emit_byte(*n as u8);
                Ok(())
            },
            DirectiveArg::String(s) => {
                self.emit_text(s.as_str());
                Ok(())
            },
            DirectiveArg::Ident(sym) => match self.symbols.get(sym) {
                Some(val) => {
                    self.emit_byte(val as u8);
                    Ok(())
                },
                None => Err(undefined_symbol_message(sym)),
            },
        }
    }

    /// The emission pass on one argument of `.dw`.
    fn emit_dw_arg(&mut self, arg: &DirectiveArg) -> (r: Result<(), String>)
        requires
            fits(old(self).image()),
        ensures
            final(self).symbols == old(self).symbols,
            final(self).origin == old(self).origin,
            match dw_arg(old(self).image(), arg@, old(self).symbols@) {
                Ok(im) => r is Ok && final(self).image() == im && fits(im),
                Err(msg) => r matches Err(e) && e@ == msg,
            },
    {
        match arg {
            DirectiveArg::Number(n) => {
                self.emit_word(*n as u16);
                Ok(())
            },
            DirectiveArg::Ident(sym) => match self.symbols.get(sym) {
                Some(val) => {
                    self.emit_word(val);
                    Ok(())
                },
                None => {
                    let address = self.pc;
                    self.emit_word(0);
                    self.note(address, sym.clone(), FixupKind::Absolute16);
                    Ok(())
                },
            },
            DirectiveArg::String(_) => Err(String::from_str("Invalid .dw argument")),
        }
    }

    /// The emission pass on one argument of `.ascii` or `.asciz`.
    fn emit_text_arg(&mut self, arg: &DirectiveArg, terminate: bool)
        requires
            fits(old(self).image()),
        ensures
            final(self).symbols == old(self).symbols,
            final(self).origin == old(self).origin,
            final(self).image() == text_arg(old(self).image(), arg@, terminate),
            fits(final(self).image()),
    {
        if let DirectiveArg::String(s) = arg {
            self.emit_text(s.as_str());
            if terminate {
                self.emit_byte(0);
            }
        }
    }

    /// The patching pass: resolves every recorded reference in place.
    fn apply_fixups(&mut self) -> (r: Result<(), String>)
        requires
            fits(old(self).image()),
        ensures
            final(self).symbols == old(self).symbols,
            final(self).origin == old(self).origin,
            match patch_after(
                old(self).image().output,
                old(self).image().fixups,
                old(self).image().fixups.len() as int,
                old(self).symbols@,
            ) {
                Ok(o) => r is Ok && final(self).image().output == o,
                Err(msg) => r matches Err(e) && e@ == msg,
            },
            final(self).image().fixups == old(self).image().fixups,
            final(self).image().pc == old(self).image().pc,
    {
        let n = self.fixups.len();
        let mut i: usize = 0;
        while i < n
            invariant
                i <= n,
                n == self.fixups.len(),
                self.fixups == old(self).fixups,
                self.symbols == old(self).symbols,
                self.origin == old(self).origin,
                self.pc == old(self).pc,
                self.output.len() == old(self).output.len(),
                fits(old(self).image()),
                patch_after(
                    old(self).image().output,
                    old(self).image().fixups,
                    i as int,
                    self.symbols@,
                ) == Ok::<Seq<u8>, Seq<char>>(self.output@),
            decreases n - i,
        {
            let ghost fv = old(self).image().fixups[i as int];
            assert(fv == self.fixups@[i as int]@);
            assert(fv.address + 2 <= self.output.len());
            let address = self.fixups[i].address;
            let kind = self.fixups[i].kind;
            let addr = address as usize;
            let found = self.symbols.get(&self.fixups[i].symbol);
            let step: Result<(), String> = match found {
                None => Err(undefined_symbol_message(&self.fixups[i].symbol)),
                Some(target) => match kind {
                    FixupKind::Absolute16 => {
                        self.output[addr] = (target & 0xFF) as u8;
                        self.output[addr + 1] = (target >> 8) as u8;
                        Ok(())
                    },
                    FixupKind::Relative8 => {
                        match distance(target, address.wrapping_add(2), 128) {
                            None => {
                                let mut s = String::from_str("Branch to ");
                                s.append(self.fixups[i].symbol.as_str());
                                s.append(" out of range");
                                Err(s)
                            },
                            Some(off) => {
                                self.output[addr] = (off as i8) as u8;
                                Ok(())
                            },
                        }
                    },
                    FixupKind::Relative12 => {
                        match distance(target, address.wrapping_add(2), 2048) {
                            None => {
                                let mut s = String::from_str("Jump to ");
                                s.append(self.fixups[i].symbol.as_str());
                                s.append(" out of range");
                                Err(s)
                            },
                            Some(off) => {
                                let existing = make_word(self.output[addr], self.output[addr + 1]);
                                let w = (existing & 0xF000) | ((off as u16) & 0x0FFF);
                                self.output[addr] = (w & 0xFF) as u8;
                                self.output[addr + 1] = (w >> 8) as u8;
                                Ok(())
                            },
                        }
                    },
                },
            };
            match step {
                Ok(()) => {},
                Err(e) => {
                    proof {
                        lemma_patch_error_stays(
                            old(self).image().output,
                            old(self).image().fixups,
                            i as int + 1,
                            n as int,
                            self.symbols@,
                        );
                    }
                    return Err(e);
                },
            }
            i += 1;
        }
        Ok(())
    }
}

/// The distance in words from `from` to `target`, when it lies within
/// `-limit..limit`.
fn distance(target: u16, from: u16, limit: i32) -> (r: Option<i32>)
    requires
        0 < limit <= 0x8000,
    ensures
        r == if -limit <= words_between(target, from) < limit {
            Some(words_between(target, from) as i32)
        } else {
            None::<i32>
        },
{
    let d: i32 = target as i32 - from as i32;
    let off: i32 = if d >= 0 {
        d / 2
    } else {
        -((-d) / 2)
    };
    if off < -limit || off >= limit {
        None
    } else {
        Some(off)
    }
}

/// Once the emission pass has failed, more statements do not change the
/// error.
proof fn lemma_emit_error_stays(
    stmts: Seq<StatementView>,
    k: int,
    n: int,
    origin: u16,
    symbols: Map<Seq<char>, u16>,
)
    requires
        0 <= k <= n,
        emit_after(stmts, k, origin, symbols) is Err,
    ensures
        emit_after(stmts, n, origin, symbols) == emit_after(stmts, k, origin, symbols),
    decreases n - k,
{
    if k < n {
        lemma_emit_error_stays(stmts, k, n - 1, origin, symbols);
    }
}

/// Once a data directive has failed, more arguments do not change the
/// error.
proof fn lemma_data_error_stays(
    im: Image,
    name: Seq<char>,
    args: Seq<DirectiveArgView>,
    k: int,
    n: int,
    symbols: Map<Seq<char>, u16>,
)
    requires
        0 <= k <= n,
        data_after(im, name, args, k, symbols) is Err,
    ensures
        data_after(im, name, args, n, symbols) == data_after(im, name, args, k, symbols),
    decreases n - k,
{
    if k < n {
        lemma_data_error_stays(im, name, args, k, n - 1, symbols);
    }
}

/// Once the patching pass has failed, more fixups do not change the error.
proof fn lemma_patch_error_stays(
    output: Seq<u8>,
    fixups: Seq<FixupView>,
    k: int,
    n: int,
    symbols: Map<Seq<char>, u16>,
)
    requires
        0 <= k <= n,
        patch_after(output, fixups, k, symbols) is Err,
    ensures
        patch_after(output, fixups, n, symbols) == patch_after(output, fixups, k, symbols),
    decreases n - k,
{
    if k < n {
        lemma_patch_error_stays(output, fixups, k, n - 1, symbols);
    }
}

} // verus!
