//! Laws of the assembler: its two passes agree on every size, a reference
//! to a label gives the bytes that the numeric reference would give, and
//! assembling succeeds exactly when every statement and every reference
//! is in order.

use crate::codegen::{
    FixupView, Image, Layout, advance, arg_size, assemble, blank, data_after, data_arg, data_size,
    distance_byte, emit_after, emit_bytes, emit_step, fits, initial_origin, layout_after,
    layout_step, lemma_advance_sum, pad, patch, patch_after, place, with_distance, words_between,
};
use crate::encode::{
    EncodedView, FixupKind, branch_form, branch_word, encode_spec, encoded_len, half, jump_form,
    jump_word,
};
use crate::isa::{
    Mnemonic, high_byte, is_extended, lemma_word_bytes, low_byte, mnemonic_of, size_of, word_bytes,
    word_of,
};
use crate::parser::{DirectiveArgView, OperandView, StatementView};
use crate::symbols::lookup;
use crate::text::uppercase_of;
use vstd::prelude::*;

verus! {

/// Every instruction that can be encoded takes the number of bytes that
/// the sizing pass reserves for its mnemonic: two for the short forms,
/// four for the extended ones.
#[verifier::rlimit(40)]
pub proof fn law_encoded_size(
    m: Mnemonic,
    text: Seq<char>,
    ops: Seq<OperandView>,
    symbols: Map<Seq<char>, u16>,
)
    ensures
        encode_spec(m, text, ops, symbols) matches Ok(e) ==> encoded_len(e) == size_of(Some(m)),
        encode_spec(m, text, ops, symbols) matches Ok(e) ==> (is_extended(m) <==> encoded_len(e)
            == 4),
{
}

/// Placing an encoded instruction grows the image by its length and moves
/// the running address by as much.
pub proof fn law_place_grows(im: Image, e: EncodedView)
    ensures
        place(im, e).output.len() == im.output.len() + encoded_len(e),
        place(im, e).pc == advance(im.pc, encoded_len(e)),
        place(im, e).output.subrange(0, im.output.len() as int) == im.output,
{
    let w0 = word_bytes(0);
    match e {
        EncodedView::Short(w) => {},
        EncodedView::Long(w, imm) => {},
        EncodedView::LongSym(w, sym) => {},
        EncodedView::ShortSym(w, sym, kind) => {},
    }
    assert(place(im, e).output.subrange(0, im.output.len() as int) =~= im.output);
}

/// A `.dw` of a symbol gives the same two bytes whether the symbol was
/// resolved on the spot or left to a fixup: patching the placeholder with
/// the symbol's value gives the value's own bytes.
pub proof fn law_absolute_reference(output: Seq<u8>, target: u16)
    requires
        output.len() <= 0xFFFF,
    ensures
        patch(
            output + word_bytes(0),
            FixupView {
                address: output.len() as u16,
                symbol: Seq::empty(),
                kind: FixupKind::Absolute16,
            },
            target,
        ) == Ok::<Seq<u8>, Seq<char>>(output + word_bytes(target)),
{
    let a = output.len() as int;
    let patched = (output + word_bytes(0)).update(a, low_byte(target)).update(
        a + 1,
        high_byte(target),
    );
    assert(patched =~= output + word_bytes(target));
}

/// A branch to a label gives the word that the same branch over the
/// numeric distance gives: patching the distance into the instruction
/// that was emitted for the label yields the bytes of the instruction
/// with the immediate operand.
pub proof fn law_branch_reference(cond: u16, off: i32)
    requires
        cond < 16,
        -128 <= off <= 127,
    ensures
        word_bytes(branch_word(cond, off)) == word_bytes((0x8000 | (cond << 8)) as u16).update(
            0,
            distance_byte(off),
        ),
{
    let head: u16 = 0x8000 | (cond << 8);
    let full = branch_word(cond, off);
    assert(full == head | ((off as u8) as u16));
    assert((full & 0xFF) as u8 == (off as i8) as u8 && (full >> 8) as u8 == (head >> 8) as u8)
        by (bit_vector)
        requires
            cond < 16,
            -128 <= off <= 127,
            head == 0x8000u16 | (cond << 8),
            full == head | ((off as u8) as u16),
    ;
    assert(word_bytes(full) =~= word_bytes(head).update(0, distance_byte(off)));
}

/// A jump to a label gives the word that the same jump over the numeric
/// distance gives.
pub proof fn law_jump_reference(off: i32)
    requires
        -2048 <= off <= 2047,
    ensures
        with_distance(0x9000, off) == jump_word(off),
{
    assert((0x9000u16 & 0xF000) | ((off as u16) & 0x0FFF) == 0x9000u16 | ((off as u16) & 0x0FFF))
        by (bit_vector);
}

/// The same, for whole statements: a branch or jump whose operand is the
/// byte distance `d` is encoded as one word, and a branch or jump to a
/// label that lies `d` bytes after the instruction is patched to the same
/// word.
pub proof fn law_relative_reference(cond: u16, d: i32, label: Seq<char>)
    requires
        cond < 16,
    ensures
        -128 <= half(d as int) <= 127 ==> branch_form(cond, seq![OperandView::Immediate(d)])
            == Ok::<EncodedView, Seq<char>>(
            EncodedView::Short(branch_word(cond, half(d as int) as i32)),
        ) && branch_form(cond, seq![OperandView::Label(label)]) == Ok::<EncodedView, Seq<char>>(
            EncodedView::ShortSym((0x8000 | (cond << 8)) as u16, label, FixupKind::Relative8),
        ),
        -2048 <= half(d as int) <= 2047 ==> jump_form(seq![OperandView::Immediate(d)]) == Ok::<
            EncodedView,
            Seq<char>,
        >(EncodedView::Short(jump_word(half(d as int) as i32))) && jump_form(
            seq![OperandView::Label(label)],
        ) == Ok::<EncodedView, Seq<char>>(
            EncodedView::ShortSym(0x9000, label, FixupKind::Relative12),
        ),
{
}

/// Whether a statement moves the running address: an `.org` whose first
/// argument is a number.
pub open spec fn resets_origin(st: StatementView) -> bool {
    st matches StatementView::Directive { name, args } && name == "org"@ && args.len() > 0
        && args[0] is Number
}

/// Bytes that the sizing pass reserves for a statement.
pub open spec fn statement_size(st: StatementView) -> int {
    match st {
        StatementView::Label(_) => 0,
        StatementView::Directive { name, args } => if name == "org"@ || name == "equ"@ {
            0
        } else {
            data_size(name, args, args.len() as int)
        },
        StatementView::Instruction { mnemonic, operands } => size_of(
            mnemonic_of(uppercase_of(mnemonic)),
        ) as int,
    }
}

/// Bytes that the sizing pass reserves for the first `n` statements.
pub open spec fn program_size(stmts: Seq<StatementView>, n: int) -> int
    decreases n,
{
    if n <= 0 {
        0
    } else {
        program_size(stmts, n - 1) + statement_size(stmts[n - 1])
    }
}

/// Whether an argument of the data directive `name` can be emitted: a
/// name in a `.db` must be bound, and a `.dw` takes no string.
pub open spec fn arg_ok(name: Seq<char>, a: DirectiveArgView, symbols: Map<Seq<char>, u16>) -> bool {
    if name == "db"@ {
        a matches DirectiveArgView::Ident(sym) ==> lookup(symbols, sym) is Some
    } else if name == "dw"@ {
        !(a is Text)
    } else {
        true
    }
}

/// Whether a statement can be emitted: its mnemonic is known and its
/// operands conform, or the arguments of its directive are in order.
pub open spec fn statement_ok(st: StatementView, symbols: Map<Seq<char>, u16>) -> bool {
    match st {
        StatementView::Label(_) => true,
        StatementView::Directive { name, args } => name == "org"@ || name == "equ"@ || forall|
            i: int,
        |
            0 <= i < args.len() ==> arg_ok(name, #[trigger] args[i], symbols),
        StatementView::Instruction { mnemonic, operands } => mnemonic_of(uppercase_of(mnemonic))
            matches Some(m) && encode_spec(m, mnemonic, operands, symbols) is Ok,
    }
}

/// Whether a recorded reference can be resolved: its symbol is bound, and
/// a relative distance fits its field.
pub open spec fn fixup_ok(f: FixupView, symbols: Map<Seq<char>, u16>) -> bool {
    lookup(symbols, f.symbol) matches Some(target) && match f.kind {
        FixupKind::Absolute16 => true,
        FixupKind::Relative8 => -128 <= words_between(target, advance(f.address, 2)) <= 127,
        FixupKind::Relative12 => -2048 <= words_between(target, advance(f.address, 2)) <= 2047,
    }
}

/// Appending bytes keeps every recorded reference inside the image.
proof fn lemma_emit_bytes(im: Image, bytes: Seq<u8>)
    requires
        fits(im),
    ensures
        fits(emit_bytes(im, bytes)),
        emit_bytes(im, bytes).output.len() == im.output.len() + bytes.len(),
        emit_bytes(im, bytes).pc == advance(im.pc, bytes.len() as int),
        emit_bytes(im, bytes).fixups == im.fixups,
{
}

/// One argument of a data directive is emitted exactly when it is in
/// order, and then the image grows by the size of the argument.
proof fn lemma_data_arg(
    im: Image,
    name: Seq<char>,
    a: DirectiveArgView,
    symbols: Map<Seq<char>, u16>,
)
    requires
        fits(im),
    ensures
        data_arg(im, name, a, symbols) is Ok <==> arg_ok(name, a, symbols),
        arg_size(name, a) >= 0,
        data_arg(im, name, a, symbols) matches Ok(next) ==> fits(next) && next.output.len()
            == im.output.len() + arg_size(name, a) && next.pc == advance(
            im.pc,
            arg_size(name, a),
        ),
{
    if data_arg(im, name, a, symbols) is Ok {
        let next = data_arg(im, name, a, symbols)->Ok_0;
        if name == "db"@ {
            match a {
                DirectiveArgView::Number(n) => lemma_emit_bytes(im, seq![n as u8]),
                DirectiveArgView::Text(s) => lemma_emit_bytes(im, vstd::utf8::encode_utf8(s)),
                DirectiveArgView::Ident(sym) => lemma_emit_bytes(
                    im,
                    seq![lookup(symbols, sym)->Some_0 as u8],
                ),
            }
        } else if name == "dw"@ {
            match a {
                DirectiveArgView::Number(n) => lemma_emit_bytes(im, word_bytes(n as u16)),
                DirectiveArgView::Ident(sym) => {
                    if lookup(symbols, sym) is Some {
                        lemma_emit_bytes(im, word_bytes(lookup(symbols, sym)->Some_0));
                    } else {
                        let noted = Image {
                            fixups: im.fixups.push(
                                FixupView {
                                    address: im.pc,
                                    symbol: sym,
                                    kind: FixupKind::Absolute16,
                                },
                            ),
                            ..im
                        };
                        assert(fits(emit_bytes(noted, word_bytes(0))));
                    }
                },
                DirectiveArgView::Text(_) => {},
            }
        } else if name == "ascii"@ || name == "asciz"@ {
            match a {
                DirectiveArgView::Text(s) => {
                    let body = emit_bytes(im, vstd::utf8::encode_utf8(s));
                    lemma_emit_bytes(im, vstd::utf8::encode_utf8(s));
                    lemma_emit_bytes(body, seq![0u8]);
                    lemma_advance_sum(im.pc, vstd::utf8::encode_utf8(s).len() as int, 1);
                },
                _ => {},
            }
        }
    }
}

/// The arguments of a data directive are emitted exactly when each is in
/// order, and then the image grows by their size.
proof fn lemma_data_after(
    im: Image,
    name: Seq<char>,
    args: Seq<DirectiveArgView>,
    n: int,
    symbols: Map<Seq<char>, u16>,
)
    requires
        fits(im),
        0 <= n <= args.len(),
    ensures
        data_after(im, name, args, n, symbols) is Ok <==> (forall|i: int|
            0 <= i < n ==> arg_ok(name, #[trigger] args[i], symbols)),
        data_size(name, args, n) >= 0,
        data_after(im, name, args, n, symbols) matches Ok(next) ==> fits(next)
            && next.output.len() == im.output.len() + data_size(name, args, n) && next.pc
            == advance(im.pc, data_size(name, args, n)),
    decreases n,
{
    if n > 0 {
        lemma_data_after(im, name, args, n - 1, symbols);
        match data_after(im, name, args, n - 1, symbols) {
            Ok(mid) => {
                lemma_data_arg(mid, name, args[n - 1], symbols);
                lemma_advance_sum(
                    im.pc,
                    data_size(name, args, n - 1),
                    arg_size(name, args[n - 1]),
                );
            },
            Err(_) => {},
        }
    }
}

/// A statement is emitted exactly when it is in order, whatever the image
/// so far; the image then keeps its references inside, and grows by the
/// size that the sizing pass reserves unless the statement moves the
/// running address.
#[verifier::rlimit(40)]
pub proof fn law_statement_emits(im: Image, st: StatementView, symbols: Map<Seq<char>, u16>)
    requires
        fits(im),
    ensures
        emit_step(im, st, symbols) is Ok <==> statement_ok(st, symbols),
        statement_size(st) >= 0,
        emit_step(im, st, symbols) matches Ok(next) ==> fits(next) && (!resets_origin(st)
            ==> next.output.len() == im.output.len() + statement_size(st) && next.pc == advance(
            im.pc,
            statement_size(st),
        )),
{
    match st {
        StatementView::Label(_) => {},
        StatementView::Directive { name, args } => {
            if name == "org"@ {
            } else if name == "equ"@ {
            } else {
                lemma_data_after(im, name, args, args.len() as int, symbols);
            }
        },
        StatementView::Instruction { mnemonic, operands } => {
            match mnemonic_of(uppercase_of(mnemonic)) {
                None => {},
                Some(m) => {
                    law_encoded_size(m, mnemonic, operands, symbols);
                    match encode_spec(m, mnemonic, operands, symbols) {
                        Ok(e) => {
                            law_place_grows(im, e);
                            lemma_place_fits(im, e);
                        },
                        Err(_) => {},
                    }
                },
            }
        },
    }
}

/// Placing an instruction keeps every recorded reference inside the image.
proof fn lemma_place_fits(im: Image, e: EncodedView)
    requires
        fits(im),
    ensures
        fits(place(im, e)),
{
    match e {
        EncodedView::Short(w) => {},
        EncodedView::Long(w, imm) => {},
        EncodedView::LongSym(w, sym) => {
            let head = emit_bytes(im, word_bytes(w));
            lemma_emit_bytes(im, word_bytes(w));
        },
        EncodedView::ShortSym(w, sym, kind) => {},
    }
}

/// The sizing pass moves the running address by the size of a statement
/// that does not set it, and only the first `.org` sets the initial
/// origin.
pub proof fn law_statement_sizes(l: Layout, st: StatementView)
    ensures
        !resets_origin(st) ==> layout_step(l, st).pc == advance(l.pc, statement_size(st))
            && layout_step(l, st).origin == l.origin,
        resets_origin(st) ==> layout_step(l, st).pc == org_target(st),
        resets_origin(st) && l.origin is None ==> layout_step(l, st).origin == Some(
            org_target(st),
        ),
        l.origin is Some ==> layout_step(l, st).origin == l.origin,
{
}

/// The emission pass succeeds on the first `n` statements exactly when
/// each of them is in order, and the image it gives keeps its references
/// inside.
pub proof fn law_emission_succeeds(
    stmts: Seq<StatementView>,
    n: int,
    origin: u16,
    symbols: Map<Seq<char>, u16>,
)
    requires
        0 <= n <= stmts.len(),
    ensures
        emit_after(stmts, n, origin, symbols) is Ok <==> (forall|k: int|
            0 <= k < n ==> statement_ok(#[trigger] stmts[k], symbols)),
        emit_after(stmts, n, origin, symbols) matches Ok(im) ==> fits(im),
    decreases n,
{
    if n > 0 {
        law_emission_succeeds(stmts, n - 1, origin, symbols);
        match emit_after(stmts, n - 1, origin, symbols) {
            Ok(im) => law_statement_emits(im, stmts[n - 1], symbols),
            Err(_) => {},
        }
    } else {
        assert(fits(blank(origin)));
    }
}

/// Patching a branch whose distance fits changes one byte of the image,
/// the low byte of the branch, to the distance in words as a signed byte.
/// The byte depends on the target and on the address of the branch alone,
/// so it is the same whether the label stands before or after the branch.
pub proof fn law_branch_patch(output: Seq<u8>, f: FixupView, target: u16)
    requires
        f.kind == FixupKind::Relative8,
        f.address + 2 <= output.len(),
        -128 <= words_between(target, advance(f.address, 2)) <= 127,
    ensures
        patch(output, f, target) matches Ok(o) && o.len() == output.len() && o[f.address as int]
            == distance_byte(words_between(target, advance(f.address, 2)) as i32) && (forall|
            i: int,
        |
            0 <= i < output.len() && i != f.address ==> #[trigger] o[i] == output[i]),
{
}

/// Patching a jump whose distance fits changes the two bytes of the jump
/// and no other: its word keeps the high nibble that was written and
/// takes the distance in words in its low twelve bits.
pub proof fn law_jump_patch(output: Seq<u8>, f: FixupView, target: u16)
    requires
        f.kind == FixupKind::Relative12,
        f.address + 2 <= output.len(),
        -2048 <= words_between(target, advance(f.address, 2)) <= 2047,
    ensures
        patch(output, f, target) matches Ok(o) && o.len() == output.len() && word_of(
            o[f.address as int],
            o[f.address + 1],
        ) == with_distance(
            word_of(output[f.address as int], output[f.address + 1]),
            words_between(target, advance(f.address, 2)) as i32,
        ) && (forall|i: int|
            0 <= i < output.len() && i != f.address && i != f.address + 1 ==> #[trigger] o[i]
                == output[i]),
{
    let a = f.address as int;
    let w = with_distance(
        word_of(output[a], output[a + 1]),
        words_between(target, advance(f.address, 2)) as i32,
    );
    lemma_word_bytes(w, 0, 0);
}

/// One fixup is applied exactly when its distance fits, and the image
/// keeps its length.
proof fn lemma_patch(output: Seq<u8>, f: FixupView, target: u16, symbols: Map<Seq<char>, u16>)
    requires
        f.address + 2 <= output.len(),
        lookup(symbols, f.symbol) == Some(target),
    ensures
        patch(output, f, target) is Ok <==> fixup_ok(f, symbols),
        patch(output, f, target) matches Ok(o) ==> o.len() == output.len(),
{
}

/// The patching pass succeeds on the first `n` fixups exactly when each of
/// them can be resolved, and it keeps the length of the image.
pub proof fn law_patching_succeeds(
    output: Seq<u8>,
    fixups: Seq<FixupView>,
    n: int,
    symbols: Map<Seq<char>, u16>,
)
    requires
        0 <= n <= fixups.len(),
        forall|i: int| 0 <= i < fixups.len() ==> (#[trigger] fixups[i]).address + 2 <= output.len(),
    ensures
        patch_after(output, fixups, n, symbols) is Ok <==> (forall|k: int|
            0 <= k < n ==> fixup_ok(#[trigger] fixups[k], symbols)),
        patch_after(output, fixups, n, symbols) matches Ok(o) ==> o.len() == output.len(),
    decreases n,
{
    if n > 0 {
        law_patching_succeeds(output, fixups, n - 1, symbols);
        match patch_after(output, fixups, n - 1, symbols) {
            Ok(o) => {
                match lookup(symbols, fixups[n - 1].symbol) {
                    Some(target) => lemma_patch(o, fixups[n - 1], target, symbols),
                    None => {},
                }
            },
            Err(_) => {},
        }
    }
}

/// Whether every reference that the emission pass records for a program
/// can be resolved.
pub open spec fn references_resolve(stmts: Seq<StatementView>) -> bool {
    let l = layout_after(stmts, stmts.len() as int);
    match emit_after(stmts, stmts.len() as int, initial_origin(l), l.symbols) {
        Ok(im) => forall|k: int|
            0 <= k < im.fixups.len() ==> fixup_ok(#[trigger] im.fixups[k], l.symbols),
        Err(_) => true,
    }
}

/// Assembling succeeds exactly when every statement is in order, given
/// the symbols that the whole program binds, and every reference can be
/// resolved: no symbol is undefined and every relative distance fits.
pub proof fn law_assemble_succeeds(stmts: Seq<StatementView>)
    ensures
        assemble(stmts) is Ok <==> (forall|k: int|
            0 <= k < stmts.len() ==> statement_ok(
                #[trigger] stmts[k],
                layout_after(stmts, stmts.len() as int).symbols,
            )) && references_resolve(stmts),
{
    let l = layout_after(stmts, stmts.len() as int);
    law_emission_succeeds(stmts, stmts.len() as int, initial_origin(l), l.symbols);
    match emit_after(stmts, stmts.len() as int, initial_origin(l), l.symbols) {
        Ok(im) => law_patching_succeeds(im.output, im.fixups, im.fixups.len() as int, l.symbols),
        Err(_) => {},
    }
}

/// Whether no statement but the first moves the running address.
pub open spec fn single_origin(stmts: Seq<StatementView>) -> bool {
    forall|k: int| 1 <= k < stmts.len() ==> !resets_origin(#[trigger] stmts[k])
}

/// The origin that the sizing pass finds in a program whose first
/// statement alone may set it.
pub open spec fn leading_origin(stmts: Seq<StatementView>) -> u16 {
    if stmts.len() > 0 && resets_origin(stmts[0]) {
        org_target(stmts[0])
    } else {
        0
    }
}

/// In a program whose first statement alone may set the origin, the
/// sizing pass finds that origin, and from the first statement on it
/// stands at the origin plus the sizes of the statements so far.
proof fn lemma_single_origin_layout(stmts: Seq<StatementView>, n: int)
    requires
        single_origin(stmts),
        0 <= n <= stmts.len(),
    ensures
        n >= 1 ==> initial_origin(layout_after(stmts, n)) == leading_origin(stmts),
        layout_after(stmts, 0).origin is None,
        n >= 1 || leading_origin(stmts) == 0 ==> layout_after(stmts, n).pc == advance(
            leading_origin(stmts),
            program_size(stmts, n),
        ),
        program_size(stmts, n) >= 0,
    decreases n,
{
    if n > 0 {
        lemma_single_origin_layout(stmts, n - 1);
        let st = stmts[n - 1];
        lemma_statement_size_nonnegative(st);
        if n == 1 {
            if resets_origin(st) {
            } else {
                law_statement_sizes(layout_after(stmts, 0), st);
            }
        } else {
            law_statement_sizes(layout_after(stmts, n - 1), st);
            lemma_advance_sum(
                leading_origin(stmts),
                program_size(stmts, n - 1),
                statement_size(st),
            );
        }
    }
}

/// No statement has a negative size.
proof fn lemma_statement_size_nonnegative(st: StatementView)
    ensures
        statement_size(st) >= 0,
{
    match st {
        StatementView::Directive { name, args } => {
            lemma_data_size_nonnegative(name, args, args.len() as int);
        },
        _ => {},
    }
}

/// No data has a negative size.
proof fn lemma_data_size_nonnegative(name: Seq<char>, args: Seq<DirectiveArgView>, n: int)
    ensures
        data_size(name, args, n) >= 0,
    decreases n,
{
    if n > 0 {
        lemma_data_size_nonnegative(name, args, n - 1);
    }
}

/// In a program whose first statement alone may set the origin, the
/// emission pass stands where the sizing pass stood, and the image holds
/// the origin's padding and the bytes of the statements so far.
proof fn lemma_single_origin_emission(stmts: Seq<StatementView>, n: int, symbols: Map<Seq<char>, u16>)
    requires
        single_origin(stmts),
        0 <= n <= stmts.len(),
    ensures
        emit_after(stmts, n, leading_origin(stmts), symbols) matches Ok(im) ==> fits(im)
            && im.output.len() == leading_origin(stmts) + program_size(stmts, n) && im.pc
            == advance(leading_origin(stmts), program_size(stmts, n)),
    decreases n,
{
    let origin = leading_origin(stmts);
    if n > 0 {
        lemma_single_origin_emission(stmts, n - 1, symbols);
        lemma_single_origin_layout(stmts, n - 1);
        match emit_after(stmts, n - 1, origin, symbols) {
            Ok(im) => {
                let st = stmts[n - 1];
                law_statement_emits(im, st, symbols);
                if resets_origin(st) {
                    assert(n == 1);
                    assert(pad(im.output, origin as int) =~= im.output);
                } else {
                    lemma_advance_sum(origin, program_size(stmts, n - 1), statement_size(st));
                }
            },
            Err(_) => {},
        }
    } else {
        assert(fits(blank(origin)));
    }
}

/// The two passes agree, and the image has the length that the sizes add
/// up to.
///
/// Take a program in which no statement but the first sets the origin.
/// Then the symbols are bound to the addresses at which the emission pass
/// stands when it reaches them: after every statement the two passes have
/// the same running address. And if the program assembles, its image
/// holds the origin's zero padding followed by exactly the bytes that the
/// sizing pass reserved.
pub proof fn law_image_length(stmts: Seq<StatementView>, n: int)
    requires
        single_origin(stmts),
        1 <= n <= stmts.len(),
    ensures
        initial_origin(layout_after(stmts, stmts.len() as int)) == leading_origin(stmts),
        emit_after(
            stmts,
            n,
            leading_origin(stmts),
            layout_after(stmts, stmts.len() as int).symbols,
        ) matches Ok(im) ==> im.pc == layout_after(stmts, n).pc,
        assemble(stmts) matches Ok(bytes) ==> bytes.len() == leading_origin(stmts) + program_size(
            stmts,
            stmts.len() as int,
        ),
{
    let l = layout_after(stmts, stmts.len() as int);
    lemma_single_origin_layout(stmts, stmts.len() as int);
    lemma_single_origin_layout(stmts, n);
    lemma_single_origin_emission(stmts, n, l.symbols);
    lemma_single_origin_emission(stmts, stmts.len() as int, l.symbols);
    match emit_after(stmts, stmts.len() as int, initial_origin(l), l.symbols) {
        Ok(im) => law_patching_succeeds(im.output, im.fixups, im.fixups.len() as int, l.symbols),
        Err(_) => {},
    }
}

/// The address that an `.org` sets.
pub open spec fn org_target(st: StatementView) -> u16 {
    st->Directive_args[0]->Number_0 as u16
}

/// The address after the first `n` statements, reckoned without
/// wrapping: an `.org` sets it, and every other statement adds its size.
pub open spec fn address_after(stmts: Seq<StatementView>, n: int) -> int
    decreases n,
{
    if n <= 0 {
        0
    } else if resets_origin(stmts[n - 1]) {
        org_target(stmts[n - 1]) as int
    } else {
        address_after(stmts, n - 1) + statement_size(stmts[n - 1])
    }
}

/// Whether a program is laid out forward: no address lies beyond the
/// address space, no `.org` goes back behind the address that has been
/// reached, and nothing takes room before the first `.org`.
pub open spec fn laid_out_forward(stmts: Seq<StatementView>) -> bool {
    &&& forall|n: int| 0 <= n <= stmts.len() ==> #[trigger] address_after(stmts, n) <= 0xFFFF
    &&& forall|k: int|
        0 <= k < stmts.len() && resets_origin(#[trigger] stmts[k]) ==> address_after(stmts, k)
            <= org_target(stmts[k]) && (layout_after(stmts, k).origin is None ==> address_after(
            stmts,
            k,
        ) == 0)
}

/// No address is negative.
proof fn lemma_address_nonnegative(stmts: Seq<StatementView>, n: int)
    ensures
        address_after(stmts, n) >= 0,
    decreases n,
{
    if n > 0 {
        lemma_address_nonnegative(stmts, n - 1);
        lemma_statement_size_nonnegative(stmts[n - 1]);
    }
}

/// Once an `.org` has set the initial origin, it stays.
proof fn lemma_origin_stays(stmts: Seq<StatementView>, n: int, m: int)
    requires
        0 <= n <= m,
        layout_after(stmts, n).origin is Some,
    ensures
        layout_after(stmts, m).origin == layout_after(stmts, n).origin,
    decreases m - n,
{
    if n < m {
        lemma_origin_stays(stmts, n, m - 1);
        law_statement_sizes(layout_after(stmts, m - 1), stmts[m - 1]);
    }
}

/// In a program that is laid out forward, the address is still 0 as long
/// as an `.org` is yet to come and none has been seen.
proof fn lemma_before_first_origin(stmts: Seq<StatementView>, n: int)
    requires
        laid_out_forward(stmts),
        0 <= n <= stmts.len(),
        layout_after(stmts, n).origin is None,
        layout_after(stmts, stmts.len() as int).origin is Some,
    ensures
        address_after(stmts, n) == 0,
    decreases stmts.len() - n,
{
    if n < stmts.len() {
        let st = stmts[n];
        if resets_origin(st) {
        } else {
            law_statement_sizes(layout_after(stmts, n), st);
            lemma_before_first_origin(stmts, n + 1);
            lemma_address_nonnegative(stmts, n);
            lemma_statement_size_nonnegative(st);
        }
    }
}

/// In a program that is laid out forward, the sizing pass stands at the
/// unwrapped address after every statement.
proof fn lemma_forward_layout(stmts: Seq<StatementView>, n: int)
    requires
        laid_out_forward(stmts),
        0 <= n <= stmts.len(),
    ensures
        layout_after(stmts, n).pc == address_after(stmts, n),
    decreases n,
{
    if n > 0 {
        lemma_forward_layout(stmts, n - 1);
        lemma_address_nonnegative(stmts, n - 1);
        lemma_statement_size_nonnegative(stmts[n - 1]);
        assert(address_after(stmts, n) <= 0xFFFF);
        law_statement_sizes(layout_after(stmts, n - 1), stmts[n - 1]);
    }
}

/// What one statement does to an image whose end is at the running
/// address: an `.org` moves both to its address if that lies ahead, and
/// every other statement moves both by its size.
proof fn lemma_emit_moves(im: Image, st: StatementView, symbols: Map<Seq<char>, u16>)
    requires
        fits(im),
        im.output.len() == im.pc,
    ensures
        emit_step(im, st, symbols) matches Ok(next) ==> {
            &&& fits(next)
            &&& resets_origin(st) ==> next.pc == org_target(st) && (im.pc <= org_target(st)
                ==> next.output.len() == org_target(st))
            &&& !resets_origin(st) ==> next.output.len() == im.pc + statement_size(st)
                && next.pc == advance(im.pc, statement_size(st))
        },
{
    law_statement_emits(im, st, symbols);
    if resets_origin(st) {
        assert(pad(im.output, org_target(st) as int).len() == if im.pc <= org_target(st) {
            org_target(st) as int
        } else {
            im.pc as int
        });
    }
}

/// An address that stays inside the address space does not wrap.
proof fn lemma_advance_inside(pc: u16, n: int)
    requires
        0 <= n,
        pc + n <= 0xFFFF,
    ensures
        advance(pc, n) == pc + n,
{
}

/// The running address of the emission pass, in a program that is laid
/// out forward: the unwrapped address once an `.org` has been seen, and
/// before that the start of the image, where nothing has been emitted yet
/// or no `.org` comes at all.
spec fn forward_address(stmts: Seq<StatementView>, n: int) -> int {
    if layout_after(stmts, n).origin is Some {
        address_after(stmts, n)
    } else {
        initial_origin(layout_after(stmts, stmts.len() as int)) + address_after(stmts, n)
    }
}

/// In a program that is laid out forward, the emission pass never stands
/// beyond the address space.
proof fn lemma_forward_address(stmts: Seq<StatementView>, n: int)
    requires
        laid_out_forward(stmts),
        0 <= n <= stmts.len(),
    ensures
        0 <= forward_address(stmts, n) <= 0xFFFF,
        layout_after(stmts, n).origin is Some ==> layout_after(stmts, stmts.len() as int).origin
            == layout_after(stmts, n).origin,
        layout_after(stmts, n).origin is None && layout_after(stmts, stmts.len() as int).origin
            is Some ==> address_after(stmts, n) == 0,
{
    lemma_address_nonnegative(stmts, n);
    assert(address_after(stmts, n) <= 0xFFFF);
    if layout_after(stmts, n).origin is Some {
        lemma_origin_stays(stmts, n, stmts.len() as int);
    } else if layout_after(stmts, stmts.len() as int).origin is Some {
        lemma_before_first_origin(stmts, n);
    }
}

/// One statement moves the running address of the emission pass from one
/// forward address to the next.
proof fn lemma_forward_step(stmts: Seq<StatementView>, n: int)
    requires
        laid_out_forward(stmts),
        0 < n <= stmts.len(),
    ensures
        resets_origin(stmts[n - 1]) ==> forward_address(stmts, n - 1) <= org_target(stmts[n - 1])
            && forward_address(stmts, n) == org_target(stmts[n - 1]),
        !resets_origin(stmts[n - 1]) ==> forward_address(stmts, n) == forward_address(
            stmts,
            n - 1,
        ) + statement_size(stmts[n - 1]),
        statement_size(stmts[n - 1]) >= 0,
{
    let st = stmts[n - 1];
    lemma_forward_address(stmts, n - 1);
    lemma_forward_address(stmts, n);
    lemma_statement_size_nonnegative(st);
    law_statement_sizes(layout_after(stmts, n - 1), st);
    assert(layout_after(stmts, n) == layout_step(layout_after(stmts, n - 1), st));
    if resets_origin(st) {
        assert(address_after(stmts, n) == org_target(st));
        assert(layout_after(stmts, n).origin is Some);
    } else {
        assert(address_after(stmts, n) == address_after(stmts, n - 1) + statement_size(st));
    }
}

/// In a program that is laid out forward, the emission pass keeps the end
/// of the image at its running address.
proof fn lemma_forward_emission(stmts: Seq<StatementView>, n: int)
    requires
        laid_out_forward(stmts),
        0 <= n <= stmts.len(),
    ensures
        ({
            let last = layout_after(stmts, stmts.len() as int);
            emit_after(stmts, n, initial_origin(last), last.symbols) matches Ok(im) ==> fits(im)
                && im.output.len() == im.pc && im.pc == forward_address(stmts, n)
        }),
    decreases n,
{
    let last = layout_after(stmts, stmts.len() as int);
    let start = initial_origin(last);
    lemma_forward_address(stmts, n);
    if n > 0 {
        let st = stmts[n - 1];
        lemma_forward_emission(stmts, n - 1);
        lemma_forward_step(stmts, n);
        match emit_after(stmts, n - 1, start, last.symbols) {
            Ok(im) => {
                lemma_emit_moves(im, st, last.symbols);
                if !resets_origin(st) {
                    lemma_advance_inside(im.pc, statement_size(st));
                }
            },
            Err(_) => {},
        }
    } else {
        assert(blank(start).output.len() == start);
        assert(address_after(stmts, 0) == 0);
        assert(layout_after(stmts, 0).origin is None);
    }
}

/// The image of a program that is laid out forward is indexed by address.
///
/// After every statement the sizing pass stands at the unwrapped address,
/// so every label is bound to it; the emission pass keeps the end of the
/// image at its running address, which from the first `.org` on is that
/// same address; and if the program assembles, the length of its image is
/// the address after its last statement.
pub proof fn law_image_is_indexed_by_address(stmts: Seq<StatementView>, n: int)
    requires
        laid_out_forward(stmts),
        0 <= n <= stmts.len(),
    ensures
        layout_after(stmts, n).pc == address_after(stmts, n),
        ({
            let last = layout_after(stmts, stmts.len() as int);
            emit_after(stmts, n, initial_origin(last), last.symbols) matches Ok(im) ==> {
                &&& im.output.len() == im.pc
                &&& layout_after(stmts, n).origin is Some || last.origin is None ==> im.pc
                    == layout_after(stmts, n).pc
            }
        }),
        assemble(stmts) matches Ok(bytes) ==> bytes.len() == address_after(
            stmts,
            stmts.len() as int,
        ),
{
    let last = layout_after(stmts, stmts.len() as int);
    lemma_forward_layout(stmts, n);
    lemma_forward_layout(stmts, stmts.len() as int);
    lemma_forward_emission(stmts, n);
    lemma_forward_emission(stmts, stmts.len() as int);
    lemma_forward_address(stmts, n);
    lemma_forward_address(stmts, stmts.len() as int);
    match emit_after(stmts, stmts.len() as int, initial_origin(last), last.symbols) {
        Ok(im) => law_patching_succeeds(
            im.output,
            im.fixups,
            im.fixups.len() as int,
            last.symbols,
        ),
        Err(_) => {},
    }
}

} // verus!
