//! Laws of the source text: what the lexer reads depends only on the text
//! that lies ahead, a text that is spelled token by token is read as those
//! tokens, and the text that the disassembler writes for an instruction is
//! read back as that instruction.

use crate::lexer::{
    Lexed, NumberError, StringEnd, TokenView, blank_end, comment_end, digit_value, digits_from,
    digits_value, ident_from, parse_number,
    is_digit, is_hex_digit, is_ident_char, lemma_blank_end, lemma_digits_from, lemma_ident_from,
    lemma_line_end, lemma_string_from, lemma_token_advances, line_end, next_token_spec,
    number_at, number_base, register_of, string_from, token_at, token_start, tokens_from,
    tokens_of, unescape,
};
use crate::disasm::{
    displaced_first_text, displaced_text, hex_text, instruction_text, is_register_jump, reg_text,
    reg_then_text, word_then_text,
};
use crate::encode::{EncodedView, encode_spec, jump_word};
use crate::isa::{Mnemonic, mnemonic_name, mnemonic_of};
use crate::isa_laws::{
    branch_condition, law_branch_forms_round_trip, law_displaced_forms_round_trip,
    law_jump_form_round_trip, law_lui_form_round_trip, law_mnemonic_names,
    law_mnemonics_are_names, law_number_forms_round_trip, law_register_forms_round_trip,
    law_register_names, lemma_register_spelling, register_form,
};
use crate::parser::{
    OperandView, StatementView, newlines_end, operands_from, program_of, statements_from,
};
use crate::text::{
    dec_digits, dec_text, digit_char, hex_digits, is_alphabetic_char, is_ascii_char, is_ascii_letter,
    uppercase_of,
};
use vstd::prelude::*;

verus! {

/// The text from `pos` on.
pub open spec fn ahead(s: Seq<char>, pos: int) -> Seq<char> {
    s.subrange(pos, s.len() as int)
}

/// A result of the lexer with its position moved by `by`.
pub open spec fn moved(r: Result<Lexed, Seq<char>>, by: int) -> Result<Lexed, Seq<char>> {
    match r {
        Ok(l) => Ok(Lexed { pos: l.pos + by, ..l }),
        Err(e) => Err(e),
    }
}

proof fn lemma_blank_end_ahead(s: Seq<char>, pos: int, p: int)
    requires
        0 <= pos <= p <= s.len(),
    ensures
        blank_end(s, p) == pos + blank_end(ahead(s, pos), p - pos),
    decreases s.len() - p,
{
    let t = ahead(s, pos);
    if p < s.len() {
        assert(t[p - pos] == s[p]);
        if s[p] == ' ' || s[p] == '\t' {
            lemma_blank_end_ahead(s, pos, p + 1);
        }
    }
}

proof fn lemma_line_end_ahead(s: Seq<char>, pos: int, p: int)
    requires
        0 <= pos <= p <= s.len(),
    ensures
        line_end(s, p) == pos + line_end(ahead(s, pos), p - pos),
    decreases s.len() - p,
{
    let t = ahead(s, pos);
    if p < s.len() {
        assert(t[p - pos] == s[p]);
        if s[p] != '\n' && s[p] != '\r' {
            lemma_line_end_ahead(s, pos, p + 1);
        }
    }
}

proof fn lemma_token_start_ahead(s: Seq<char>, pos: int, p: int)
    requires
        0 <= pos <= p <= s.len(),
    ensures
        token_start(s, p) == pos + token_start(ahead(s, pos), p - pos),
        p <= token_start(s, p) <= s.len(),
{
    let t = ahead(s, pos);
    lemma_blank_end_ahead(s, pos, p);
    lemma_blank_end(s, p);
    let a = blank_end(s, p);
    if a < s.len() {
        assert(t[a - pos] == s[a]);
        if s[a] == ';' {
            lemma_line_end_ahead(s, pos, a);
            lemma_line_end(s, a);
        }
    }
    let b = comment_end(s, a);
    lemma_blank_end_ahead(s, pos, b);
    lemma_blank_end(s, b);
}

proof fn lemma_ident_from_ahead(s: Seq<char>, pos: int, p: int, acc: Seq<char>)
    requires
        0 <= pos <= p <= s.len(),
    ensures
        ident_from(s, p, acc).0 == ident_from(ahead(s, pos), p - pos, acc).0,
        ident_from(s, p, acc).1 == pos + ident_from(ahead(s, pos), p - pos, acc).1,
    decreases s.len() - p,
{
    let t = ahead(s, pos);
    if p < s.len() {
        assert(t[p - pos] == s[p]);
        if is_ident_char(s[p]) {
            lemma_ident_from_ahead(s, pos, p + 1, acc.push(s[p]));
        }
    }
}

proof fn lemma_digits_from_ahead(s: Seq<char>, pos: int, p: int, acc: Seq<char>)
    requires
        0 <= pos <= p <= s.len(),
    ensures
        digits_from(s, p, acc).0 == digits_from(ahead(s, pos), p - pos, acc).0,
        digits_from(s, p, acc).1 == pos + digits_from(ahead(s, pos), p - pos, acc).1,
    decreases s.len() - p,
{
    let t = ahead(s, pos);
    if p < s.len() {
        assert(t[p - pos] == s[p]);
        if is_hex_digit(s[p]) || s[p] == '_' {
            lemma_digits_from_ahead(
                s,
                pos,
                p + 1,
                if s[p] == '_' {
                    acc
                } else {
                    acc.push(s[p])
                },
            );
        }
    }
}

proof fn lemma_number_at_ahead(s: Seq<char>, pos: int, p: int)
    requires
        0 <= pos <= p <= s.len(),
    ensures
        number_at(s, p).0 == number_at(ahead(s, pos), p - pos).0,
        number_at(s, p).1 == pos + number_at(ahead(s, pos), p - pos).1,
{
    let t = ahead(s, pos);
    if p < s.len() {
        assert(t[p - pos] == s[p]);
    }
    if p + 1 < s.len() {
        assert(t[p + 1 - pos] == s[p + 1]);
    }
    let start = number_base(s, p).1;
    assert(number_base(t, p - pos).0 == number_base(s, p).0);
    assert(number_base(t, p - pos).1 == start - pos);
    lemma_digits_from_ahead(s, pos, start, Seq::empty());
}

proof fn lemma_string_from_ahead(s: Seq<char>, pos: int, p: int, acc: Seq<char>)
    requires
        0 <= pos <= p <= s.len(),
    ensures
        match string_from(s, p, acc) {
            StringEnd::Closed(text, end) => string_from(ahead(s, pos), p - pos, acc)
                == StringEnd::Closed(text, end - pos),
            other => string_from(ahead(s, pos), p - pos, acc) == other,
        },
    decreases s.len() - p,
{
    let t = ahead(s, pos);
    if p < s.len() {
        assert(t[p - pos] == s[p]);
        if s[p] == '"' {
        } else if s[p] == '\\' {
            if p + 1 < s.len() {
                assert(t[p + 1 - pos] == s[p + 1]);
                lemma_string_from_ahead(s, pos, p + 2, acc.push(unescape(s[p + 1])));
            }
        } else {
            lemma_string_from_ahead(s, pos, p + 1, acc.push(s[p]));
        }
    }
}

proof fn lemma_token_at_ahead(s: Seq<char>, pos: int, p: int, line: usize)
    requires
        0 <= pos <= p <= s.len(),
    ensures
        token_at(s, p, line) == moved(token_at(ahead(s, pos), p - pos, line), pos),
{
    let t = ahead(s, pos);
    if p < s.len() {
        assert(t[p - pos] == s[p]);
        if p + 1 < s.len() {
            assert(t[p + 1 - pos] == s[p + 1]);
        }
        if p + 2 < s.len() {
            assert(t[p + 2 - pos] == s[p + 2]);
        }
        if s[p] == '-' {
            if p + 1 < s.len() && is_digit(s[p + 1]) {
                lemma_number_at_ahead(s, pos, p + 1);
            }
        } else if s[p] == '.' {
            lemma_ident_from_ahead(s, pos, p + 1, Seq::empty());
        } else if s[p] == '"' {
            lemma_string_from_ahead(s, pos, p + 1, Seq::empty());
        } else if is_digit(s[p]) {
            lemma_number_at_ahead(s, pos, p);
        } else if is_alphabetic_char(s[p]) || s[p] == '_' {
            lemma_ident_from_ahead(s, pos, p, Seq::empty());
        }
    }
}

/// The next token depends only on the text that lies ahead: reading from
/// `p` in a text is reading from `p - pos` in the text from `pos` on.
pub proof fn law_next_token_looks_ahead(s: Seq<char>, pos: int, p: int, line: usize)
    requires
        0 <= pos <= p <= s.len(),
    ensures
        next_token_spec(s, p, line) == moved(next_token_spec(ahead(s, pos), p - pos, line), pos),
{
    lemma_token_start_ahead(s, pos, p);
    lemma_token_at_ahead(s, pos, token_start(s, p), line);
}

/// The tokens depend only on the text that lies ahead.
pub proof fn law_tokens_look_ahead(
    s: Seq<char>,
    pos: int,
    p: int,
    line: usize,
    acc: Seq<TokenView>,
)
    requires
        0 <= pos <= p <= s.len(),
    ensures
        tokens_from(s, p, line, acc) == tokens_from(ahead(s, pos), p - pos, line, acc),
    decreases s.len() - p,
{
    law_next_token_looks_ahead(s, pos, p, line);
    lemma_token_advances(s, p, line);
    match next_token_spec(s, p, line) {
        Ok(l) => {
            if !(l.token is Eof || l.pos <= p || l.pos > s.len()) {
                law_tokens_look_ahead(s, pos, l.pos, l.line, acc.push(l.token));
            }
        },
        Err(_) => {},
    }
}

/// The reading of digits does not look beyond the digits it is asked for.
proof fn lemma_digits_value_prefix(a: Seq<char>, c: char, k: int, base: int)
    requires
        0 <= k <= a.len(),
    ensures
        digits_value(a.push(c), k, base) == digits_value(a, k, base),
    decreases k,
{
    if k > 0 {
        lemma_digits_value_prefix(a, c, k - 1, base);
        assert(a.push(c)[k - 1] == a[k - 1]);
    }
}

/// The decimal digits of a number are digits that spell the number, and
/// only the number zero starts with a zero.
pub proof fn law_decimal_digits_read_back(n: nat)
    requires
        n <= i32::MAX,
    ensures
        dec_digits(n).len() > 0,
        forall|i: int| 0 <= i < dec_digits(n).len() ==> is_digit(#[trigger] dec_digits(n)[i]),
        digits_value(dec_digits(n), dec_digits(n).len() as int, 10) == Ok::<int, NumberError>(
            n as int,
        ),
        dec_digits(n)[0] == '0' ==> n == 0 && dec_digits(n).len() == 1,
    decreases n,
{
    let d = dec_digits(n);
    if n < 10 {
        reveal_with_fuel(digits_value, 2);
        assert(d[0] == digit_char(n as int));
    } else {
        let front = dec_digits(n / 10);
        let last = digit_char((n % 10) as int);
        law_decimal_digits_read_back(n / 10);
        lemma_digits_value_prefix(front, last, front.len() as int, 10);
        assert(d =~= front.push(last));
        assert(d[d.len() - 1] == last);
        assert forall|i: int| 0 <= i < d.len() implies is_digit(#[trigger] d[i]) by {
            if i < front.len() {
                assert(d[i] == front[i]);
            }
        }
        assert(d[0] == front[0]);
    }
}

/// The hexadecimal digits of a number are digits that spell the number.
pub proof fn law_hex_digits_read_back(v: nat, width: nat)
    requires
        v <= i32::MAX,
    ensures
        hex_digits(v, width).len() > 0,
        forall|i: int|
            0 <= i < hex_digits(v, width).len() ==> is_hex_digit(#[trigger] hex_digits(v, width)[i])
                && hex_digits(v, width)[i] != '_',
        digits_value(hex_digits(v, width), hex_digits(v, width).len() as int, 16) == Ok::<
            int,
            NumberError,
        >(v as int),
    decreases v + width,
{
    let h = hex_digits(v, width);
    if v < 16 && width <= 1 {
        reveal_with_fuel(digits_value, 2);
        assert(h[0] == digit_char(v as int));
    } else {
        let less: nat = if width > 0 {
            (width - 1) as nat
        } else {
            0
        };
        let front = hex_digits(v / 16, less);
        let last = digit_char((v % 16) as int);
        law_hex_digits_read_back(v / 16, less);
        lemma_digits_value_prefix(front, last, front.len() as int, 16);
        assert(h =~= front.push(last));
        assert(h[h.len() - 1] == last);
        assert forall|i: int| 0 <= i < h.len() implies is_hex_digit(#[trigger] h[i]) && h[i]
            != '_' by {
            if i < front.len() {
                assert(h[i] == front[i]);
            }
        }
    }
}

/// A run of hexadecimal digits is read as a whole.
proof fn lemma_digits_run(s: Seq<char>, p: int, k: int, acc: Seq<char>)
    requires
        0 <= p,
        0 <= k,
        p + k <= s.len(),
        forall|i: int| p <= i < p + k ==> is_hex_digit(#[trigger] s[i]) && s[i] != '_',
        p + k == s.len() || !(is_hex_digit(s[p + k]) || s[p + k] == '_'),
    ensures
        digits_from(s, p, acc) == (acc + s.subrange(p, p + k), p + k),
    decreases k,
{
    if k == 0 {
        assert(acc + s.subrange(p, p) =~= acc);
    } else {
        assert(is_hex_digit(s[p]) && s[p] != '_');
        lemma_digits_run(s, p + 1, k - 1, acc.push(s[p]));
        assert(acc.push(s[p]) + s.subrange(p + 1, p + k) =~= acc + s.subrange(p, p + k));
    }
}

/// One piece of a text that is spelled token by token.
pub enum Piece {
    /// A word: a name or a register.
    Word(Seq<char>),
    /// A number in decimal, with a minus sign if it is negative.
    Decimal(i32),
    /// A number in hexadecimal with the prefix `0x` and at least so many
    /// digits.
    Hex(u16, nat),
    Comma,
    Open,
    Close,
    /// One blank; it gives no token.
    Space,
}

/// A piece that must not touch another of its kind: a word or a number.
pub open spec fn is_solid(p: Piece) -> bool {
    p is Word || p is Decimal || p is Hex
}

/// A character that separates words and numbers.
pub open spec fn is_mark_char(c: char) -> bool {
    c == ',' || c == '(' || c == ')' || c == ' '
}

/// A word made of ASCII letters and digits that starts with a letter.
pub open spec fn is_word(w: Seq<char>) -> bool {
    &&& w.len() > 0
    &&& is_ascii_letter(w[0])
    &&& forall|i: int| 0 <= i < w.len() ==> is_ascii_letter(#[trigger] w[i]) || is_digit(w[i])
}

/// The text of a piece.
pub open spec fn piece_text(p: Piece) -> Seq<char> {
    match p {
        Piece::Word(w) => w,
        Piece::Decimal(v) => dec_text(v as int),
        Piece::Hex(v, width) => "0x"@ + hex_digits(v as nat, width),
        Piece::Comma => seq![','],
        Piece::Open => seq!['('],
        Piece::Close => seq![')'],
        Piece::Space => seq![' '],
    }
}

/// The text of a sequence of pieces.
pub open spec fn spelled(ps: Seq<Piece>) -> Seq<char>
    decreases ps.len(),
{
    if ps.len() == 0 {
        Seq::empty()
    } else {
        piece_text(ps[0]) + spelled(ps.drop_first())
    }
}

/// The token that a word is read as: a register if it names one, a name
/// otherwise.
pub open spec fn word_token(w: Seq<char>) -> TokenView {
    match register_of(uppercase_of(w)) {
        Some(r) => TokenView::Register(r),
        None => TokenView::Ident(w),
    }
}

/// The tokens of a piece.
pub open spec fn piece_token(p: Piece) -> Seq<TokenView> {
    match p {
        Piece::Word(w) => seq![word_token(w)],
        Piece::Decimal(v) => seq![TokenView::Number(v)],
        Piece::Hex(v, _) => seq![TokenView::Number(v as i32)],
        Piece::Comma => seq![TokenView::Comma],
        Piece::Open => seq![TokenView::LParen],
        Piece::Close => seq![TokenView::RParen],
        Piece::Space => Seq::empty(),
    }
}

/// The tokens of a sequence of pieces.
pub open spec fn piece_tokens(ps: Seq<Piece>) -> Seq<TokenView>
    decreases ps.len(),
{
    if ps.len() == 0 {
        Seq::empty()
    } else {
        piece_token(ps[0]) + piece_tokens(ps.drop_first())
    }
}

/// Whether a piece can be spelled: a word is a word, and a decimal number
/// has a negative that can be written.
pub open spec fn piece_ok(p: Piece) -> bool {
    match p {
        Piece::Word(w) => is_word(w),
        Piece::Decimal(v) => v > i32::MIN,
        _ => true,
    }
}

/// Every piece can be spelled, and no two words or numbers touch.
pub open spec fn well_spelled(ps: Seq<Piece>) -> bool {
    &&& forall|i: int| 0 <= i < ps.len() ==> piece_ok(#[trigger] ps[i])
    &&& forall|i: int|
        0 <= i && i + 1 < ps.len() && is_solid(#[trigger] ps[i]) ==> !is_solid(ps[i + 1])
}

/// A run of identifier characters is read as a whole.
proof fn lemma_ident_run(s: Seq<char>, p: int, k: int, acc: Seq<char>)
    requires
        0 <= p,
        0 <= k,
        p + k <= s.len(),
        forall|i: int| p <= i < p + k ==> is_ident_char(#[trigger] s[i]),
        p + k == s.len() || !is_ident_char(s[p + k]),
    ensures
        ident_from(s, p, acc) == (acc + s.subrange(p, p + k), p + k),
    decreases k,
{
    if k == 0 {
        assert(acc + s.subrange(p, p) =~= acc);
    } else {
        assert(is_ident_char(s[p]));
        lemma_ident_run(s, p + 1, k - 1, acc.push(s[p]));
        assert(acc.push(s[p]) + s.subrange(p + 1, p + k) =~= acc + s.subrange(p, p + k));
    }
}

/// The text of a well-spelled sequence of pieces starts with a separating
/// character unless its first piece is a word or a number.
proof fn lemma_spelled_start(ps: Seq<Piece>)
    requires
        well_spelled(ps),
        ps.len() > 0,
        !is_solid(ps[0]),
    ensures
        spelled(ps).len() > 0,
        is_mark_char(spelled(ps)[0]),
{
}

/// A blank at the start of a text gives no token.
proof fn lemma_leading_blank(s: Seq<char>, line: usize, acc: Seq<TokenView>)
    requires
        s.len() > 0,
        s[0] == ' ',
    ensures
        tokens_from(s, 0, line, acc) == tokens_from(ahead(s, 1), 0, line, acc),
{
    assert(token_start(s, 0) == token_start(s, 1));
    lemma_token_advances(s, 0, line);
    lemma_token_advances(s, 1, line);
    law_tokens_look_ahead(s, 1, 1, line, acc);
}

/// A comma or a parenthesis at the start of a text gives its token.
proof fn lemma_leading_mark(s: Seq<char>, p: Piece, line: usize, acc: Seq<TokenView>)
    requires
        s.len() > 0,
        p is Comma || p is Open || p is Close,
        s[0] == piece_text(p)[0],
    ensures
        tokens_from(s, 0, line, acc) == tokens_from(
            ahead(s, 1),
            0,
            line,
            acc.push(piece_token(p)[0]),
        ),
{
    assert(token_start(s, 0) == 0);
    law_tokens_look_ahead(s, 1, 1, line, acc.push(piece_token(p)[0]));
}

/// A word at the start of a text gives its token, if a separating
/// character follows it.
#[verifier::rlimit(40)]
proof fn lemma_leading_word(s: Seq<char>, w: Seq<char>, line: usize, acc: Seq<TokenView>)
    requires
        is_word(w),
        w.len() <= s.len(),
        s.subrange(0, w.len() as int) == w,
        w.len() == s.len() || is_mark_char(s[w.len() as int]),
    ensures
        tokens_from(s, 0, line, acc) == tokens_from(
            ahead(s, w.len() as int),
            0,
            line,
            acc.push(word_token(w)),
        ),
{
    let n = w.len() as int;
    assert(s[0] == w[0]);
    assert(is_ascii_letter(s[0]));
    assert(token_start(s, 0) == 0);
    assert forall|i: int| 0 <= i < n implies is_ident_char(#[trigger] s[i]) by {
        assert(s[i] == w[i]);
        assert(is_ascii_letter(w[i]) || is_digit(w[i]));
    }
    lemma_ident_run(s, 0, n, Seq::empty());
    assert(Seq::<char>::empty() + s.subrange(0, n) =~= w);
    assert(token_at(s, 0, line) == Ok::<Lexed, Seq<char>>(
        Lexed { token: word_token(w), pos: n, line },
    ));
    law_tokens_look_ahead(s, n, n, line, acc.push(word_token(w)));
}

/// A number at the start of a text gives its token, if a separating
/// character follows its digits.
proof fn lemma_leading_digits(
    s: Seq<char>,
    digits: Seq<char>,
    at: int,
    base: int,
    value: int,
)
    requires
        0 <= at,
        digits.len() > 0,
        at + digits.len() <= s.len(),
        s.subrange(at, at + digits.len()) == digits,
        forall|i: int|
            0 <= i < digits.len() ==> is_hex_digit(#[trigger] digits[i]) && digits[i] != '_',
        at + digits.len() == s.len() || is_mark_char(s[at + digits.len()]),
        digits_value(digits, digits.len() as int, base) == Ok::<int, NumberError>(value),
        0 <= value <= i32::MAX,
    ensures
        digits_from(s, at, Seq::empty()) == (digits, at + digits.len()),
        parse_number(digits, base) == Ok::<i32, NumberError>(value as i32),
{
    let k = digits.len() as int;
    assert forall|i: int| at <= i < at + k implies is_hex_digit(#[trigger] s[i]) && s[i]
        != '_' by {
        assert(s[i] == digits[i - at]);
    }
    lemma_digits_run(s, at, k, Seq::empty());
    assert(Seq::<char>::empty() + s.subrange(at, at + k) =~= digits);
}

/// A decimal number at the start of a text gives its token.
#[verifier::rlimit(40)]
proof fn lemma_leading_decimal(s: Seq<char>, v: i32, line: usize, acc: Seq<TokenView>)
    requires
        v > i32::MIN,
        dec_text(v as int).len() <= s.len(),
        s.subrange(0, dec_text(v as int).len() as int) == dec_text(v as int),
        dec_text(v as int).len() == s.len() || is_mark_char(s[dec_text(v as int).len() as int]),
    ensures
        tokens_from(s, 0, line, acc) == tokens_from(
            ahead(s, dec_text(v as int).len() as int),
            0,
            line,
            acc.push(TokenView::Number(v)),
        ),
{
    let t = dec_text(v as int);
    let n = t.len() as int;
    let at: int = if v < 0 {
        1
    } else {
        0
    };
    let size: nat = if v < 0 {
        (-v) as nat
    } else {
        v as nat
    };
    let digits = dec_digits(size);
    law_decimal_digits_read_back(size);
    assert(t.subrange(at, n) =~= digits);
    assert(s.subrange(at, at + digits.len()) =~= digits) by {
        assert forall|i: int| 0 <= i < digits.len() implies s[at + i] == digits[i] by {
            assert(s[at + i] == t[at + i]);
        }
    }
    assert forall|i: int| 0 <= i < digits.len() implies is_hex_digit(#[trigger] digits[i])
        && digits[i] != '_' by {
        assert(is_digit(digits[i]));
    }
    lemma_leading_digits(s, digits, at, 10, size as int);
    assert(s[0] == t[0]);
    assert(s[at] == digits[0]);
    assert(is_digit(digits[0]));
    if digits[0] == '0' {
        assert(digits.len() == 1);
    }
    assert(number_base(s, at) == (10int, at));
    assert(number_at(s, at) == (Ok::<i32, NumberError>(size as i32), n));
    assert(token_start(s, 0) == 0);
    assert(token_at(s, 0, line) == Ok::<Lexed, Seq<char>>(
        Lexed { token: TokenView::Number(v), pos: n, line },
    ));
    law_tokens_look_ahead(s, n, n, line, acc.push(TokenView::Number(v)));
}

/// A hexadecimal number at the start of a text gives its token.
#[verifier::rlimit(40)]
proof fn lemma_leading_hex(
    s: Seq<char>,
    v: u16,
    width: nat,
    line: usize,
    acc: Seq<TokenView>,
)
    requires
        piece_text(Piece::Hex(v, width)).len() <= s.len(),
        s.subrange(0, piece_text(Piece::Hex(v, width)).len() as int) == piece_text(
            Piece::Hex(v, width),
        ),
        piece_text(Piece::Hex(v, width)).len() == s.len() || is_mark_char(
            s[piece_text(Piece::Hex(v, width)).len() as int],
        ),
    ensures
        tokens_from(s, 0, line, acc) == tokens_from(
            ahead(s, piece_text(Piece::Hex(v, width)).len() as int),
            0,
            line,
            acc.push(TokenView::Number(v as i32)),
        ),
{
    reveal_strlit("0x");
    let t = piece_text(Piece::Hex(v, width));
    let n = t.len() as int;
    let digits = hex_digits(v as nat, width);
    law_hex_digits_read_back(v as nat, width);
    assert(t.subrange(2, n) =~= digits);
    assert(s.subrange(2, 2 + digits.len() as int) =~= digits) by {
        assert forall|i: int| 0 <= i < digits.len() implies s[2 + i] == digits[i] by {
            assert(s[2 + i] == t[2 + i]);
        }
    }
    lemma_leading_digits(s, digits, 2, 16, v as int);
    assert(s[0] == t[0] && s[1] == t[1]);
    assert(s[0] == '0' && s[1] == 'x');
    assert(number_base(s, 0) == (16int, 2int));
    assert(number_at(s, 0) == (Ok::<i32, NumberError>(v as i32), n));
    assert(token_start(s, 0) == 0);
    assert(token_at(s, 0, line) == Ok::<Lexed, Seq<char>>(
        Lexed { token: TokenView::Number(v as i32), pos: n, line },
    ));
    law_tokens_look_ahead(s, n, n, line, acc.push(TokenView::Number(v as i32)));
}

/// The tail of a well-spelled sequence is well spelled.
proof fn lemma_tail_well_spelled(ps: Seq<Piece>)
    requires
        well_spelled(ps),
        ps.len() > 0,
    ensures
        well_spelled(ps.drop_first()),
{
    let tail = ps.drop_first();
    assert forall|i: int| 0 <= i < tail.len() implies piece_ok(#[trigger] tail[i]) by {
        assert(tail[i] == ps[i + 1]);
    }
    assert forall|i: int|
        0 <= i && i + 1 < tail.len() && is_solid(#[trigger] tail[i]) implies !is_solid(
        tail[i + 1],
    ) by {
        assert(tail[i] == ps[i + 1]);
        assert(tail[i + 1] == ps[i + 2]);
    }
}

/// The first piece of a well-spelled sequence gives its tokens, and the
/// lexer goes on with the text of the other pieces.
#[verifier::rlimit(40)]
proof fn lemma_first_piece(ps: Seq<Piece>, line: usize, acc: Seq<TokenView>)
    requires
        well_spelled(ps),
        ps.len() > 0,
    ensures
        tokens_from(spelled(ps), 0, line, acc) == tokens_from(
            spelled(ps.drop_first()),
            0,
            line,
            acc + piece_token(ps[0]),
        ),
{
    let s = spelled(ps);
    let tail = ps.drop_first();
    let rest = spelled(tail);
    let first = piece_text(ps[0]);
    let n = first.len() as int;
    lemma_tail_well_spelled(ps);
    assert(ahead(s, n) =~= rest);
    assert(s.subrange(0, n) =~= first);
    assert(s[0] == first[0]);
    assert(piece_ok(ps[0]));
    if tail.len() > 0 && is_solid(ps[0]) {
        assert(tail[0] == ps[1]);
        lemma_spelled_start(tail);
        assert(s[n] == rest[0]);
    }
    match ps[0] {
        Piece::Space => {
            assert(acc + piece_token(ps[0]) =~= acc);
            lemma_leading_blank(s, line, acc);
        },
        Piece::Word(w) => {
            assert(acc + piece_token(ps[0]) =~= acc.push(word_token(w)));
            lemma_leading_word(s, w, line, acc);
        },
        Piece::Decimal(v) => {
            assert(acc + piece_token(ps[0]) =~= acc.push(TokenView::Number(v)));
            lemma_leading_decimal(s, v, line, acc);
        },
        Piece::Hex(v, width) => {
            assert(acc + piece_token(ps[0]) =~= acc.push(TokenView::Number(v as i32)));
            lemma_leading_hex(s, v, width, line, acc);
        },
        other => {
            assert(acc + piece_token(ps[0]) =~= acc.push(piece_token(other)[0]));
            lemma_leading_mark(s, other, line, acc);
        },
    }
}

/// A text that is spelled token by token is read as those tokens: the
/// lexer gives the tokens of the pieces, in order, and then `Eof`.
#[verifier::rlimit(40)]
pub proof fn law_spelled_tokens(ps: Seq<Piece>, line: usize, acc: Seq<TokenView>)
    requires
        well_spelled(ps),
    ensures
        tokens_from(spelled(ps), 0, line, acc) == Ok::<Seq<TokenView>, Seq<char>>(
            acc + piece_tokens(ps) + seq![TokenView::Eof],
        ),
    decreases ps.len(),
{
    if ps.len() == 0 {
        assert(acc + piece_tokens(ps) + seq![TokenView::Eof] =~= acc.push(TokenView::Eof));
    } else {
        let tail = ps.drop_first();
        let grown = acc + piece_token(ps[0]);
        lemma_tail_well_spelled(ps);
        lemma_first_piece(ps, line, acc);
        law_spelled_tokens(tail, line, grown);
        assert(grown + piece_tokens(tail) + seq![TokenView::Eof] =~= acc + piece_tokens(ps)
            + seq![TokenView::Eof]);
    }
}

/// The pieces `ps` with the piece `p` before them.
pub open spec fn after_piece(p: Piece, ps: Seq<Piece>) -> Seq<Piece> {
    seq![p] + ps
}

/// What a sequence of pieces spells and is read as when one more piece
/// stands before it.
proof fn lemma_after_piece(p: Piece, ps: Seq<Piece>)
    requires
        well_spelled(ps),
        piece_ok(p),
        is_solid(p) && ps.len() > 0 ==> !is_solid(ps[0]),
    ensures
        spelled(after_piece(p, ps)) == piece_text(p) + spelled(ps),
        piece_tokens(after_piece(p, ps)) == piece_token(p) + piece_tokens(ps),
        well_spelled(after_piece(p, ps)),
        after_piece(p, ps).len() > 0,
        after_piece(p, ps)[0] == p,
{
    let all = after_piece(p, ps);
    assert(all.drop_first() =~= ps);
    assert forall|i: int| 0 <= i < all.len() implies piece_ok(#[trigger] all[i]) by {
        if i > 0 {
            assert(all[i] == ps[i - 1]);
        }
    }
    assert forall|i: int|
        0 <= i && i + 1 < all.len() && is_solid(#[trigger] all[i]) implies !is_solid(
        all[i + 1],
    ) by {
        assert(all[i + 1] == ps[i]);
        if i > 0 {
            assert(all[i] == ps[i - 1]);
        }
    }
}

/// The tokens of `NAME`.
proof fn lemma_lex_bare(name: Seq<char>)
    requires
        is_word(name),
    ensures
        tokens_of(name) == Ok::<Seq<TokenView>, Seq<char>>(
            seq![word_token(name), TokenView::Eof],
        ),
{
    let end = Seq::<Piece>::empty();
    let q0 = after_piece(Piece::Word(name), end);
    lemma_after_piece(Piece::Word(name), end);
    law_spelled_tokens(q0, 1, Seq::empty());
    assert(spelled(q0) =~= name);
    assert(Seq::<TokenView>::empty() + piece_tokens(q0) + seq![TokenView::Eof] =~= seq![
        word_token(name),
        TokenView::Eof,
    ]);
}

/// The tokens of `NAME Ra`.
proof fn lemma_lex_one(name: Seq<char>, ra: Seq<char>)
    requires
        is_word(name),
        is_word(ra),
    ensures
        tokens_of(name + " "@ + ra) == Ok::<Seq<TokenView>, Seq<char>>(
            seq![word_token(name), word_token(ra), TokenView::Eof],
        ),
{
    reveal_strlit(" ");
    let end = Seq::<Piece>::empty();
    let q2 = after_piece(Piece::Word(ra), end);
    lemma_after_piece(Piece::Word(ra), end);
    let q1 = after_piece(Piece::Space, q2);
    lemma_after_piece(Piece::Space, q2);
    let q0 = after_piece(Piece::Word(name), q1);
    lemma_after_piece(Piece::Word(name), q1);
    law_spelled_tokens(q0, 1, Seq::empty());
    assert(spelled(q0) =~= name + " "@ + ra);
    assert(Seq::<TokenView>::empty() + piece_tokens(q0) + seq![TokenView::Eof] =~= seq![
        word_token(name),
        word_token(ra),
        TokenView::Eof,
    ]);
}

/// The pieces of `, Rb`, and what they spell and are read as.
proof fn lemma_next_register(rb: Seq<char>, ps: Seq<Piece>) -> (all: Seq<Piece>)
    requires
        is_word(rb),
        well_spelled(ps),
        ps.len() > 0 ==> !is_solid(ps[0]),
    ensures
        well_spelled(all),
        all.len() > 0,
        all[0] is Comma,
        spelled(all) == seq![',', ' '] + rb + spelled(ps),
        piece_tokens(all) == seq![TokenView::Comma, word_token(rb)] + piece_tokens(ps),
{
    let q2 = after_piece(Piece::Word(rb), ps);
    lemma_after_piece(Piece::Word(rb), ps);
    let q1 = after_piece(Piece::Space, q2);
    lemma_after_piece(Piece::Space, q2);
    let q0 = after_piece(Piece::Comma, q1);
    lemma_after_piece(Piece::Comma, q1);
    assert(spelled(q0) =~= seq![',', ' '] + rb + spelled(ps));
    assert(piece_tokens(q0) =~= seq![TokenView::Comma, word_token(rb)] + piece_tokens(ps));
    q0
}

/// The tokens of `NAME Ra, Rb`.
proof fn lemma_lex_two(name: Seq<char>, ra: Seq<char>, rb: Seq<char>)
    requires
        is_word(name),
        is_word(ra),
        is_word(rb),
    ensures
        tokens_of(name + " "@ + ra + ", "@ + rb) == Ok::<Seq<TokenView>, Seq<char>>(
            seq![
                word_token(name),
                word_token(ra),
                TokenView::Comma,
                word_token(rb),
                TokenView::Eof,
            ],
        ),
{
    reveal_strlit(" ");
    reveal_strlit(", ");
    let end = Seq::<Piece>::empty();
    let q3 = lemma_next_register(rb, end);
    let q2 = after_piece(Piece::Word(ra), q3);
    lemma_after_piece(Piece::Word(ra), q3);
    let q1 = after_piece(Piece::Space, q2);
    lemma_after_piece(Piece::Space, q2);
    let q0 = after_piece(Piece::Word(name), q1);
    lemma_after_piece(Piece::Word(name), q1);
    law_spelled_tokens(q0, 1, Seq::empty());
    assert(spelled(q0) =~= name + " "@ + ra + ", "@ + rb);
    assert(Seq::<TokenView>::empty() + piece_tokens(q0) + seq![TokenView::Eof] =~= seq![
        word_token(name),
        word_token(ra),
        TokenView::Comma,
        word_token(rb),
        TokenView::Eof,
    ]);
}

/// The tokens of `NAME Ra, Rb, Rc`.
proof fn lemma_lex_three(name: Seq<char>, ra: Seq<char>, rb: Seq<char>, rc: Seq<char>)
    requires
        is_word(name),
        is_word(ra),
        is_word(rb),
        is_word(rc),
    ensures
        tokens_of(name + " "@ + ra + ", "@ + rb + ", "@ + rc) == Ok::<Seq<TokenView>, Seq<char>>(
            seq![
                word_token(name),
                word_token(ra),
                TokenView::Comma,
                word_token(rb),
                TokenView::Comma,
                word_token(rc),
                TokenView::Eof,
            ],
        ),
{
    reveal_strlit(" ");
    reveal_strlit(", ");
    let end = Seq::<Piece>::empty();
    let q4 = lemma_next_register(rc, end);
    let q3 = lemma_next_register(rb, q4);
    let q2 = after_piece(Piece::Word(ra), q3);
    lemma_after_piece(Piece::Word(ra), q3);
    let q1 = after_piece(Piece::Space, q2);
    lemma_after_piece(Piece::Space, q2);
    let q0 = after_piece(Piece::Word(name), q1);
    lemma_after_piece(Piece::Word(name), q1);
    law_spelled_tokens(q0, 1, Seq::empty());
    assert(spelled(q0) =~= name + " "@ + ra + ", "@ + rb + ", "@ + rc);
    assert(Seq::<TokenView>::empty() + piece_tokens(q0) + seq![TokenView::Eof] =~= seq![
        word_token(name),
        word_token(ra),
        TokenView::Comma,
        word_token(rb),
        TokenView::Comma,
        word_token(rc),
        TokenView::Eof,
    ]);
}

/// The tokens of `NAME Ra, (Rb)`.
proof fn lemma_lex_indirect(name: Seq<char>, ra: Seq<char>, rb: Seq<char>)
    requires
        is_word(name),
        is_word(ra),
        is_word(rb),
    ensures
        tokens_of(name + " "@ + ra + ", ("@ + rb + ")"@) == Ok::<Seq<TokenView>, Seq<char>>(
            seq![
                word_token(name),
                word_token(ra),
                TokenView::Comma,
                TokenView::LParen,
                word_token(rb),
                TokenView::RParen,
                TokenView::Eof,
            ],
        ),
{
    reveal_strlit(" ");
    reveal_strlit(", (");
    reveal_strlit(")");
    let end = Seq::<Piece>::empty();
    let q7 = after_piece(Piece::Close, end);
    lemma_after_piece(Piece::Close, end);
    let q6 = after_piece(Piece::Word(rb), q7);
    lemma_after_piece(Piece::Word(rb), q7);
    let q5 = after_piece(Piece::Open, q6);
    lemma_after_piece(Piece::Open, q6);
    let q4 = after_piece(Piece::Space, q5);
    lemma_after_piece(Piece::Space, q5);
    let q3 = after_piece(Piece::Comma, q4);
    lemma_after_piece(Piece::Comma, q4);
    let q2 = after_piece(Piece::Word(ra), q3);
    lemma_after_piece(Piece::Word(ra), q3);
    let q1 = after_piece(Piece::Space, q2);
    lemma_after_piece(Piece::Space, q2);
    let q0 = after_piece(Piece::Word(name), q1);
    lemma_after_piece(Piece::Word(name), q1);
    law_spelled_tokens(q0, 1, Seq::empty());
    assert(spelled(q0) =~= name + " "@ + ra + ", ("@ + rb + ")"@);
    assert(Seq::<TokenView>::empty() + piece_tokens(q0) + seq![TokenView::Eof] =~= seq![
        word_token(name),
        word_token(ra),
        TokenView::Comma,
        TokenView::LParen,
        word_token(rb),
        TokenView::RParen,
        TokenView::Eof,
    ]);
}

/// The tokens of `NAME (Ra), Rb`.
proof fn lemma_lex_port(name: Seq<char>, ra: Seq<char>, rb: Seq<char>)
    requires
        is_word(name),
        is_word(ra),
        is_word(rb),
    ensures
        tokens_of(name + " ("@ + ra + "), "@ + rb) == Ok::<Seq<TokenView>, Seq<char>>(
            seq![
                word_token(name),
                TokenView::LParen,
                word_token(ra),
                TokenView::RParen,
                TokenView::Comma,
                word_token(rb),
                TokenView::Eof,
            ],
        ),
{
    reveal_strlit(" (");
    reveal_strlit("), ");
    let end = Seq::<Piece>::empty();
    let q5 = lemma_next_register(rb, end);
    let q4 = after_piece(Piece::Close, q5);
    lemma_after_piece(Piece::Close, q5);
    let q3 = after_piece(Piece::Word(ra), q4);
    lemma_after_piece(Piece::Word(ra), q4);
    let q2 = after_piece(Piece::Open, q3);
    lemma_after_piece(Piece::Open, q3);
    let q1 = after_piece(Piece::Space, q2);
    lemma_after_piece(Piece::Space, q2);
    let q0 = after_piece(Piece::Word(name), q1);
    lemma_after_piece(Piece::Word(name), q1);
    law_spelled_tokens(q0, 1, Seq::empty());
    assert(spelled(q0) =~= name + " ("@ + ra + "), "@ + rb);
    assert(Seq::<TokenView>::empty() + piece_tokens(q0) + seq![TokenView::Eof] =~= seq![
        word_token(name),
        TokenView::LParen,
        word_token(ra),
        TokenView::RParen,
        TokenView::Comma,
        word_token(rb),
        TokenView::Eof,
    ]);
}

/// The one statement of a program that is one instruction.
pub open spec fn one_instruction(name: Seq<char>, operands: Seq<OperandView>) -> Result<
    Seq<StatementView>,
    Seq<char>,
> {
    Ok(seq![StatementView::Instruction { mnemonic: uppercase_of(name), operands }])
}

/// What the parser makes of the tokens of `NAME`.
proof fn lemma_parse_bare(name: Seq<char>)
    ensures
        program_of(seq![TokenView::Ident(name), TokenView::Eof]) == one_instruction(
            name,
            Seq::empty(),
        ),
{
    let toks = seq![TokenView::Ident(name), TokenView::Eof];
    reveal_with_fuel(statements_from, 3);
    reveal_with_fuel(operands_from, 2);
    reveal_with_fuel(newlines_end, 2);
    assert(operands_from(toks, 1, Seq::empty()) == Ok::<(Seq<OperandView>, int), Seq<char>>(
        (Seq::empty(), 1),
    ));
    assert(Seq::<StatementView>::empty().push(
        StatementView::Instruction { mnemonic: uppercase_of(name), operands: Seq::empty() },
    ) =~= one_instruction(name, Seq::empty())->Ok_0);
}

/// What the parser makes of the tokens of `NAME Ra`.
proof fn lemma_parse_one(name: Seq<char>, a: u8)
    ensures
        program_of(seq![TokenView::Ident(name), TokenView::Register(a), TokenView::Eof])
            == one_instruction(name, seq![OperandView::Register(a)]),
{
    let toks = seq![TokenView::Ident(name), TokenView::Register(a), TokenView::Eof];
    let ops = seq![OperandView::Register(a)];
    reveal_with_fuel(statements_from, 3);
    reveal_with_fuel(operands_from, 3);
    reveal_with_fuel(newlines_end, 2);
    assert(Seq::<OperandView>::empty().push(OperandView::Register(a)) =~= ops);
    assert(operands_from(toks, 1, Seq::empty()) == Ok::<(Seq<OperandView>, int), Seq<char>>(
        (ops, 2),
    ));
    assert(Seq::<StatementView>::empty().push(
        StatementView::Instruction { mnemonic: uppercase_of(name), operands: ops },
    ) =~= one_instruction(name, ops)->Ok_0);
}

/// What the parser makes of the tokens of `NAME Ra, Rb`.
proof fn lemma_parse_two(name: Seq<char>, a: u8, b: u8)
    ensures
        program_of(
            seq![
                TokenView::Ident(name),
                TokenView::Register(a),
                TokenView::Comma,
                TokenView::Register(b),
                TokenView::Eof,
            ],
        ) == one_instruction(name, seq![OperandView::Register(a), OperandView::Register(b)]),
{
    let toks = seq![
        TokenView::Ident(name),
        TokenView::Register(a),
        TokenView::Comma,
        TokenView::Register(b),
        TokenView::Eof,
    ];
    let ops = seq![OperandView::Register(a), OperandView::Register(b)];
    reveal_with_fuel(statements_from, 3);
    reveal_with_fuel(operands_from, 5);
    reveal_with_fuel(newlines_end, 2);
    assert(Seq::<OperandView>::empty().push(OperandView::Register(a)).push(
        OperandView::Register(b),
    ) =~= ops);
    assert(operands_from(toks, 1, Seq::empty()) == Ok::<(Seq<OperandView>, int), Seq<char>>(
        (ops, 4),
    ));
    assert(Seq::<StatementView>::empty().push(
        StatementView::Instruction { mnemonic: uppercase_of(name), operands: ops },
    ) =~= one_instruction(name, ops)->Ok_0);
}

/// What the parser makes of the tokens of `NAME Ra, Rb, Rc`.
proof fn lemma_parse_three(name: Seq<char>, a: u8, b: u8, c: u8)
    ensures
        program_of(
            seq![
                TokenView::Ident(name),
                TokenView::Register(a),
                TokenView::Comma,
                TokenView::Register(b),
                TokenView::Comma,
                TokenView::Register(c),
                TokenView::Eof,
            ],
        ) == one_instruction(
            name,
            seq![OperandView::Register(a), OperandView::Register(b), OperandView::Register(c)],
        ),
{
    let toks = seq![
        TokenView::Ident(name),
        TokenView::Register(a),
        TokenView::Comma,
        TokenView::Register(b),
        TokenView::Comma,
        TokenView::Register(c),
        TokenView::Eof,
    ];
    let ops = seq![OperandView::Register(a), OperandView::Register(b), OperandView::Register(c)];
    reveal_with_fuel(statements_from, 3);
    reveal_with_fuel(operands_from, 7);
    reveal_with_fuel(newlines_end, 2);
    assert(Seq::<OperandView>::empty().push(OperandView::Register(a)).push(
        OperandView::Register(b),
    ).push(OperandView::Register(c)) =~= ops);
    assert(operands_from(toks, 1, Seq::empty()) == Ok::<(Seq<OperandView>, int), Seq<char>>(
        (ops, 6),
    ));
    assert(Seq::<StatementView>::empty().push(
        StatementView::Instruction { mnemonic: uppercase_of(name), operands: ops },
    ) =~= one_instruction(name, ops)->Ok_0);
}

/// What the parser makes of the tokens of `NAME Ra, (Rb)`.
proof fn lemma_parse_indirect(name: Seq<char>, a: u8, b: u8)
    ensures
        program_of(
            seq![
                TokenView::Ident(name),
                TokenView::Register(a),
                TokenView::Comma,
                TokenView::LParen,
                TokenView::Register(b),
                TokenView::RParen,
                TokenView::Eof,
            ],
        ) == one_instruction(name, seq![OperandView::Register(a), OperandView::Indirect(b, 0)]),
{
    let toks = seq![
        TokenView::Ident(name),
        TokenView::Register(a),
        TokenView::Comma,
        TokenView::LParen,
        TokenView::Register(b),
        TokenView::RParen,
        TokenView::Eof,
    ];
    let ops = seq![OperandView::Register(a), OperandView::Indirect(b, 0)];
    reveal_with_fuel(statements_from, 3);
    reveal_with_fuel(operands_from, 5);
    reveal_with_fuel(newlines_end, 2);
    assert(Seq::<OperandView>::empty().push(OperandView::Register(a)).push(
        OperandView::Indirect(b, 0),
    ) =~= ops);
    assert(operands_from(toks, 1, Seq::empty()) == Ok::<(Seq<OperandView>, int), Seq<char>>(
        (ops, 6),
    ));
    assert(Seq::<StatementView>::empty().push(
        StatementView::Instruction { mnemonic: uppercase_of(name), operands: ops },
    ) =~= one_instruction(name, ops)->Ok_0);
}

/// What the parser makes of the tokens of `NAME (Ra), Rb`.
proof fn lemma_parse_port(name: Seq<char>, a: u8, b: u8)
    ensures
        program_of(
            seq![
                TokenView::Ident(name),
                TokenView::LParen,
                TokenView::Register(a),
                TokenView::RParen,
                TokenView::Comma,
                TokenView::Register(b),
                TokenView::Eof,
            ],
        ) == one_instruction(name, seq![OperandView::Indirect(a, 0), OperandView::Register(b)]),
{
    let toks = seq![
        TokenView::Ident(name),
        TokenView::LParen,
        TokenView::Register(a),
        TokenView::RParen,
        TokenView::Comma,
        TokenView::Register(b),
        TokenView::Eof,
    ];
    let ops = seq![OperandView::Indirect(a, 0), OperandView::Register(b)];
    reveal_with_fuel(statements_from, 3);
    reveal_with_fuel(operands_from, 5);
    reveal_with_fuel(newlines_end, 2);
    assert(Seq::<OperandView>::empty().push(OperandView::Indirect(a, 0)).push(
        OperandView::Register(b),
    ) =~= ops);
    assert(operands_from(toks, 1, Seq::empty()) == Ok::<(Seq<OperandView>, int), Seq<char>>(
        (ops, 6),
    ));
    assert(Seq::<StatementView>::empty().push(
        StatementView::Instruction { mnemonic: uppercase_of(name), operands: ops },
    ) =~= one_instruction(name, ops)->Ok_0);
}

/// The tokens of `NAME Ra, N`, where `N` is a number.
proof fn lemma_lex_reg_then(name: Seq<char>, ra: Seq<char>, number: Piece)
    requires
        is_word(name),
        is_word(ra),
        number is Decimal || number is Hex,
        piece_ok(number),
    ensures
        tokens_of(name + " "@ + ra + ", "@ + piece_text(number)) == Ok::<
            Seq<TokenView>,
            Seq<char>,
        >(
            seq![
                word_token(name),
                word_token(ra),
                TokenView::Comma,
                piece_token(number)[0],
                TokenView::Eof,
            ],
        ),
{
    reveal_strlit(" ");
    reveal_strlit(", ");
    let end = Seq::<Piece>::empty();
    let q5 = after_piece(number, end);
    lemma_after_piece(number, end);
    let q4 = after_piece(Piece::Space, q5);
    lemma_after_piece(Piece::Space, q5);
    let q3 = after_piece(Piece::Comma, q4);
    lemma_after_piece(Piece::Comma, q4);
    let q2 = after_piece(Piece::Word(ra), q3);
    lemma_after_piece(Piece::Word(ra), q3);
    let q1 = after_piece(Piece::Space, q2);
    lemma_after_piece(Piece::Space, q2);
    let q0 = after_piece(Piece::Word(name), q1);
    lemma_after_piece(Piece::Word(name), q1);
    law_spelled_tokens(q0, 1, Seq::empty());
    assert(spelled(q0) =~= name + " "@ + ra + ", "@ + piece_text(number));
    assert(Seq::<TokenView>::empty() + piece_tokens(q0) + seq![TokenView::Eof] =~= seq![
        word_token(name),
        word_token(ra),
        TokenView::Comma,
        piece_token(number)[0],
        TokenView::Eof,
    ]);
}

/// The tokens of `NAME N`, where `N` is a number.
proof fn lemma_lex_word_then(name: Seq<char>, number: Piece)
    requires
        is_word(name),
        number is Decimal || number is Hex,
        piece_ok(number),
    ensures
        tokens_of(name + " "@ + piece_text(number)) == Ok::<Seq<TokenView>, Seq<char>>(
            seq![word_token(name), piece_token(number)[0], TokenView::Eof],
        ),
{
    reveal_strlit(" ");
    let end = Seq::<Piece>::empty();
    let q2 = after_piece(number, end);
    lemma_after_piece(number, end);
    let q1 = after_piece(Piece::Space, q2);
    lemma_after_piece(Piece::Space, q2);
    let q0 = after_piece(Piece::Word(name), q1);
    lemma_after_piece(Piece::Word(name), q1);
    law_spelled_tokens(q0, 1, Seq::empty());
    assert(spelled(q0) =~= name + " "@ + piece_text(number));
    assert(Seq::<TokenView>::empty() + piece_tokens(q0) + seq![TokenView::Eof] =~= seq![
        word_token(name),
        piece_token(number)[0],
        TokenView::Eof,
    ]);
}

/// What the parser makes of the tokens of `NAME Ra, N`.
proof fn lemma_parse_reg_then(name: Seq<char>, a: u8, n: i32)
    ensures
        program_of(
            seq![
                TokenView::Ident(name),
                TokenView::Register(a),
                TokenView::Comma,
                TokenView::Number(n),
                TokenView::Eof,
            ],
        ) == one_instruction(name, seq![OperandView::Register(a), OperandView::Immediate(n)]),
{
    let toks = seq![
        TokenView::Ident(name),
        TokenView::Register(a),
        TokenView::Comma,
        TokenView::Number(n),
        TokenView::Eof,
    ];
    let ops = seq![OperandView::Register(a), OperandView::Immediate(n)];
    reveal_with_fuel(statements_from, 3);
    reveal_with_fuel(operands_from, 5);
    reveal_with_fuel(newlines_end, 2);
    assert(Seq::<OperandView>::empty().push(OperandView::Register(a)).push(
        OperandView::Immediate(n),
    ) =~= ops);
    assert(operands_from(toks, 1, Seq::empty()) == Ok::<(Seq<OperandView>, int), Seq<char>>(
        (ops, 4),
    ));
    assert(Seq::<StatementView>::empty().push(
        StatementView::Instruction { mnemonic: uppercase_of(name), operands: ops },
    ) =~= one_instruction(name, ops)->Ok_0);
}

/// What the parser makes of the tokens of `NAME N`.
proof fn lemma_parse_word_then(name: Seq<char>, n: i32)
    ensures
        program_of(seq![TokenView::Ident(name), TokenView::Number(n), TokenView::Eof])
            == one_instruction(name, seq![OperandView::Immediate(n)]),
{
    let toks = seq![TokenView::Ident(name), TokenView::Number(n), TokenView::Eof];
    let ops = seq![OperandView::Immediate(n)];
    reveal_with_fuel(statements_from, 3);
    reveal_with_fuel(operands_from, 3);
    reveal_with_fuel(newlines_end, 2);
    assert(Seq::<OperandView>::empty().push(OperandView::Immediate(n)) =~= ops);
    assert(operands_from(toks, 1, Seq::empty()) == Ok::<(Seq<OperandView>, int), Seq<char>>(
        (ops, 2),
    ));
    assert(Seq::<StatementView>::empty().push(
        StatementView::Instruction { mnemonic: uppercase_of(name), operands: ops },
    ) =~= one_instruction(name, ops)->Ok_0);
}

/// A mnemonic's spelling is a word that the lexer reads as a name and
/// that the assembler reads as the mnemonic.
proof fn lemma_mnemonic_word(m: Mnemonic)
    ensures
        is_word(mnemonic_name(m)),
        word_token(mnemonic_name(m)) == TokenView::Ident(mnemonic_name(m)),
        uppercase_of(mnemonic_name(m)) == mnemonic_name(m),
        mnemonic_of(uppercase_of(mnemonic_name(m))) == Some(m),
{
    law_mnemonics_are_names(m);
    law_mnemonic_names(m);
    let name = mnemonic_name(m);
    assert('A' <= name[0] <= 'Z');
    assert forall|i: int| 0 <= i < name.len() implies is_ascii_letter(#[trigger] name[i])
        || is_digit(name[i]) by {
        assert('A' <= name[i] <= 'Z');
    }
}

/// A register's name is a word that the lexer reads as the register.
proof fn lemma_register_word(n: u8)
    requires
        n < 16,
    ensures
        is_word(reg_text(n as u16)),
        word_token(reg_text(n as u16)) == TokenView::Register(n),
{
    lemma_register_spelling(n);
    law_register_names(n);
    let t = reg_text(n as u16);
    assert forall|i: int| 0 <= i < t.len() implies is_ascii_letter(#[trigger] t[i]) || is_digit(
        t[i],
    ) by {
        if i >= 1 {
            assert('0' <= t[i] <= '9');
        }
    }
}

/// The source text of an instruction in register form is read back as
/// that instruction: the lexer and the parser turn the text that names
/// the mnemonic and its registers into the one statement with that
/// mnemonic and those operands.
#[verifier::rlimit(40)]
pub proof fn law_register_forms_are_read_back(m: Mnemonic, a: u8, b: u8, c: u8)
    requires
        a < 16,
        b < 16,
        c < 16,
        register_form(m, a, b, c) is Some,
    ensures
        tokens_of(register_form(m, a, b, c)->Some_0.1) matches Ok(tokens) && program_of(tokens)
            == Ok::<Seq<StatementView>, Seq<char>>(
            seq![
                StatementView::Instruction {
                    mnemonic: mnemonic_name(m),
                    operands: register_form(m, a, b, c)->Some_0.0,
                },
            ],
        ),
{
    let name = mnemonic_name(m);
    let ra = reg_text(a as u16);
    let rb = reg_text(b as u16);
    let rc = reg_text(c as u16);
    lemma_mnemonic_word(m);
    lemma_register_word(a);
    lemma_register_word(b);
    lemma_register_word(c);
    match m {
        Mnemonic::Add | Mnemonic::Sub | Mnemonic::And | Mnemonic::Or | Mnemonic::Xor => {
            lemma_lex_three(name, ra, rb, rc);
            lemma_parse_three(name, a, b, c);
        },
        Mnemonic::Mul
        | Mnemonic::Mulh
        | Mnemonic::Mulhu
        | Mnemonic::Div
        | Mnemonic::Divu
        | Mnemonic::Rem
        | Mnemonic::Remu
        | Mnemonic::Compare
        | Mnemonic::Test
        | Mnemonic::Mov
        | Mnemonic::Sll
        | Mnemonic::Srl
        | Mnemonic::Sra
        | Mnemonic::Rol
        | Mnemonic::Ror
        | Mnemonic::Swap
        | Mnemonic::Jalr => {
            lemma_lex_two(name, ra, rb);
            lemma_parse_two(name, a, b);
        },
        Mnemonic::Push
        | Mnemonic::Pop
        | Mnemonic::Getf
        | Mnemonic::Setf
        | Mnemonic::Jr
        | Mnemonic::Daa => {
            lemma_lex_one(name, ra);
            lemma_parse_one(name, a);
        },
        Mnemonic::Lw | Mnemonic::Lb | Mnemonic::Lbu | Mnemonic::In => {
            lemma_lex_indirect(name, ra, rb);
            lemma_parse_indirect(name, a, b);
        },
        Mnemonic::Out | Mnemonic::Sw | Mnemonic::Sb => {
            lemma_lex_port(name, ra, rb);
            lemma_parse_port(name, a, b);
        },
        _ => {
            lemma_lex_bare(name);
            lemma_parse_bare(name);
        },
    }
}

/// The round trip of the register forms. Take an instruction that names
/// registers only, written as the disassembler writes it. The lexer and
/// the parser read the text as that instruction, the assembler encodes it
/// as one word, and the disassembler renders that word as the text again.
pub proof fn law_source_round_trip(
    m: Mnemonic,
    a: u8,
    b: u8,
    c: u8,
    symbols: Map<Seq<char>, u16>,
    imm: u16,
)
    requires
        a < 16,
        b < 16,
        c < 16,
        register_form(m, a, b, c) is Some,
    ensures
        ({
            let (operands, text) = register_form(m, a, b, c)->Some_0;
            &&& tokens_of(text) matches Ok(tokens) && program_of(tokens) == Ok::<
                Seq<StatementView>,
                Seq<char>,
            >(seq![StatementView::Instruction { mnemonic: mnemonic_name(m), operands }])
            &&& mnemonic_of(uppercase_of(mnemonic_name(m))) == Some(m)
            &&& encode_spec(m, mnemonic_name(m), operands, symbols) matches Ok(
                EncodedView::Short(w),
            ) && instruction_text(w, imm) == text
        }),
{
    law_register_forms_are_read_back(m, a, b, c);
    law_register_forms_round_trip(m, a, b, c, mnemonic_name(m), symbols, imm);
    lemma_mnemonic_word(m);
}

/// The operands and the source text of an instruction in one of the forms
/// with a number: `ADDI Rd, imm` with a signed byte in decimal, `LIX Rd,
/// imm`, `JX imm` and `JALX imm` with a word in four hexadecimal digits,
/// `SWI imm`
/// with a byte in two, `LUI Rd, imm` with a multiple of 16 in two, and a
/// branch or `J` with an even byte distance in decimal. `J` is left out
/// where its word is one that the emulator executes as a jump through a
/// register.
pub open spec fn number_form(m: Mnemonic, rd: u8, imm: i32) -> Option<
    (Seq<OperandView>, Seq<char>),
> {
    match m {
        Mnemonic::Addi => if -128 <= imm <= 127 {
            Some(
                (
                    seq![OperandView::Register(rd), OperandView::Immediate(imm)],
                    reg_then_text("ADDI"@, rd as u16, dec_text(imm as int)),
                ),
            )
        } else {
            None
        },
        Mnemonic::Lix => if 0 <= imm <= 0xFFFF {
            Some(
                (
                    seq![OperandView::Register(rd), OperandView::Immediate(imm)],
                    reg_then_text("LIX"@, rd as u16, hex_text(imm as u16, 4)),
                ),
            )
        } else {
            None
        },
        Mnemonic::Jx => if 0 <= imm <= 0xFFFF {
            Some(
                (
                    seq![OperandView::Immediate(imm)],
                    word_then_text("JX"@, hex_text(imm as u16, 4)),
                ),
            )
        } else {
            None
        },
        Mnemonic::Jalx => if 0 <= imm <= 0xFFFF {
            Some(
                (
                    seq![OperandView::Immediate(imm)],
                    word_then_text("JALX"@, hex_text(imm as u16, 4)),
                ),
            )
        } else {
            None
        },
        Mnemonic::Swi => if 0 <= imm <= 255 {
            Some(
                (
                    seq![OperandView::Immediate(imm)],
                    word_then_text("SWI"@, hex_text(imm as u16, 2)),
                ),
            )
        } else {
            None
        },
        Mnemonic::Lui => if 0 <= imm <= 240 && imm % 16 == 0 {
            Some(
                (
                    seq![OperandView::Register(rd), OperandView::Immediate(imm)],
                    reg_then_text("LUI"@, rd as u16, hex_text(imm as u16, 2)),
                ),
            )
        } else {
            None
        },
        Mnemonic::J => if -4096 <= imm <= 4094 && imm % 2 == 0 && !is_register_jump(
            jump_word((imm / 2) as i32),
        ) {
            Some((seq![OperandView::Immediate(imm)], word_then_text("J"@, dec_text(imm as int))))
        } else {
            None
        },
        _ => if branch_condition(m) is Some && -256 <= imm <= 254 && imm % 2 == 0 {
            Some(
                (
                    seq![OperandView::Immediate(imm)],
                    word_then_text(mnemonic_name(m), dec_text(imm as int)),
                ),
            )
        } else {
            None
        },
    }
}

/// The round trip of the forms with a number. Take such an instruction,
/// written as the disassembler writes it. The lexer and the parser read
/// the text as that instruction, and the assembler encodes it as an
/// instruction that the disassembler renders as the text again.
#[verifier::rlimit(40)]
pub proof fn law_number_source_round_trip(
    m: Mnemonic,
    rd: u8,
    imm: i32,
    symbols: Map<Seq<char>, u16>,
)
    requires
        rd < 16,
        number_form(m, rd, imm) is Some,
    ensures
        ({
            let (operands, text) = number_form(m, rd, imm)->Some_0;
            &&& tokens_of(text) matches Ok(tokens) && program_of(tokens) == Ok::<
                Seq<StatementView>,
                Seq<char>,
            >(seq![StatementView::Instruction { mnemonic: mnemonic_name(m), operands }])
            &&& mnemonic_of(uppercase_of(mnemonic_name(m))) == Some(m)
            &&& match encode_spec(m, mnemonic_name(m), operands, symbols) {
                Ok(EncodedView::Short(w)) => instruction_text(w, 0) == text,
                Ok(EncodedView::Long(w, v)) => instruction_text(w, v) == text,
                _ => false,
            }
        }),
{
    let name = mnemonic_name(m);
    let ra = reg_text(rd as u16);
    lemma_mnemonic_word(m);
    lemma_register_word(rd);
    law_number_forms_round_trip(rd, imm, name, symbols);
    match m {
        Mnemonic::Addi => {
            lemma_lex_reg_then(name, ra, Piece::Decimal(imm));
            lemma_parse_reg_then(name, rd, imm);
        },
        Mnemonic::Lix => {
            lemma_lex_reg_then(name, ra, Piece::Hex(imm as u16, 4));
            lemma_parse_reg_then(name, rd, imm);
        },
        Mnemonic::Jx | Mnemonic::Jalx => {
            lemma_lex_word_then(name, Piece::Hex(imm as u16, 4));
            lemma_parse_word_then(name, imm);
        },
        Mnemonic::Swi => {
            lemma_lex_word_then(name, Piece::Hex(imm as u16, 2));
            lemma_parse_word_then(name, imm);
        },
        Mnemonic::Lui => {
            law_lui_form_round_trip(rd, imm, name, symbols);
            lemma_lex_reg_then(name, ra, Piece::Hex(imm as u16, 2));
            lemma_parse_reg_then(name, rd, imm);
        },
        Mnemonic::J => {
            law_jump_form_round_trip(imm, name, symbols);
            lemma_lex_word_then(name, Piece::Decimal(imm));
            lemma_parse_word_then(name, imm);
        },
        _ => {
            law_branch_forms_round_trip(m, imm, name, symbols);
            lemma_lex_word_then(name, Piece::Decimal(imm));
            lemma_parse_word_then(name, imm);
        },
    }
}

/// The tokens of `NAME Ra, N(Rb)`, where `N` is a number in decimal.
proof fn lemma_lex_displaced(name: Seq<char>, ra: Seq<char>, n: i32, rb: Seq<char>)
    requires
        is_word(name),
        is_word(ra),
        is_word(rb),
        n > i32::MIN,
    ensures
        tokens_of(name + " "@ + ra + ", "@ + dec_text(n as int) + "("@ + rb + ")"@) == Ok::<
            Seq<TokenView>,
            Seq<char>,
        >(
            seq![
                word_token(name),
                word_token(ra),
                TokenView::Comma,
                TokenView::Number(n),
                TokenView::LParen,
                word_token(rb),
                TokenView::RParen,
                TokenView::Eof,
            ],
        ),
{
    reveal_strlit(" ");
    reveal_strlit(", ");
    reveal_strlit("(");
    reveal_strlit(")");
    let end = Seq::<Piece>::empty();
    let q8 = after_piece(Piece::Close, end);
    lemma_after_piece(Piece::Close, end);
    let q7 = after_piece(Piece::Word(rb), q8);
    lemma_after_piece(Piece::Word(rb), q8);
    let q6 = after_piece(Piece::Open, q7);
    lemma_after_piece(Piece::Open, q7);
    let q5 = after_piece(Piece::Decimal(n), q6);
    lemma_after_piece(Piece::Decimal(n), q6);
    let q4 = after_piece(Piece::Space, q5);
    lemma_after_piece(Piece::Space, q5);
    let q3 = after_piece(Piece::Comma, q4);
    lemma_after_piece(Piece::Comma, q4);
    let q2 = after_piece(Piece::Word(ra), q3);
    lemma_after_piece(Piece::Word(ra), q3);
    let q1 = after_piece(Piece::Space, q2);
    lemma_after_piece(Piece::Space, q2);
    let q0 = after_piece(Piece::Word(name), q1);
    lemma_after_piece(Piece::Word(name), q1);
    law_spelled_tokens(q0, 1, Seq::empty());
    assert(spelled(q0) =~= name + " "@ + ra + ", "@ + dec_text(n as int) + "("@ + rb + ")"@);
    assert(Seq::<TokenView>::empty() + piece_tokens(q0) + seq![TokenView::Eof] =~= seq![
        word_token(name),
        word_token(ra),
        TokenView::Comma,
        TokenView::Number(n),
        TokenView::LParen,
        word_token(rb),
        TokenView::RParen,
        TokenView::Eof,
    ]);
}

/// The tokens of `NAME N(Ra), Rb`, where `N` is a number in decimal.
proof fn lemma_lex_displaced_first(name: Seq<char>, n: i32, ra: Seq<char>, rb: Seq<char>)
    requires
        is_word(name),
        is_word(ra),
        is_word(rb),
        n > i32::MIN,
    ensures
        tokens_of(name + " "@ + dec_text(n as int) + "("@ + ra + "), "@ + rb) == Ok::<
            Seq<TokenView>,
            Seq<char>,
        >(
            seq![
                word_token(name),
                TokenView::Number(n),
                TokenView::LParen,
                word_token(ra),
                TokenView::RParen,
                TokenView::Comma,
                word_token(rb),
                TokenView::Eof,
            ],
        ),
{
    reveal_strlit(" ");
    reveal_strlit("(");
    reveal_strlit("), ");
    let end = Seq::<Piece>::empty();
    let q6 = lemma_next_register(rb, end);
    let q5 = after_piece(Piece::Close, q6);
    lemma_after_piece(Piece::Close, q6);
    let q4 = after_piece(Piece::Word(ra), q5);
    lemma_after_piece(Piece::Word(ra), q5);
    let q3 = after_piece(Piece::Open, q4);
    lemma_after_piece(Piece::Open, q4);
    let q2 = after_piece(Piece::Decimal(n), q3);
    lemma_after_piece(Piece::Decimal(n), q3);
    let q1 = after_piece(Piece::Space, q2);
    lemma_after_piece(Piece::Space, q2);
    let q0 = after_piece(Piece::Word(name), q1);
    lemma_after_piece(Piece::Word(name), q1);
    law_spelled_tokens(q0, 1, Seq::empty());
    assert(spelled(q0) =~= name + " "@ + dec_text(n as int) + "("@ + ra + "), "@ + rb);
    assert(Seq::<TokenView>::empty() + piece_tokens(q0) + seq![TokenView::Eof] =~= seq![
        word_token(name),
        TokenView::Number(n),
        TokenView::LParen,
        word_token(ra),
        TokenView::RParen,
        TokenView::Comma,
        word_token(rb),
        TokenView::Eof,
    ]);
}

/// What the parser makes of the tokens of `NAME Ra, N(Rb)`.
proof fn lemma_parse_displaced(name: Seq<char>, a: u8, n: i32, b: u8)
    ensures
        program_of(
            seq![
                TokenView::Ident(name),
                TokenView::Register(a),
                TokenView::Comma,
                TokenView::Number(n),
                TokenView::LParen,
                TokenView::Register(b),
                TokenView::RParen,
                TokenView::Eof,
            ],
        ) == one_instruction(name, seq![OperandView::Register(a), OperandView::Indirect(b, n)]),
{
    let toks = seq![
        TokenView::Ident(name),
        TokenView::Register(a),
        TokenView::Comma,
        TokenView::Number(n),
        TokenView::LParen,
        TokenView::Register(b),
        TokenView::RParen,
        TokenView::Eof,
    ];
    let ops = seq![OperandView::Register(a), OperandView::Indirect(b, n)];
    reveal_with_fuel(statements_from, 3);
    reveal_with_fuel(operands_from, 5);
    reveal_with_fuel(newlines_end, 2);
    assert(Seq::<OperandView>::empty().push(OperandView::Register(a)).push(
        OperandView::Indirect(b, n),
    ) =~= ops);
    assert(operands_from(toks, 1, Seq::empty()) == Ok::<(Seq<OperandView>, int), Seq<char>>(
        (ops, 7),
    ));
    assert(Seq::<StatementView>::empty().push(
        StatementView::Instruction { mnemonic: uppercase_of(name), operands: ops },
    ) =~= one_instruction(name, ops)->Ok_0);
}

/// What the parser makes of the tokens of `NAME N(Ra), Rb`.
proof fn lemma_parse_displaced_first(name: Seq<char>, n: i32, a: u8, b: u8)
    ensures
        program_of(
            seq![
                TokenView::Ident(name),
                TokenView::Number(n),
                TokenView::LParen,
                TokenView::Register(a),
                TokenView::RParen,
                TokenView::Comma,
                TokenView::Register(b),
                TokenView::Eof,
            ],
        ) == one_instruction(name, seq![OperandView::Indirect(a, n), OperandView::Register(b)]),
{
    let toks = seq![
        TokenView::Ident(name),
        TokenView::Number(n),
        TokenView::LParen,
        TokenView::Register(a),
        TokenView::RParen,
        TokenView::Comma,
        TokenView::Register(b),
        TokenView::Eof,
    ];
    let ops = seq![OperandView::Indirect(a, n), OperandView::Register(b)];
    reveal_with_fuel(statements_from, 3);
    reveal_with_fuel(operands_from, 5);
    reveal_with_fuel(newlines_end, 2);
    assert(Seq::<OperandView>::empty().push(OperandView::Indirect(a, n)).push(
        OperandView::Register(b),
    ) =~= ops);
    assert(operands_from(toks, 1, Seq::empty()) == Ok::<(Seq<OperandView>, int), Seq<char>>(
        (ops, 7),
    ));
    assert(Seq::<StatementView>::empty().push(
        StatementView::Instruction { mnemonic: uppercase_of(name), operands: ops },
    ) =~= one_instruction(name, ops)->Ok_0);
}

/// The operands and the source text of a word load or store with a
/// displacement: `LW Rd, off(Rs)` and `SW off(Rs1), Rs2`, where `r` is the
/// register that is loaded or stored and `off` is one of the
/// displacements that the short forms have.
pub open spec fn displaced_form(m: Mnemonic, r: u8, base: u8, offset: i32) -> Option<
    (Seq<OperandView>, Seq<char>),
> {
    if offset == 2 || offset == 4 || offset == 6 || offset == -2 || offset == -4 {
        match m {
            Mnemonic::Lw => Some(
                (
                    seq![OperandView::Register(r), OperandView::Indirect(base, offset)],
                    displaced_text("LW"@, r as u16, dec_text(offset as int), base as u16),
                ),
            ),
            Mnemonic::Sw => Some(
                (
                    seq![OperandView::Indirect(base, offset), OperandView::Register(r)],
                    displaced_first_text("SW"@, dec_text(offset as int), base as u16, r as u16),
                ),
            ),
            _ => None,
        }
    } else {
        None
    }
}

/// The round trip of the word loads and stores with a displacement. Take
/// such an instruction, written as the disassembler writes it. The lexer
/// and the parser read the text as that instruction, and the assembler
/// encodes it as a word that the disassembler renders as the text again.
#[verifier::rlimit(40)]
pub proof fn law_displaced_source_round_trip(
    m: Mnemonic,
    r: u8,
    base: u8,
    offset: i32,
    symbols: Map<Seq<char>, u16>,
)
    requires
        r < 16,
        base < 16,
        displaced_form(m, r, base, offset) is Some,
    ensures
        ({
            let (operands, text) = displaced_form(m, r, base, offset)->Some_0;
            &&& tokens_of(text) matches Ok(tokens) && program_of(tokens) == Ok::<
                Seq<StatementView>,
                Seq<char>,
            >(seq![StatementView::Instruction { mnemonic: mnemonic_name(m), operands }])
            &&& mnemonic_of(uppercase_of(mnemonic_name(m))) == Some(m)
            &&& encode_spec(m, mnemonic_name(m), operands, symbols) matches Ok(
                EncodedView::Short(w),
            ) && instruction_text(w, 0) == text
        }),
{
    let name = mnemonic_name(m);
    let rr = reg_text(r as u16);
    let rb = reg_text(base as u16);
    lemma_mnemonic_word(m);
    lemma_register_word(r);
    lemma_register_word(base);
    law_displaced_forms_round_trip(r, base, offset, name, symbols);
    match m {
        Mnemonic::Lw => {
            lemma_lex_displaced(name, rr, offset, rb);
            lemma_parse_displaced(name, r, offset, base);
        },
        _ => {
            lemma_lex_displaced_first(name, offset, rb, rr);
            lemma_parse_displaced_first(name, offset, base, r);
        },
    }
}

} // verus!
