//! The lexer: assembly source text to tokens.

use crate::text::{
    char_is_alphabetic, char_is_alphanumeric, dec_digits, is_alphabetic_char, is_alphanumeric_char,
    lowercase_of, push_char, push_dec, spells, to_chars, to_lower, to_upper, uppercase_of,
};
use vstd::prelude::*;
use vstd::string::*;

verus! {

/// One token of assembly source.
#[derive(Debug, Clone, PartialEq)]
pub enum Token {
    /// A register, by its number.
    Register(u8),
    Number(i32),
    /// A label or symbol.
    Ident(String),
    StringLit(String),
    Comma,
    Colon,
    LParen,
    RParen,
    Plus,
    Minus,
    /// A directive, by its name in lower case without the dot.
    Directive(String),
    Newline,
    Eof,
}

/// Model of a [`Token`].
pub enum TokenView {
    Register(u8),
    Number(i32),
    Ident(Seq<char>),
    StringLit(Seq<char>),
    Comma,
    Colon,
    LParen,
    RParen,
    Plus,
    Minus,
    Directive(Seq<char>),
    Newline,
    Eof,
}

impl View for Token {
    type V = TokenView;

    open spec fn view(&self) -> TokenView {
        match *self {
            Token::Register(r) => TokenView::Register(r),
            Token::Number(n) => TokenView::Number(n),
            Token::Ident(s) => TokenView::Ident(s@),
            Token::StringLit(s) => TokenView::StringLit(s@),
            Token::Comma => TokenView::Comma,
            Token::Colon => TokenView::Colon,
            Token::LParen => TokenView::LParen,
            Token::RParen => TokenView::RParen,
            Token::Plus => TokenView::Plus,
            Token::Minus => TokenView::Minus,
            Token::Directive(s) => TokenView::Directive(s@),
            Token::Newline => TokenView::Newline,
            Token::Eof => TokenView::Eof,
        }
    }
}

/// The models of a sequence of tokens.
pub open spec fn token_views(v: Seq<Token>) -> Seq<TokenView> {
    v.map_values(|t: Token| t@)
}

/// The register that an upper-case name stands for: `R0` to `R15`, or one
/// of the aliases `ZERO`, `RA`, `SP`, `GP`, `A0`-`A3`, `T0`-`T3`, `S0`-`S3`.
pub open spec fn register_of(upper: Seq<char>) -> Option<u8> {
    if upper == "R0"@ || upper == "ZERO"@ {
        Some(0u8)
    } else if upper == "R1"@ || upper == "RA"@ {
        Some(1u8)
    } else if upper == "R2"@ || upper == "SP"@ {
        Some(2u8)
    } else if upper == "R3"@ || upper == "GP"@ {
        Some(3u8)
    } else if upper == "R4"@ || upper == "A0"@ {
        Some(4u8)
    } else if upper == "R5"@ || upper == "A1"@ {
        Some(5u8)
    } else if upper == "R6"@ || upper == "A2"@ {
        Some(6u8)
    } else if upper == "R7"@ || upper == "A3"@ {
        Some(7u8)
    } else if upper == "R8"@ || upper == "T0"@ {
        Some(8u8)
    } else if upper == "R9"@ || upper == "T1"@ {
        Some(9u8)
    } else if upper == "R10"@ || upper == "T2"@ {
        Some(10u8)
    } else if upper == "R11"@ || upper == "T3"@ {
        Some(11u8)
    } else if upper == "R12"@ || upper == "S0"@ {
        Some(12u8)
    } else if upper == "R13"@ || upper == "S1"@ {
        Some(13u8)
    } else if upper == "R14"@ || upper == "S2"@ {
        Some(14u8)
    } else if upper == "R15"@ || upper == "S3"@ {
        Some(15u8)
    } else {
        None
    }
}

/// Looks an upper-case name up among the register names.
pub fn lookup_register(upper: &str) -> (r: Option<u8>)
    ensures
        r == register_of(upper@),
{
    let v = to_chars(upper);
    if spells(&v, "R0") || spells(&v, "ZERO") {
        Some(0)
    } else if spells(&v, "R1") || spells(&v, "RA") {
        Some(1)
    } else if spells(&v, "R2") || spells(&v, "SP") {
        Some(2)
    } else if spells(&v, "R3") || spells(&v, "GP") {
        Some(3)
    } else if spells(&v, "R4") || spells(&v, "A0") {
        Some(4)
    } else if spells(&v, "R5") || spells(&v, "A1") {
        Some(5)
    } else if spells(&v, "R6") || spells(&v, "A2") {
        Some(6)
    } else if spells(&v, "R7") || spells(&v, "A3") {
        Some(7)
    } else if spells(&v, "R8") || spells(&v, "T0") {
        Some(8)
    } else if spells(&v, "R9") || spells(&v, "T1") {
        Some(9)
    } else if spells(&v, "R10") || spells(&v, "T2") {
        Some(10)
    } else if spells(&v, "R11") || spells(&v, "T3") {
        Some(11)
    } else if spells(&v, "R12") || spells(&v, "S0") {
        Some(12)
    } else if spells(&v, "R13") || spells(&v, "S1") {
        Some(13)
    } else if spells(&v, "R14") || spells(&v, "S2") {
        Some(14)
    } else if spells(&v, "R15") || spells(&v, "S3") {
        Some(15)
    } else {
        None
    }
}

/// The register that a name stands for, whatever its case.
pub fn parse_register(name: &str) -> (r: Option<u8>)
    ensures
        r == register_of(uppercase_of(name@)),
{
    let upper = to_upper(name);
    lookup_register(upper.as_str())
}

/// A decimal digit.
pub open spec fn is_digit(c: char) -> bool {
    '0' <= c <= '9'
}

/// A hexadecimal digit of either case.
pub open spec fn is_hex_digit(c: char) -> bool {
    is_digit(c) || ('a' <= c <= 'f') || ('A' <= c <= 'F')
}

/// The value of a hexadecimal digit.
pub open spec fn digit_value(c: char) -> int {
    if is_digit(c) {
        c as int - 48
    } else if 'a' <= c <= 'f' {
        c as int - 87
    } else {
        c as int - 55
    }
}

/// Why a run of digits is no number.
#[derive(Clone, Copy, Debug, PartialEq, Eq, Structural)]
pub enum NumberError {
    Empty,
    InvalidDigit,
    Overflow,
}

/// The message that goes with a [`NumberError`].
pub open spec fn number_error_text(e: NumberError) -> Seq<char> {
    match e {
        NumberError::Empty => "cannot parse integer from empty string"@,
        NumberError::InvalidDigit => "invalid digit found in string"@,
        NumberError::Overflow => "number too large to fit in target type"@,
    }
}

/// The value of the first `n` digits in the given base, read from the
/// left. The first digit that is not below the base, or that takes the
/// value beyond `i32::MAX`, ends the reading.
pub open spec fn digits_value(digits: Seq<char>, n: int, base: int) -> Result<int, NumberError>
    decreases n,
{
    if n <= 0 {
        Ok(0)
    } else {
        match digits_value(digits, n - 1, base) {
            Err(e) => Err(e),
            Ok(acc) => {
                let d = digit_value(digits[n - 1]);
                if d >= base {
                    Err(NumberError::InvalidDigit)
                } else if acc * base + d > i32::MAX {
                    Err(NumberError::Overflow)
                } else {
                    Ok(acc * base + d)
                }
            },
        }
    }
}

/// The number that a run of hexadecimal digits spells in the given base.
pub open spec fn parse_number(digits: Seq<char>, base: int) -> Result<i32, NumberError> {
    if digits.len() == 0 {
        Err(NumberError::Empty)
    } else {
        match digits_value(digits, digits.len() as int, base) {
            Ok(v) => Ok(v as i32),
            Err(e) => Err(e),
        }
    }
}

/// Where the blanks (spaces and tabs) from `pos` on end.
pub open spec fn blank_end(s: Seq<char>, pos: int) -> int
    decreases s.len() - pos,
{
    if 0 <= pos < s.len() && (s[pos] == ' ' || s[pos] == '\t') {
        blank_end(s, pos + 1)
    } else {
        pos
    }
}

/// Where the line that `pos` is in ends: at the next line feed or carriage
/// return, or at the end of the text.
pub open spec fn line_end(s: Seq<char>, pos: int) -> int
    decreases s.len() - pos,
{
    if 0 <= pos < s.len() && s[pos] != '\n' && s[pos] != '\r' {
        line_end(s, pos + 1)
    } else {
        pos
    }
}

/// Where a comment that starts at `pos` ends; `pos` itself if none starts
/// there.
pub open spec fn comment_end(s: Seq<char>, pos: int) -> int {
    if 0 <= pos < s.len() && s[pos] == ';' {
        line_end(s, pos)
    } else {
        pos
    }
}

/// Where the next token starts: after blanks, a comment and more blanks.
pub open spec fn token_start(s: Seq<char>, pos: int) -> int {
    blank_end(s, comment_end(s, blank_end(s, pos)))
}

/// A character that an identifier continues with.
pub open spec fn is_ident_char(c: char) -> bool {
    is_alphanumeric_char(c) || c == '_'
}

/// The identifier characters from `pos` on, appended to `acc`, and where
/// they end.
pub open spec fn ident_from(s: Seq<char>, pos: int, acc: Seq<char>) -> (Seq<char>, int)
    decreases s.len() - pos,
{
    if 0 <= pos < s.len() && is_ident_char(s[pos]) {
        ident_from(s, pos + 1, acc.push(s[pos]))
    } else {
        (acc, pos)
    }
}

/// The digits from `pos` on, appended to `acc`, and where they end. The
/// run takes hexadecimal digits and underscores; the underscores are left
/// out.
pub open spec fn digits_from(s: Seq<char>, pos: int, acc: Seq<char>) -> (Seq<char>, int)
    decreases s.len() - pos,
{
    if 0 <= pos < s.len() && (is_hex_digit(s[pos]) || s[pos] == '_') {
        digits_from(
            s,
            pos + 1,
            if s[pos] == '_' {
                acc
            } else {
                acc.push(s[pos])
            },
        )
    } else {
        (acc, pos)
    }
}

/// The base of the number at `pos` and where its digits start: `0x` and
/// `0b` announce base 16 and base 2.
pub open spec fn number_base(s: Seq<char>, pos: int) -> (int, int) {
    if 0 <= pos && pos + 1 < s.len() && s[pos] == '0' && (s[pos + 1] == 'x' || s[pos + 1] == 'X') {
        (16, pos + 2)
    } else if 0 <= pos && pos + 1 < s.len() && s[pos] == '0' && (s[pos + 1] == 'b' || s[pos + 1]
        == 'B') {
        (2, pos + 2)
    } else {
        (10, pos)
    }
}

/// The number at `pos` and where it ends.
pub open spec fn number_at(s: Seq<char>, pos: int) -> (Result<i32, NumberError>, int) {
    let (base, start) = number_base(s, pos);
    let (digits, end) = digits_from(s, start, Seq::empty());
    (parse_number(digits, base), end)
}

/// The character that an escape stands for.
pub open spec fn unescape(c: char) -> char {
    if c == 'n' {
        '\n'
    } else if c == 'r' {
        '\r'
    } else if c == 't' {
        '\t'
    } else if c == '0' {
        '\0'
    } else {
        c
    }
}

/// How the scan of a string literal ends.
pub enum StringEnd {
    /// The closing quote was found: the contents, and where the scan
    /// stopped.
    Closed(Seq<char>, int),
    /// The text ended inside the literal.
    Unterminated,
    /// The text ended after a backslash.
    UnterminatedEscape,
}

/// The scan of a string literal whose contents start at `pos`, with `acc`
/// read so far.
pub open spec fn string_from(s: Seq<char>, pos: int, acc: Seq<char>) -> StringEnd
    decreases s.len() - pos,
{
    if !(0 <= pos < s.len()) {
        StringEnd::Unterminated
    } else if s[pos] == '"' {
        StringEnd::Closed(acc, pos + 1)
    } else if s[pos] == '\\' {
        if pos + 1 < s.len() {
            string_from(s, pos + 2, acc.push(unescape(s[pos + 1])))
        } else {
            StringEnd::UnterminatedEscape
        }
    } else {
        string_from(s, pos + 1, acc.push(s[pos]))
    }
}

/// A line number as text.
pub open spec fn line_text(line: usize) -> Seq<char> {
    dec_digits(line as nat)
}

/// The message for a number that cannot be read.
pub open spec fn invalid_number(line: usize, e: NumberError) -> Seq<char> {
    "Invalid number at line "@ + line_text(line) + ": "@ + number_error_text(e)
}

/// The message for a character that starts no token.
pub open spec fn unexpected_character(c: char, line: usize) -> Seq<char> {
    "Unexpected character '"@ + seq![c] + "' at line "@ + line_text(line)
}

/// The line number after one more line.
pub open spec fn next_line(line: usize) -> usize {
    if line < usize::MAX {
        (line + 1) as usize
    } else {
        line
    }
}

/// A token, and where the lexer stands after it.
pub struct Lexed {
    pub token: TokenView,
    pub pos: int,
    pub line: usize,
}

/// The token that starts at `p`, where `p` is the start of a token.
pub open spec fn token_at(s: Seq<char>, p: int, line: usize) -> Result<Lexed, Seq<char>> {
    if !(0 <= p < s.len()) {
        Ok(Lexed { token: TokenView::Eof, pos: p, line })
    } else if s[p] == '\n' {
        Ok(Lexed { token: TokenView::Newline, pos: p + 1, line: next_line(line) })
    } else if s[p] == '\r' {
        Ok(
            Lexed {
                token: TokenView::Newline,
                pos: if p + 1 < s.len() && s[p + 1] == '\n' {
                    p + 2
                } else {
                    p + 1
                },
                line: next_line(line),
            },
        )
    } else if s[p] == ',' {
        Ok(Lexed { token: TokenView::Comma, pos: p + 1, line })
    } else if s[p] == ':' {
        Ok(Lexed { token: TokenView::Colon, pos: p + 1, line })
    } else if s[p] == '(' {
        Ok(Lexed { token: TokenView::LParen, pos: p + 1, line })
    } else if s[p] == ')' {
        Ok(Lexed { token: TokenView::RParen, pos: p + 1, line })
    } else if s[p] == '+' {
        Ok(Lexed { token: TokenView::Plus, pos: p + 1, line })
    } else if s[p] == '-' {
        if p + 1 < s.len() && is_digit(s[p + 1]) {
            match number_at(s, p + 1) {
                (Ok(n), end) => Ok(Lexed { token: TokenView::Number((-n) as i32), pos: end, line }),
                (Err(e), _) => Err(invalid_number(line, e)),
            }
        } else {
            Ok(Lexed { token: TokenView::Minus, pos: p + 1, line })
        }
    } else if s[p] == '.' {
        let (name, end) = ident_from(s, p + 1, Seq::empty());
        Ok(Lexed { token: TokenView::Directive(lowercase_of(name)), pos: end, line })
    } else if s[p] == '"' {
        match string_from(s, p + 1, Seq::empty()) {
            StringEnd::Closed(text, end) => Ok(
                Lexed { token: TokenView::StringLit(text), pos: end, line },
            ),
            StringEnd::Unterminated => Err("Unterminated string at line "@ + line_text(line)),
            StringEnd::UnterminatedEscape => Err(
                "Unterminated escape at line "@ + line_text(line),
            ),
        }
    } else if s[p] == '\'' {
        if p + 1 >= s.len() {
            Err("Unexpected end of character literal"@)
        } else if p + 2 < s.len() && s[p + 2] == '\'' {
            Ok(Lexed { token: TokenView::Number(s[p + 1] as i32), pos: p + 3, line })
        } else {
            Err("Expected closing quote at line "@ + line_text(line))
        }
    } else if is_digit(s[p]) {
        match number_at(s, p) {
            (Ok(n), end) => Ok(Lexed { token: TokenView::Number(n), pos: end, line }),
            (Err(e), _) => Err(invalid_number(line, e)),
        }
    } else if is_alphabetic_char(s[p]) || s[p] == '_' {
        let (name, end) = ident_from(s, p, Seq::empty());
        match register_of(uppercase_of(name)) {
            Some(r) => Ok(Lexed { token: TokenView::Register(r), pos: end, line }),
            None => Ok(Lexed { token: TokenView::Ident(name), pos: end, line }),
        }
    } else {
        Err(unexpected_character(s[p], line))
    }
}

/// The next token from `pos` on.
pub open spec fn next_token_spec(s: Seq<char>, pos: int, line: usize) -> Result<Lexed, Seq<char>> {
    token_at(s, token_start(s, pos), line)
}

/// The tokens from `pos` on, appended to `acc`, up to and with the `Eof`
/// that ends every token stream; or the message of the first error.
pub open spec fn tokens_from(s: Seq<char>, pos: int, line: usize, acc: Seq<TokenView>) -> Result<
    Seq<TokenView>,
    Seq<char>,
>
    decreases s.len() - pos,
{
    match next_token_spec(s, pos, line) {
        Err(msg) => Err(msg),
        Ok(l) => if l.token is Eof || l.pos <= pos || l.pos > s.len() {
            Ok(acc.push(l.token))
        } else {
            tokens_from(s, l.pos, l.line, acc.push(l.token))
        },
    }
}

/// The tokens of a source text.
pub open spec fn tokens_of(source: Seq<char>) -> Result<Seq<TokenView>, Seq<char>> {
    tokens_from(source, 0, 1, Seq::empty())
}

/// Where a lexer stands in its text.
pub struct LexerState {
    pub chars: Seq<char>,
    pub pos: int,
    pub line: usize,
}

/// A lexer over one source text.
pub struct Lexer {
    chars: Vec<char>,
    pos: usize,
    line: usize,
}

impl View for Lexer {
    type V = LexerState;

    closed spec fn view(&self) -> LexerState {
        LexerState { chars: self.chars@, pos: self.pos as int, line: self.line }
    }
}

/// The blanks end inside the text, not before `pos`.
pub proof fn lemma_blank_end(s: Seq<char>, pos: int)
    requires
        0 <= pos <= s.len(),
    ensures
        pos <= blank_end(s, pos) <= s.len(),
    decreases s.len() - pos,
{
    if pos < s.len() && (s[pos] == ' ' || s[pos] == '\t') {
        lemma_blank_end(s, pos + 1);
    }
}

/// The line ends inside the text, not before `pos`.
pub proof fn lemma_line_end(s: Seq<char>, pos: int)
    requires
        0 <= pos <= s.len(),
    ensures
        pos <= line_end(s, pos) <= s.len(),
    decreases s.len() - pos,
{
    if pos < s.len() && s[pos] != '\n' && s[pos] != '\r' {
        lemma_line_end(s, pos + 1);
    }
}

/// An identifier ends inside the text, not before `pos`.
pub proof fn lemma_ident_from(s: Seq<char>, pos: int, acc: Seq<char>)
    requires
        0 <= pos <= s.len(),
    ensures
        pos <= ident_from(s, pos, acc).1 <= s.len(),
    decreases s.len() - pos,
{
    if pos < s.len() && is_ident_char(s[pos]) {
        lemma_ident_from(s, pos + 1, acc.push(s[pos]));
    }
}

/// A run of digits ends inside the text, not before `pos`.
pub proof fn lemma_digits_from(s: Seq<char>, pos: int, acc: Seq<char>)
    requires
        0 <= pos <= s.len(),
    ensures
        pos <= digits_from(s, pos, acc).1 <= s.len(),
    decreases s.len() - pos,
{
    if pos < s.len() && (is_hex_digit(s[pos]) || s[pos] == '_') {
        lemma_digits_from(
            s,
            pos + 1,
            if s[pos] == '_' {
                acc
            } else {
                acc.push(s[pos])
            },
        );
    }
}

/// A string literal that is closed ends inside the text, after `pos`.
pub proof fn lemma_string_from(s: Seq<char>, pos: int, acc: Seq<char>)
    requires
        0 <= pos <= s.len(),
    ensures
        string_from(s, pos, acc) matches StringEnd::Closed(_, end) ==> pos < end <= s.len(),
    decreases s.len() - pos,
{
    if pos < s.len() && s[pos] != '"' {
        if s[pos] == '\\' {
            if pos + 1 < s.len() {
                lemma_string_from(s, pos + 2, acc.push(unescape(s[pos + 1])));
            }
        } else {
            lemma_string_from(s, pos + 1, acc.push(s[pos]));
        }
    }
}

/// Every token but `Eof` takes the lexer forward, and none takes it out of
/// the text.
#[verifier::rlimit(40)]
pub proof fn lemma_token_advances(s: Seq<char>, pos: int, line: usize)
    requires
        0 <= pos <= s.len(),
    ensures
        next_token_spec(s, pos, line) matches Ok(l) ==> pos <= l.pos <= s.len() && (l.token
            !is Eof ==> pos < l.pos),
{
    lemma_blank_end(s, pos);
    let a = blank_end(s, pos);
    if a < s.len() && s[a] == ';' {
        lemma_line_end(s, a);
    }
    let b = comment_end(s, a);
    lemma_blank_end(s, b);
    let p = token_start(s, pos);
    if p < s.len() {
        if s[p] == '-' {
            if p + 1 < s.len() && is_digit(s[p + 1]) {
                lemma_digits_from(s, number_base(s, p + 1).1, Seq::empty());
            }
        } else if s[p] == '.' {
            lemma_ident_from(s, p + 1, Seq::empty());
        } else if s[p] == '"' {
            lemma_string_from(s, p + 1, Seq::empty());
        } else if is_digit(s[p]) {
            let start = number_base(s, p).1;
            lemma_digits_from(s, start, Seq::empty());
            if start == p {
                lemma_digits_from(s, p + 1, Seq::<char>::empty().push(s[p]));
            }
        } else if is_alphabetic_char(s[p]) || s[p] == '_' {
            lemma_ident_from(s, p + 1, Seq::<char>::empty().push(s[p]));
        }
    }
}

fn hex_value(c: char) -> (d: u64)
    requires
        is_hex_digit(c),
    ensures
        d == digit_value(c),
        d < 16,
{
    if c >= '0' && c <= '9' {
        (c as u32 - 48) as u64
    } else if c >= 'a' && c <= 'f' {
        (c as u32 - 87) as u64
    } else {
        (c as u32 - 55) as u64
    }
}

/// Reads a run of hexadecimal digits as a number in base 2, 10 or 16.
pub fn parse_radix(digits: &Vec<char>, base: u64) -> (r: Result<i32, NumberError>)
    requires
        base == 2 || base == 10 || base == 16,
        forall|i: int| 0 <= i < digits.len() ==> is_hex_digit(#[trigger] digits@[i]),
    ensures
        r == parse_number(digits@, base as int),
        r matches Ok(n) ==> n >= 0,
{
    if digits.len() == 0 {
        return Err(NumberError::Empty);
    }
    let mut acc: u64 = 0;
    let mut i: usize = 0;
    while i < digits.len()
        invariant
            i <= digits.len(),
            base == 2 || base == 10 || base == 16,
            acc <= i32::MAX,
            forall|j: int| 0 <= j < digits.len() ==> is_hex_digit(#[trigger] digits@[j]),
            digits_value(digits@, i as int, base as int) == Ok::<int, NumberError>(acc as int),
        decreases digits.len() - i,
    {
        let d = hex_value(digits[i]);
        if d >= base {
            proof {
                lemma_digits_error_stays(digits@, i as int + 1, digits.len() as int, base as int);
            }
            return Err(NumberError::InvalidDigit);
        }
        assert(acc * base <= 0x7FFF_FFFF * 16) by (nonlinear_arith)
            requires
                acc <= 0x7FFF_FFFF,
                base <= 16,
        ;
        let next = acc * base + d;
        if next > 0x7FFF_FFFF {
            proof {
                lemma_digits_error_stays(digits@, i as int + 1, digits.len() as int, base as int);
            }
            return Err(NumberError::Overflow);
        }
        acc = next;
        i += 1;
    }
    Ok(acc as i32)
}

/// Once the reading of digits has failed, more digits do not change the
/// error.
proof fn lemma_digits_error_stays(digits: Seq<char>, k: int, n: int, base: int)
    requires
        0 <= k <= n,
        digits_value(digits, k, base) is Err,
    ensures
        digits_value(digits, n, base) == digits_value(digits, k, base),
    decreases n - k,
{
    if k < n {
        lemma_digits_error_stays(digits, k, n - 1, base);
    }
}

fn number_error_message(line: usize, e: NumberError) -> (s: String)
    ensures
        s@ == invalid_number(line, e),
{
    let mut s = String::from_str("Invalid number at line ");
    push_dec(&mut s, line as u64);
    s.append(": ");
    match e {
        NumberError::Empty => s.append("cannot parse integer from empty string"),
        NumberError::InvalidDigit => s.append("invalid digit found in string"),
        NumberError::Overflow => s.append("number too large to fit in target type"),
    }
    s
}

fn at_line(prefix: &str, line: usize) -> (s: String)
    ensures
        s@ == prefix@ + line_text(line),
{
    let mut s = String::from_str(prefix);
    push_dec(&mut s, line as u64);
    s
}

fn is_hex_char(c: char) -> (r: bool)
    ensures
        r == is_hex_digit(c),
{
    (c >= '0' && c <= '9') || (c >= 'a' && c <= 'f') || (c >= 'A' && c <= 'F')
}

impl Lexer {
    #[verifier::type_invariant]
    spec fn in_bounds(self) -> bool {
        self.pos <= self.chars.len()
    }

    /// A lexer at the start of `input`, on line 1.
    pub fn new(input: &str) -> (lexer: Lexer)
        ensures
            lexer@ == (LexerState { chars: input@, pos: 0, line: 1 }),
    {
        Lexer { chars: to_chars(input), pos: 0, line: 1 }
    }

    /// Reads every token up to the end of the text. The result ends with
    /// `Eof`, and is what [`tokens_from`] gives from where the lexer stands.
    pub fn tokenize(&mut self) -> (r: Result<Vec<Token>, String>)
        ensures
            final(self)@.chars == old(self)@.chars,
            match tokens_from(old(self)@.chars, old(self)@.pos, old(self)@.line, Seq::empty()) {
                Ok(tokens) => r matches Ok(v) && token_views(v@) == tokens,
                Err(msg) => r matches Err(e) && e@ == msg,
            },
    {
        let mut tokens: Vec<Token> = Vec::new();
        proof {
            use_type_invariant(&*self);
        }
        assert(token_views(tokens@) =~= Seq::empty());
        loop
            invariant
                self.pos <= self.chars.len(),
                self@.chars == old(self)@.chars,
                tokens_from(old(self)@.chars, old(self)@.pos, old(self)@.line, Seq::empty())
                    == tokens_from(self@.chars, self@.pos, self@.line, token_views(tokens@)),
            decreases self.chars.len() - self.pos,
        {
            proof {
                lemma_token_advances(self@.chars, self@.pos, self@.line);
            }
            let ghost seen = token_views(tokens@);
            match self.next_token() {
                Err(e) => {
                    return Err(e);
                },
                Ok(token) => {
                    let done = matches!(token, Token::Eof);
                    tokens.push(token);
                    assert(token_views(tokens@) =~= seen.push(token@));
                    proof {
                        use_type_invariant(&*self);
                    }
                    if done {
                        return Ok(tokens);
                    }
                },
            }
        }
    }

    /// Reads the next token.
    #[verifier::rlimit(40)]
    fn next_token(&mut self) -> (r: Result<Token, String>)
        ensures
            final(self)@.chars == old(self)@.chars,
            match next_token_spec(old(self)@.chars, old(self)@.pos, old(self)@.line) {
                Ok(l) => r matches Ok(t) && t@ == l.token && final(self)@.pos == l.pos && final(self)@.line == l.line,
                Err(msg) => r matches Err(e) && e@ == msg,
            },
    {
        self.skip_whitespace();
        self.skip_comment();
        self.skip_whitespace();
        proof {
            use_type_invariant(&*self);
        }
        let c = match self.peek() {
            None => {
                return Ok(Token::Eof);
            },
            Some(c) => c,
        };
        if c == '\n' {
            self.advance();
            self.line = self.line.saturating_add(1);
            Ok(Token::Newline)
        } else if c == '\r' {
            self.advance();
            if self.peek_is('\n') {
                self.advance();
            }
            self.line = self.line.saturating_add(1);
            Ok(Token::Newline)
        } else if c == ',' {
            self.advance();
            Ok(Token::Comma)
        } else if c == ':' {
            self.advance();
            Ok(Token::Colon)
        } else if c == '(' {
            self.advance();
            Ok(Token::LParen)
        } else if c == ')' {
            self.advance();
            Ok(Token::RParen)
        } else if c == '+' {
            self.advance();
            Ok(Token::Plus)
        } else if c == '-' {
            self.advance();
            let digit_follows = match self.peek() {
                Some(d) => d >= '0' && d <= '9',
                None => false,
            };
            if digit_follows {
                match self.read_number() {
                    Ok(num) => Ok(Token::Number(-num)),
                    Err(e) => Err(e),
                }
            } else {
                Ok(Token::Minus)
            }
        } else if c == '.' {
            self.advance();
            let name = self.read_identifier();
            Ok(Token::Directive(to_lower(name.as_str())))
        } else if c == '"' {
            self.advance();
            match self.read_string() {
                Ok(text) => Ok(Token::StringLit(text)),
                Err(e) => Err(e),
            }
        } else if c == '\'' {
            self.advance();
            match self.advance() {
                None => Err(String::from_str("Unexpected end of character literal")),
                Some(ch) => {
                    if self.peek_is('\'') {
                        self.advance();
                        Ok(Token::Number(ch as i32))
                    } else {
                        Err(at_line("Expected closing quote at line ", self.line))
                    }
                },
            }
        } else if c >= '0' && c <= '9' {
            match self.read_number() {
                Ok(num) => Ok(Token::Number(num)),
                Err(e) => Err(e),
            }
        } else if char_is_alphabetic(c) || c == '_' {
            let ident = self.read_identifier();
            match parse_register(ident.as_str()) {
                Some(reg) => Ok(Token::Register(reg)),
                None => Ok(Token::Ident(ident)),
            }
        } else {
            let mut s = String::from_str("Unexpected character '");
            push_char(&mut s, c);
            s.append("' at line ");
            push_dec(&mut s, self.line as u64);
            assert(s@ =~= unexpected_character(c, self.line));
            Err(s)
        }
    }

    /// The character the lexer stands at, if any.
    fn peek(&self) -> (c: Option<char>)
        ensures
            c == if self@.pos < self@.chars.len() {
                Some(self@.chars[self@.pos])
            } else {
                None::<char>
            },
            0 <= self@.pos <= self@.chars.len(),
    {
        proof {
            use_type_invariant(self);
        }
        if self.pos < self.chars.len() {
            Some(self.chars[self.pos])
        } else {
            None
        }
    }

    /// Whether the lexer stands at the character `c`.
    fn peek_is(&self, c: char) -> (r: bool)
        ensures
            r == (self@.pos < self@.chars.len() && self@.chars[self@.pos] == c),
            0 <= self@.pos <= self@.chars.len(),
    {
        match self.peek() {
            Some(d) => d == c,
            None => false,
        }
    }

    /// Steps over the character the lexer stands at, if any, and returns
    /// it.
    fn advance(&mut self) -> (c: Option<char>)
        ensures
            c == if old(self)@.pos < old(self)@.chars.len() {
                Some(old(self)@.chars[old(self)@.pos])
            } else {
                None::<char>
            },
            final(self)@ == (LexerState {
                pos: if old(self)@.pos < old(self)@.chars.len() {
                    old(self)@.pos + 1
                } else {
                    old(self)@.pos
                },
                ..old(self)@
            }),
            0 <= final(self)@.pos <= final(self)@.chars.len(),
    {
        proof {
            use_type_invariant(&*self);
        }
        if self.pos < self.chars.len() {
            let c = self.chars[self.pos];
            self.pos = self.pos + 1;
            Some(c)
        } else {
            None
        }
    }

    /// Steps over spaces and tabs.
    fn skip_whitespace(&mut self)
        ensures
            final(self)@ == (LexerState {
                pos: blank_end(old(self)@.chars, old(self)@.pos),
                ..old(self)@
            }),
    {
        proof {
            use_type_invariant(&*self);
        }
        while self.pos < self.chars.len() && (self.chars[self.pos] == ' ' || self.chars[self.pos]
            == '\t')
            invariant
                self.pos <= self.chars.len(),
                self.chars == old(self).chars,
                self.line == old(self).line,
                blank_end(self@.chars, self@.pos) == blank_end(old(self)@.chars, old(self)@.pos),
            decreases self.chars.len() - self.pos,
        {
            self.pos = self.pos + 1;
        }
    }

    /// Steps over a comment, if one starts here: up to the end of the line.
    fn skip_comment(&mut self)
        ensures
            final(self)@ == (LexerState {
                pos: comment_end(old(self)@.chars, old(self)@.pos),
                ..old(self)@
            }),
    {
        proof {
            use_type_invariant(&*self);
        }
        if self.pos < self.chars.len() && self.chars[self.pos] == ';' {
            while self.pos < self.chars.len() && self.chars[self.pos] != '\n'
                && self.chars[self.pos] != '\r'
                invariant
                    self.pos <= self.chars.len(),
                    self.chars == old(self).chars,
                    self.line == old(self).line,
                    line_end(self@.chars, self@.pos) == line_end(
                        old(self)@.chars,
                        old(self)@.pos,
                    ),
                decreases self.chars.len() - self.pos,
            {
                self.pos = self.pos + 1;
            }
        }
    }

    /// Reads the identifier characters from here on.
    fn read_identifier(&mut self) -> (ident: String)
        ensures
            final(self)@ == (LexerState {
                pos: ident_from(old(self)@.chars, old(self)@.pos, Seq::empty()).1,
                ..old(self)@
            }),
            ident@ == ident_from(old(self)@.chars, old(self)@.pos, Seq::empty()).0,
    {
        proof {
            use_type_invariant(&*self);
        }
        let mut ident = String::new();
        while self.pos < self.chars.len() && (char_is_alphanumeric(self.chars[self.pos])
            || self.chars[self.pos] == '_')
            invariant
                self.pos <= self.chars.len(),
                self.chars == old(self).chars,
                self.line == old(self).line,
                ident_from(self@.chars, self@.pos, ident@) == ident_from(
                    old(self)@.chars,
                    old(self)@.pos,
                    Seq::empty(),
                ),
            decreases self.chars.len() - self.pos,
        {
            push_char(&mut ident, self.chars[self.pos]);
            self.pos = self.pos + 1;
        }
        ident
    }

    /// Reads the number that starts here.
    fn read_number(&mut self) -> (r: Result<i32, String>)
        ensures
            final(self)@.chars == old(self)@.chars,
            final(self)@.line == old(self)@.line,
            match number_at(old(self)@.chars, old(self)@.pos) {
                (Ok(n), end) => r == Ok::<i32, String>(n) && final(self)@.pos == end && n >= 0,
                (Err(e), _) => r matches Err(msg) && msg@ == invalid_number(old(self)@.line, e),
            },
    {
        proof {
            use_type_invariant(&*self);
        }
        let mut base: u64 = 10;
        if self.pos < self.chars.len() && self.chars[self.pos] == '0' && self.pos + 1
            < self.chars.len() {
            let c = self.chars[self.pos + 1];
            if c == 'x' || c == 'X' {
                base = 16;
                self.pos = self.pos + 2;
            } else if c == 'b' || c == 'B' {
                base = 2;
                self.pos = self.pos + 2;
            }
        }
        let mut digits: Vec<char> = Vec::new();
        let ghost start = self@.pos;
        while self.pos < self.chars.len() && (is_hex_char(self.chars[self.pos])
            || self.chars[self.pos] == '_')
            invariant
                self.pos <= self.chars.len(),
                self.chars == old(self).chars,
                self.line == old(self).line,
                forall|i: int| 0 <= i < digits.len() ==> is_hex_digit(#[trigger] digits@[i]),
                digits_from(self@.chars, self@.pos, digits@) == digits_from(
                    self@.chars,
                    start,
                    Seq::empty(),
                ),
            decreases self.chars.len() - self.pos,
        {
            let c = self.chars[self.pos];
            if c != '_' {
                digits.push(c);
            }
            self.pos = self.pos + 1;
        }
        match parse_radix(&digits, base) {
            Ok(n) => Ok(n),
            Err(e) => Err(number_error_message(self.line, e)),
        }
    }

    /// Reads the contents of a string literal up to its closing quote.
    fn read_string(&mut self) -> (r: Result<String, String>)
        ensures
            final(self)@.chars == old(self)@.chars,
            final(self)@.line == old(self)@.line,
            match string_from(old(self)@.chars, old(self)@.pos, Seq::empty()) {
                StringEnd::Closed(text, end) => r matches Ok(t) && t@ == text && final(self)@.pos
                    == end,
                StringEnd::Unterminated => r matches Err(msg) && msg@
                    == "Unterminated string at line "@ + line_text(old(self)@.line),
                StringEnd::UnterminatedEscape => r matches Err(msg) && msg@
                    == "Unterminated escape at line "@ + line_text(old(self)@.line),
            },
    {
        proof {
            use_type_invariant(&*self);
        }
        let mut text = String::new();
        loop
            invariant
                self.pos <= self.chars.len(),
                self.chars == old(self).chars,
                self.line == old(self).line,
                string_from(self@.chars, self@.pos, text@) == string_from(
                    old(self)@.chars,
                    old(self)@.pos,
                    Seq::empty(),
                ),
            decreases self.chars.len() - self.pos,
        {
            if self.pos >= self.chars.len() {
                return Err(at_line("Unterminated string at line ", self.line));
            }
            let c = self.chars[self.pos];
            if c == '"' {
                self.pos = self.pos + 1;
                return Ok(text);
            } else if c == '\\' {
                if self.pos + 1 >= self.chars.len() {
                    return Err(at_line("Unterminated escape at line ", self.line));
                }
                let e = self.chars[self.pos + 1];
                let plain = if e == 'n' {
                    '\n'
                } else if e == 'r' {
                    '\r'
                } else if e == 't' {
                    '\t'
                } else if e == '0' {
                    '\0'
                } else {
                    e
                };
                push_char(&mut text, plain);
                self.pos = self.pos + 2;
            } else {
                push_char(&mut text, c);
                self.pos = self.pos + 1;
            }
        }
    }
}

} // verus!
