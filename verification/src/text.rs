//! Text helpers shared by the assembler and the debugger: rendering
//! integers as decimal and hexadecimal digits, comparing strings with
//! literals, and the few `std` string operations that are taken on
//! trust.

use vstd::prelude::*;
use vstd::string::*;

verus! {

/// The upper-case form that `str::to_uppercase` gives a string.
pub uninterp spec fn unicode_upper(s: Seq<char>) -> Seq<char>;

/// The lower-case form that `str::to_lowercase` gives a string.
pub uninterp spec fn unicode_lower(s: Seq<char>) -> Seq<char>;

/// Whether `char::is_alphabetic` holds of a character.
pub uninterp spec fn unicode_alphabetic(c: char) -> bool;

/// Whether `char::is_numeric` holds of a character.
pub uninterp spec fn unicode_numeric(c: char) -> bool;

/// Calls `str::to_uppercase`. The Unicode case mapping is not modelled:
/// the contract only names the result, a function of the argument alone.
#[verifier::external_body]
fn upper_unicode(s: &str) -> (r: String)
    ensures
        r@ == unicode_upper(s@),
{
    s.to_uppercase()
}

/// Calls `str::to_lowercase`. The Unicode case mapping is not modelled:
/// the contract only names the result, a function of the argument alone.
#[verifier::external_body]
fn lower_unicode(s: &str) -> (r: String)
    ensures
        r@ == unicode_lower(s@),
{
    s.to_lowercase()
}

/// Calls `char::is_alphabetic`. The Unicode property is not modelled: the
/// contract only names the result.
#[verifier::external_body]
fn alphabetic_unicode(c: char) -> (r: bool)
    ensures
        r == unicode_alphabetic(c),
{
    c.is_alphabetic()
}

/// Calls `char::is_alphanumeric`, which holds of the characters that are
/// alphabetic or numeric. The two Unicode properties are not modelled: the
/// contract only names them.
#[verifier::external_body]
fn alphanumeric_unicode(c: char) -> (r: bool)
    ensures
        r == (unicode_alphabetic(c) || unicode_numeric(c)),
{
    c.is_alphanumeric()
}

/// A character of the ASCII range.
pub open spec fn is_ascii_char(c: char) -> bool {
    c <= '\x7f'
}

/// A text of ASCII characters only.
pub open spec fn is_ascii_text(s: Seq<char>) -> bool {
    forall|i: int| 0 <= i < s.len() ==> is_ascii_char(#[trigger] s[i])
}

/// A letter of the ASCII range.
pub open spec fn is_ascii_letter(c: char) -> bool {
    ('a' <= c <= 'z') || ('A' <= c <= 'Z')
}

/// An alphabetic character: in the ASCII range a letter, beyond it what
/// Unicode calls alphabetic.
pub open spec fn is_alphabetic_char(c: char) -> bool {
    if is_ascii_char(c) {
        is_ascii_letter(c)
    } else {
        unicode_alphabetic(c)
    }
}

/// An alphabetic or numeric character: in the ASCII range a letter or a
/// digit, beyond it what Unicode calls alphabetic or numeric.
pub open spec fn is_alphanumeric_char(c: char) -> bool {
    if is_ascii_char(c) {
        is_ascii_letter(c) || ('0' <= c <= '9')
    } else {
        unicode_alphabetic(c) || unicode_numeric(c)
    }
}

/// An ASCII character in upper case.
pub open spec fn upper_char(c: char) -> char {
    if 'a' <= c <= 'z' {
        ((c as u8) - 32) as char
    } else {
        c
    }
}

/// An ASCII character in lower case.
pub open spec fn lower_char(c: char) -> char {
    if 'A' <= c <= 'Z' {
        ((c as u8) + 32) as char
    } else {
        c
    }
}

/// A text in upper case: an ASCII text letter by letter, any other text
/// as Unicode maps it.
pub open spec fn uppercase_of(s: Seq<char>) -> Seq<char> {
    if is_ascii_text(s) {
        Seq::new(s.len(), |i: int| upper_char(s[i]))
    } else {
        unicode_upper(s)
    }
}

/// A text in lower case: an ASCII text letter by letter, any other text
/// as Unicode maps it.
pub open spec fn lowercase_of(s: Seq<char>) -> Seq<char> {
    if is_ascii_text(s) {
        Seq::new(s.len(), |i: int| lower_char(s[i]))
    } else {
        unicode_lower(s)
    }
}

/// Whether a character is alphabetic.
pub fn char_is_alphabetic(c: char) -> (r: bool)
    ensures
        r == is_alphabetic_char(c),
{
    if c <= '\x7f' {
        (c >= 'a' && c <= 'z') || (c >= 'A' && c <= 'Z')
    } else {
        alphabetic_unicode(c)
    }
}

/// Whether a character is alphabetic or numeric.
pub fn char_is_alphanumeric(c: char) -> (r: bool)
    ensures
        r == is_alphanumeric_char(c),
{
    if c <= '\x7f' {
        (c >= 'a' && c <= 'z') || (c >= 'A' && c <= 'Z') || (c >= '0' && c <= '9')
    } else {
        alphanumeric_unicode(c)
    }
}

/// Whether every character is of the ASCII range.
fn all_ascii(v: &Vec<char>) -> (r: bool)
    ensures
        r == is_ascii_text(v@),
{
    let mut i: usize = 0;
    while i < v.len()
        invariant
            i <= v.len(),
            forall|j: int| 0 <= j < i ==> is_ascii_char(#[trigger] v@[j]),
        decreases v.len() - i,
    {
        if v[i] > '\x7f' {
            return false;
        }
        i += 1;
    }
    true
}

/// A text in upper case.
pub fn to_upper(s: &str) -> (r: String)
    ensures
        r@ == uppercase_of(s@),
{
    let v = to_chars(s);
    if !all_ascii(&v) {
        return upper_unicode(s);
    }
    let mut r = String::new();
    let mut i: usize = 0;
    while i < v.len()
        invariant
            i <= v.len(),
            is_ascii_text(v@),
            r@ == Seq::new(i as nat, |k: int| upper_char(v@[k])),
        decreases v.len() - i,
    {
        let c = v[i];
        assert(is_ascii_char(v@[i as int]));
        let u = if c >= 'a' && c <= 'z' {
            ((c as u8) - 32) as char
        } else {
            c
        };
        push_char(&mut r, u);
        i += 1;
        assert(r@ =~= Seq::new(i as nat, |k: int| upper_char(v@[k])));
    }
    assert(r@ =~= uppercase_of(s@));
    r
}

/// A text in lower case.
pub fn to_lower(s: &str) -> (r: String)
    ensures
        r@ == lowercase_of(s@),
{
    let v = to_chars(s);
    if !all_ascii(&v) {
        return lower_unicode(s);
    }
    let mut r = String::new();
    let mut i: usize = 0;
    while i < v.len()
        invariant
            i <= v.len(),
            is_ascii_text(v@),
            r@ == Seq::new(i as nat, |k: int| lower_char(v@[k])),
        decreases v.len() - i,
    {
        let c = v[i];
        assert(is_ascii_char(v@[i as int]));
        let l = if c >= 'A' && c <= 'Z' {
            ((c as u8) + 32) as char
        } else {
            c
        };
        push_char(&mut r, l);
        i += 1;
        assert(r@ =~= Seq::new(i as nat, |k: int| lower_char(v@[k])));
    }
    assert(r@ =~= lowercase_of(s@));
    r
}

/// Calls `String::push`, which appends one character to the string.
#[verifier::external_body]
pub(crate) fn push_char(s: &mut String, c: char)
    ensures
        final(s)@ == old(s)@.push(c),
{
    s.push(c)
}

/// The characters of a string, in order.
pub fn to_chars(s: &str) -> (v: Vec<char>)
    ensures
        v@ == s@,
{
    let mut v: Vec<char> = Vec::new();
    for c in it: s.chars()
        invariant
            v@ == it.seq().take(it.index() as int),
            it.seq() == s@,
    {
        v.push(c);
    }
    v
}

/// Whether the characters `v` spell the string `lit`.
pub fn spells(v: &Vec<char>, lit: &str) -> (r: bool)
    ensures
        r == (v@ == lit@),
{
    let w = to_chars(lit);
    if v.len() != w.len() {
        return false;
    }
    let mut i: usize = 0;
    while i < v.len()
        invariant
            i <= v.len(),
            v.len() == w.len(),
            w@ == lit@,
            forall|j: int| 0 <= j < i ==> v@[j] == w@[j],
        decreases v.len() - i,
    {
        if v[i] != w[i] {
            return false;
        }
        i += 1;
    }
    assert(v@ =~= lit@);
    true
}

/// Whether two strings hold the same characters.
pub fn str_eq(a: &str, b: &str) -> (r: bool)
    ensures
        r == (a@ == b@),
{
    let x = to_chars(a);
    spells(&x, b)
}

/// The character for one digit below sixteen, upper case.
pub open spec fn digit_char(d: int) -> char {
    if d < 10 {
        (48 + d) as char
    } else {
        (55 + d) as char
    }
}

/// Decimal digits of a natural number, most significant first, without
/// leading zeros.
pub open spec fn dec_digits(n: nat) -> Seq<char>
    decreases n,
{
    if n < 10 {
        seq![digit_char(n as int)]
    } else {
        dec_digits(n / 10).push(digit_char((n % 10) as int))
    }
}

/// Decimal text of an integer: a minus sign before negative numbers.
pub open spec fn dec_text(i: int) -> Seq<char> {
    if i < 0 {
        seq!['-'] + dec_digits((-i) as nat)
    } else {
        dec_digits(i as nat)
    }
}

/// Upper-case hexadecimal digits of a natural number, most significant
/// first, padded with zeros to at least `width` digits.
pub open spec fn hex_digits(v: nat, width: nat) -> Seq<char>
    decreases v + width,
{
    if v < 16 && width <= 1 {
        seq![digit_char(v as int)]
    } else {
        hex_digits(v / 16, if width > 0 { (width - 1) as nat } else { 0 }).push(
            digit_char((v % 16) as int),
        )
    }
}

fn digit(d: u64) -> (c: char)
    requires
        d < 16,
    ensures
        c == digit_char(d as int),
{
    if d < 10 {
        (48 + d as u8) as char
    } else {
        (55 + d as u8) as char
    }
}

/// Appends the decimal digits of `n`.
pub fn push_dec(s: &mut String, n: u64)
    ensures
        final(s)@ == old(s)@ + dec_digits(n as nat),
    decreases n,
{
    if n >= 10 {
        push_dec(s, n / 10);
    }
    push_char(s, digit(n % 10));
    assert(final(s)@ =~= old(s)@ + dec_digits(n as nat));
}

/// Appends the decimal text of `i`.
pub fn push_int(s: &mut String, i: i32)
    ensures
        final(s)@ == old(s)@ + dec_text(i as int),
{
    if i < 0 {
        push_char(s, '-');
        let m: u64 = if i == i32::MIN {
            0x8000_0000u64
        } else {
            (-i) as u64
        };
        push_dec(s, m);
    } else {
        push_dec(s, i as u64);
    }
    assert(final(s)@ =~= old(s)@ + dec_text(i as int));
}

/// Appends the hexadecimal digits of `v`, at least `width` of them.
pub fn push_hex(s: &mut String, v: u32, width: u32)
    ensures
        final(s)@ == old(s)@ + hex_digits(v as nat, width as nat),
    decreases v + width,
{
    if !(v < 16 && width <= 1) {
        push_hex(s, v / 16, if width > 0 { width - 1 } else { 0 });
    }
    push_char(s, digit((v % 16) as u64));
    assert(final(s)@ =~= old(s)@ + hex_digits(v as nat, width as nat));
}

} // verus!
