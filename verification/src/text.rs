//! Character and string helpers shared by validation, naming and emission:
//! ASCII case mapping, identifier character classes, decimal rendering and
//! source-literal escaping. Every helper has an exact specification over
//! `Seq<char>`, so the callers' outputs are pinned character by character.

use vstd::prelude::*;
use vstd::string::*;

verus! {

/// Relies on String::push from std: appends exactly one character at the end.
#[verifier::external_body]
pub(crate) fn push_char(s: &mut String, c: char)
    ensures
        final(s)@ == old(s)@.push(c),
{
    s.push(c);
}

pub open spec fn is_ascii_lower(c: char) -> bool {
    'a' <= c && c <= 'z'
}

pub open spec fn is_ascii_upper(c: char) -> bool {
    'A' <= c && c <= 'Z'
}

pub open spec fn is_ascii_digit(c: char) -> bool {
    '0' <= c && c <= '9'
}

pub open spec fn is_ascii_alpha(c: char) -> bool {
    is_ascii_lower(c) || is_ascii_upper(c)
}

/// Word characters for name casing: ASCII letters and digits. Anything else
/// (underscores, hyphens, spaces, non-ASCII) separates words.
pub open spec fn is_word_char(c: char) -> bool {
    is_ascii_alpha(c) || is_ascii_digit(c)
}

pub open spec fn upper_char(c: char) -> char {
    if is_ascii_lower(c) {
        ((c as u8) - 32) as char
    } else {
        c
    }
}

pub fn exec_upper_char(c: char) -> (r: char)
    ensures
        r == upper_char(c),
{
    if 'a' <= c && c <= 'z' {
        ((c as u8) - 32) as char
    } else {
        c
    }
}

pub fn exec_word_char(c: char) -> (r: bool)
    ensures
        r == is_word_char(c),
{
    ('a' <= c && c <= 'z') || ('A' <= c && c <= 'Z') || ('0' <= c && c <= '9')
}

pub open spec fn upper_upto(s: Seq<char>, i: int) -> Seq<char>
    decreases i,
{
    if i <= 0 {
        Seq::empty()
    } else {
        upper_upto(s, i - 1).push(upper_char(s[i - 1]))
    }
}

/// The ASCII upper-casing of a character sequence; non-ASCII characters are
/// kept as they are.
pub open spec fn upper_seq(s: Seq<char>) -> Seq<char> {
    upper_upto(s, s.len() as int)
}

pub fn ascii_uppercase(s: &str) -> (r: String)
    ensures
        r@ == upper_seq(s@),
{
    let n = s.unicode_len();
    let mut out = String::new();
    let mut i: usize = 0;
    while i < n
        invariant
            i <= n,
            n == s@.len(),
            out@ == upper_upto(s@, i as int),
        decreases n - i,
    {
        let c = s.get_char(i);
        push_char(&mut out, exec_upper_char(c));
        i = i + 1;
    }
    out
}

pub open spec fn digit_char(d: nat) -> char {
    if d == 0 {
        '0'
    } else if d == 1 {
        '1'
    } else if d == 2 {
        '2'
    } else if d == 3 {
        '3'
    } else if d == 4 {
        '4'
    } else if d == 5 {
        '5'
    } else if d == 6 {
        '6'
    } else if d == 7 {
        '7'
    } else if d == 8 {
        '8'
    } else {
        '9'
    }
}

pub fn exec_digit_char(d: u64) -> (r: char)
    requires
        d < 10,
    ensures
        r == digit_char(d as nat),
{
    if d == 0 {
        '0'
    } else if d == 1 {
        '1'
    } else if d == 2 {
        '2'
    } else if d == 3 {
        '3'
    } else if d == 4 {
        '4'
    } else if d == 5 {
        '5'
    } else if d == 6 {
        '6'
    } else if d == 7 {
        '7'
    } else if d == 8 {
        '8'
    } else {
        '9'
    }
}

/// Decimal digits of `n`, most significant first.
pub open spec fn dec_digits(n: nat) -> Seq<char>
    decreases n,
{
    if n < 10 {
        seq![digit_char(n)]
    } else {
        dec_digits(n / 10).push(digit_char(n % 10))
    }
}

pub fn push_u64(out: &mut String, n: u64)
    ensures
        final(out)@ == old(out)@ + dec_digits(n as nat),
    decreases n,
{
    if n >= 10 {
        push_u64(out, n / 10);
        push_char(out, exec_digit_char(n % 10));
        assert(out@ =~= old(out)@ + dec_digits(n as nat));
    } else {
        push_char(out, exec_digit_char(n));
        assert(out@ =~= old(out)@ + dec_digits(n as nat));
    }
}

/// How one character appears inside a generated string literal.
pub open spec fn str_piece(c: char) -> Seq<char> {
    if c == '"' || c == '\\' {
        seq!['\\', c]
    } else {
        seq![c]
    }
}

pub open spec fn esc_str_upto(s: Seq<char>, i: int) -> Seq<char>
    decreases i,
{
    if i <= 0 {
        Seq::empty()
    } else {
        esc_str_upto(s, i - 1) + str_piece(s[i - 1])
    }
}

/// The body of a generated string literal: quotes and backslashes are
/// escaped, every other character is kept verbatim.
pub open spec fn esc_str(s: Seq<char>) -> Seq<char> {
    esc_str_upto(s, s.len() as int)
}

pub fn push_escaped_str(out: &mut String, s: &str)
    ensures
        final(out)@ == old(out)@ + esc_str(s@),
{
    let n = s.unicode_len();
    let mut i: usize = 0;
    while i < n
        invariant
            i <= n,
            n == s@.len(),
            out@ == old(out)@ + esc_str_upto(s@, i as int),
        decreases n - i,
    {
        let c = s.get_char(i);
        if c == '"' || c == '\\' {
            push_char(out, '\\');
            push_char(out, c);
        } else {
            push_char(out, c);
        }
        i = i + 1;
        assert(out@ =~= old(out)@ + esc_str_upto(s@, i as int));
    }
}

/// How one character appears inside a generated character literal.
pub open spec fn char_piece(c: char) -> Seq<char> {
    if c == '\\' {
        seq!['\\', '\\']
    } else if c == '\'' {
        seq!['\\', '\'']
    } else if c == '\n' {
        seq!['\\', 'n']
    } else if c == '\r' {
        seq!['\\', 'r']
    } else if c == '\t' {
        seq!['\\', 't']
    } else {
        seq![c]
    }
}

pub fn push_escaped_char(out: &mut String, c: char)
    ensures
        final(out)@ == old(out)@ + char_piece(c),
{
    if c == '\\' {
        push_char(out, '\\');
        push_char(out, '\\');
    } else if c == '\'' {
        push_char(out, '\\');
        push_char(out, '\'');
    } else if c == '\n' {
        push_char(out, '\\');
        push_char(out, 'n');
    } else if c == '\r' {
        push_char(out, '\\');
        push_char(out, 'r');
    } else if c == '\t' {
        push_char(out, '\\');
        push_char(out, 't');
    } else {
        push_char(out, c);
    }
    assert(out@ =~= old(out)@ + char_piece(c));
}

/// The contribution of position `j` of `s` to the PascalCase form: word
/// characters are kept, the first character of each word is upper-cased,
/// separators vanish.
pub open spec fn pascal_piece(s: Seq<char>, j: int) -> Seq<char> {
    if !is_word_char(s[j]) {
        Seq::empty()
    } else if j == 0 || !is_word_char(s[j - 1]) {
        seq![upper_char(s[j])]
    } else {
        seq![s[j]]
    }
}

pub open spec fn pascal_upto(s: Seq<char>, i: int) -> Seq<char>
    decreases i,
{
    if i <= 0 {
        Seq::empty()
    } else {
        pascal_upto(s, i - 1) + pascal_piece(s, i - 1)
    }
}

/// PascalCase form of a raw field name.
pub open spec fn pascal(s: Seq<char>) -> Seq<char> {
    pascal_upto(s, s.len() as int)
}

pub fn pascal_case(s: &str) -> (r: String)
    ensures
        r@ == pascal(s@),
{
    let n = s.unicode_len();
    let mut out = String::new();
    let mut i: usize = 0;
    let mut prev_word = false;
    while i < n
        invariant
            i <= n,
            n == s@.len(),
            out@ == pascal_upto(s@, i as int),
            prev_word == (i > 0 && is_word_char(s@[i - 1])),
        decreases n - i,
    {
        let c = s.get_char(i);
        if exec_word_char(c) {
            if prev_word {
                push_char(&mut out, c);
            } else {
                push_char(&mut out, exec_upper_char(c));
            }
            prev_word = true;
        } else {
            prev_word = false;
        }
        i = i + 1;
        assert(out@ =~= pascal_upto(s@, i as int));
    }
    out
}

} // verus!
