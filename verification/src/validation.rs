//! Identifier validity: a caller-supplied struct name must be a legal
//! identifier before any inference or emission begins.

use vstd::prelude::*;
use vstd::string::*;
use crate::text;

verus! {

pub open spec fn is_ident_start(c: char) -> bool {
    text::is_ascii_alpha(c) || c == '_'
}

pub open spec fn is_ident_continue(c: char) -> bool {
    is_ident_start(c) || text::is_ascii_digit(c)
}

/// A legal generated-code identifier: nonempty, starts with an ASCII letter
/// or underscore, and continues with ASCII letters, digits or underscores.
pub open spec fn is_valid_ident(s: Seq<char>) -> bool {
    &&& s.len() > 0
    &&& is_ident_start(s[0])
    &&& forall|i: int| 1 <= i < s.len() ==> is_ident_continue(#[trigger] s[i])
}

pub fn valid_identifier(s: &str) -> (r: bool)
    ensures
        r == is_valid_ident(s@),
{
    let n = s.unicode_len();
    if n == 0 {
        return false;
    }
    let c0 = s.get_char(0);
    if !(('a' <= c0 && c0 <= 'z') || ('A' <= c0 && c0 <= 'Z') || c0 == '_') {
        return false;
    }
    let mut i: usize = 1;
    while i < n
        invariant
            1 <= i <= n,
            n == s@.len(),
            is_ident_start(s@[0]),
            forall|j: int| 1 <= j < i ==> is_ident_continue(#[trigger] s@[j]),
        decreases n - i,
    {
        let c = s.get_char(i);
        if !(('a' <= c && c <= 'z') || ('A' <= c && c <= 'Z') || ('0' <= c && c <= '9') || c
            == '_') {
            return false;
        }
        i = i + 1;
    }
    true
}

} // verus!
