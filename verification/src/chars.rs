//! Character-level building blocks of the naming transform: the split
//! characters that delimit identifier words, and ASCII case mapping.

use vstd::prelude::*;

verus! {

/// True for the characters that open a new word part of an identifier:
/// an ASCII uppercase letter, `-`, or `_`.
pub open spec fn is_split_char(c: char) -> bool {
    c == '-' || c == '_' || is_upper_char(c)
}

/// True for ASCII uppercase letters.
pub open spec fn is_upper_char(c: char) -> bool {
    'A' <= c && c <= 'Z'
}

/// True for ASCII lowercase letters.
pub open spec fn is_lower_char(c: char) -> bool {
    'a' <= c && c <= 'z'
}

/// ASCII lowercasing of a single character; other characters are unchanged.
pub open spec fn lower_char(c: char) -> char {
    if is_upper_char(c) {
        ((c as u8) + 32) as char
    } else {
        c
    }
}

/// ASCII uppercasing of a single character; other characters are unchanged.
pub open spec fn upper_char(c: char) -> char {
    if is_lower_char(c) {
        ((c as u8) - 32) as char
    } else {
        c
    }
}

/// Lowercasing, then uppercasing, restores any character that is not ASCII
/// lowercase; uppercasing, then lowercasing, restores any character that is
/// not ASCII uppercase.
pub proof fn lemma_case_roundtrip(c: char)
    ensures
        !is_lower_char(c) ==> upper_char(lower_char(c)) == c,
        !is_upper_char(c) ==> lower_char(upper_char(c)) == c,
        is_upper_char(c) ==> is_lower_char(lower_char(c)),
        is_lower_char(c) ==> is_upper_char(upper_char(c)),
{
}

} // verus!
