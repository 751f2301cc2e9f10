//! The shapes of identifiers.
use crate::text::{chars_of, is_hex_digit};
use vstd::prelude::*;

verus! {

pub open spec fn is_slug_char(c: char) -> bool {
    'a' <= c <= 'z' || '0' <= c <= '9' || c == '-'
}

/// The shape of the id of a space, of a profile and of a label: lower-case Latin letters, digits
/// and hyphens, one to thirty-two of them.
pub open spec fn is_slug(s: Seq<char>) -> bool {
    1 <= s.len() <= 32 && forall|i: int| 0 <= i < s.len() ==> is_slug_char(#[trigger] s[i])
}

/// The shape of a colour: a hash sign and six hexadecimal digits.
pub open spec fn is_color(s: Seq<char>) -> bool {
    s.len() == 7 && s[0] == '#' && forall|i: int| 1 <= i < 7 ==> is_hex_digit(#[trigger] s[i])
}

pub fn slug_ok(s: &str) -> (r: bool)
    ensures
        r == is_slug(s@),
{
    let chars = chars_of(s);
    if chars.len() == 0 || chars.len() > 32 {
        return false;
    }
    for i in 0..chars.len()
        invariant
            chars@ == s@,
            forall|j: int| 0 <= j < i ==> is_slug_char(#[trigger] s@[j]),
    {
        let c: char = chars[i];
        if !(('a' <= c && c <= 'z') || ('0' <= c && c <= '9') || c == '-') {
            assert(!is_slug_char(s@[i as int]));
            return false;
        }
    }
    true
}

/// Whether a text is a colour.
pub fn is_rrggbb(candidate: &str) -> (r: bool)
    ensures
        r == is_color(candidate@),
{
    let chars = chars_of(candidate);
    if chars.len() != 7 || chars[0] != '#' {
        return false;
    }
    for i in 1..7
        invariant
            1 <= i <= 7,
            chars@.len() == 7,
            chars@ == candidate@,
            forall|j: int| 1 <= j < i ==> is_hex_digit(#[trigger] candidate@[j]),
    {
        if crate::text::char_hex_value(chars[i]).is_none() {
            assert(!is_hex_digit(candidate@[i as int]));
            return false;
        }
    }
    true
}

} // verus!
