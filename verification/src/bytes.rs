//! Raw bytes that hold text.
use crate::text::{occurs, occurs_at};
use vstd::prelude::*;
use vstd::utf8::{decode_utf8, valid_utf8};

verus! {

/// What `String::from_utf8_lossy` makes of bytes.
pub uninterp spec fn lossy_text(bytes: Seq<u8>) -> Seq<char>;

/// `String::from_utf8_lossy`: bytes that are valid UTF-8 are read as such; what stands for
/// invalid ones depends on the bytes alone and is left open here.
#[verifier::external_body]
pub(crate) fn utf8_lossy(bytes: &Vec<u8>) -> (r: String)
    ensures
        r@ == lossy_text(bytes@),
        valid_utf8(bytes@) ==> r@ == decode_utf8(bytes@),
{
    String::from_utf8_lossy(bytes).into_owned()
}

/// What the `Debug` form of a string is.
pub uninterp spec fn quoted(text: Seq<char>) -> Seq<char>;

/// The `Debug` form of a string, as `format!` writes it: a quoted, escaped copy.
#[verifier::external_body]
pub(crate) fn quote(text: &str) -> (r: String)
    ensures
        r@ == quoted(text@),
{
    format!("{text:?}")
}

/// What `str::to_lowercase` makes of a text.
pub uninterp spec fn lowercase(text: Seq<char>) -> Seq<char>;

/// `str::to_lowercase` of the standard library: an empty text stays empty; what stands for the
/// letters of another one depends on the text alone and is left open here.
#[verifier::external_body]
pub(crate) fn to_lower(text: &str) -> (r: String)
    ensures
        r@ == lowercase(text@),
        text@.len() == 0 ==> r@.len() == 0,
{
    text.to_lowercase()
}

pub(crate) fn bytes_match_at(s: &Vec<u8>, part: &[u8], at: usize) -> (r: bool)
    ensures
        r == occurs_at(s@, part@, at as int),
{
    if at > s.len() || part.len() > s.len() - at {
        return false;
    }
    let len: usize = s.len();
    for i in 0..part.len()
        invariant
            len == s@.len(),
            at + part@.len() <= len,
            forall|j: int| 0 <= j < i ==> s@[at + j] == part@[j],
    {
        if s[at + i] != part[i] {
            assert(s@.subrange(at as int, at + part@.len())[i as int] != part@[i as int]);
            return false;
        }
    }
    assert(s@.subrange(at as int, at + part@.len()) =~= part@);
    true
}

/// Whether `needle` stands somewhere in `haystack`.
pub fn contains_subslice(haystack: &Vec<u8>, needle: &[u8]) -> (r: bool)
    requires
        needle@.len() > 0,
    ensures
        r == occurs(haystack@, needle@),
{
    if needle.len() > haystack.len() {
        return false;
    }
    let last: usize = haystack.len() - needle.len();
    let mut i: usize = 0;
    while i <= last
        invariant
            last == haystack@.len() - needle@.len(),
            i <= last + 1,
            forall|j: int| 0 <= j < i ==> !occurs_at(haystack@, needle@, j),
        decreases last + 1 - i,
    {
        if bytes_match_at(haystack, needle, i) {
            return true;
        }
        if i == last {
            return false;
        }
        i = i + 1;
    }
    false
}

/// `number`, which ends in a decimal number, stands at `at`, and its last digit is the last one
/// there: `n=3` does not stand in `n=30`.
pub open spec fn number_at(s: Seq<u8>, number: Seq<u8>, at: int) -> bool {
    &&& occurs_at(s, number, at)
    &&& at + number.len() < s.len() ==> !(0x30 <= s[at + number.len()] <= 0x39)
}

/// Whether `number` stands somewhere in `haystack` with no digit behind it.
pub fn contains_number(haystack: &Vec<u8>, number: &str) -> (r: bool)
    ensures
        r == exists|at: int| number_at(haystack@, vstd::utf8::encode_utf8(number@), at),
{
    let needle = number.as_bytes();
    if needle.len() > haystack.len() {
        return false;
    }
    let len: usize = haystack.len();
    let last: usize = len - needle.len();
    let mut i: usize = 0;
    while i <= last
        invariant
            needle@ == vstd::utf8::encode_utf8(number@),
            len == haystack@.len(),
            last == len - needle@.len(),
            i <= last + 1,
            forall|j: int| 0 <= j < i ==> !number_at(haystack@, needle@, j),
        decreases last + 1 - i,
    {
        if bytes_match_at(haystack, needle, i) {
            let ends = if i < last {
                let next: u8 = haystack[i + needle.len()];
                !(0x30 <= next && next <= 0x39)
            } else {
                true
            };
            if ends {
                assert(number_at(haystack@, needle@, i as int));
                return true;
            }
        }
        if i == last {
            return false;
        }
        i = i + 1;
    }
    false
}

/// Whether the bytes of `needle` stand somewhere in `haystack`.
pub fn contains_text(haystack: &Vec<u8>, needle: &str) -> (r: bool)
    requires
        needle@.len() > 0,
    ensures
        r == occurs(haystack@, vstd::utf8::encode_utf8(needle@)),
{
    proof {
        vstd::utf8::encode_utf8_decode_utf8(needle@);
        if vstd::utf8::encode_utf8(needle@).len() == 0 {
            assert(vstd::utf8::encode_utf8(needle@) =~= vstd::utf8::encode_utf8(seq![]));
            vstd::utf8::encode_utf8_decode_utf8(Seq::<char>::empty());
        }
    }
    contains_subslice(haystack, needle.as_bytes())
}

} // verus!
