//! Text as sequences of characters: the vocabulary in which the contracts of this crate speak
//! of strings, and the executable functions that meet it.
use vstd::prelude::*;

verus! {

/// `String::push` of the standard library appends one character.
pub assume_specification[ String::push ](s: &mut String, c: char)
    ensures
        final(s)@ == old(s)@.push(c),
;

// ---------------------------------------------------------------------------------------------
// Characters
// ---------------------------------------------------------------------------------------------

/// The characters with the Unicode property `White_Space`.
pub open spec fn is_white(c: char) -> bool {
    let n = c as u32;
    ||| 0x9 <= n <= 0xd
    ||| n == 0x20
    ||| n == 0x85
    ||| n == 0xa0
    ||| n == 0x1680
    ||| 0x2000 <= n <= 0x200a
    ||| n == 0x2028
    ||| n == 0x2029
    ||| n == 0x202f
    ||| n == 0x205f
    ||| n == 0x3000
}

/// The characters of the Unicode category `Cc`.
pub open spec fn is_control(c: char) -> bool {
    let n = c as u32;
    n <= 0x1f || 0x7f <= n <= 0x9f
}

pub open spec fn is_digit(c: char) -> bool {
    '0' <= c <= '9'
}

pub open spec fn is_hex_digit(c: char) -> bool {
    '0' <= c <= '9' || 'a' <= c <= 'f' || 'A' <= c <= 'F'
}

pub open spec fn hex_value(c: char) -> int {
    if '0' <= c <= '9' {
        c as int - '0' as int
    } else if 'a' <= c <= 'f' {
        c as int - 'a' as int + 10
    } else {
        c as int - 'A' as int + 10
    }
}

pub fn char_is_white(c: char) -> (r: bool)
    ensures
        r == is_white(c),
{
    let n: u32 = c as u32;
    (0x9 <= n && n <= 0xd) || n == 0x20 || n == 0x85 || n == 0xa0 || n == 0x1680 || (0x2000 <= n
        && n <= 0x200a) || n == 0x2028 || n == 0x2029 || n == 0x202f || n == 0x205f || n == 0x3000
}

pub fn char_is_control(c: char) -> (r: bool)
    ensures
        r == is_control(c),
{
    let n: u32 = c as u32;
    n <= 0x1f || (0x7f <= n && n <= 0x9f)
}

pub fn char_is_digit(c: char) -> (r: bool)
    ensures
        r == is_digit(c),
{
    '0' <= c && c <= '9'
}

/// The value of a hexadecimal digit, of either case.
pub fn char_hex_value(c: char) -> (r: Option<u8>)
    ensures
        r is Some <==> is_hex_digit(c),
        r matches Some(v) ==> v == hex_value(c) && v < 16,
{
    let n: u32 = c as u32;
    if '0' <= c && c <= '9' {
        Some((n - 0x30) as u8)
    } else if 'a' <= c && c <= 'f' {
        Some((n - 0x61 + 10) as u8)
    } else if 'A' <= c && c <= 'F' {
        Some((n - 0x41 + 10) as u8)
    } else {
        None
    }
}

// ---------------------------------------------------------------------------------------------
// Views of collections of text
// ---------------------------------------------------------------------------------------------

/// The texts of a sequence of strings.
pub open spec fn texts(v: Seq<String>) -> Seq<Seq<char>> {
    v.map_values(|s: String| s@)
}

/// The texts of a sequence of character vectors.
pub open spec fn char_texts(v: Seq<Vec<char>>) -> Seq<Seq<char>> {
    v.map_values(|s: Vec<char>| s@)
}

/// The text of an optional string.
pub open spec fn opt_text(s: Option<String>) -> Option<Seq<char>> {
    match s {
        Some(s) => Some(s@),
        None => None,
    }
}

/// The characters of a string.
pub fn chars_of(s: &str) -> (r: Vec<char>)
    ensures
        r@ == s@,
{
    let mut out: Vec<char> = Vec::new();
    for c in it: s.chars()
        invariant
            it.seq() == s@,
            out@ == s@.take(it.index() as int),
    {
        out.push(c);
        assert(out@ =~= s@.take(it.index() as int + 1));
    }
    assert(s@.take(s@.len() as int) =~= s@);
    out
}

/// The string with the given characters.
pub fn string_of(chars: &Vec<char>) -> (r: String)
    ensures
        r@ == chars@,
{
    let mut out = String::new();
    for i in 0..chars.len()
        invariant
            out@ == chars@.take(i as int),
    {
        out.push(chars[i]);
        assert(out@ =~= chars@.take(i + 1));
    }
    assert(chars@.take(chars@.len() as int) =~= chars@);
    out
}

/// Adds a text behind the others.
pub fn push_text(v: &mut Vec<String>, s: &str)
    ensures
        texts(final(v)@) == texts(old(v)@).push(s@),
{
    v.push(s.to_owned());
    assert(texts(v@) =~= texts(old(v)@).push(s@));
}

/// The characters from `from` up to `to`.
pub fn slice_of(chars: &Vec<char>, from: usize, to: usize) -> (r: Vec<char>)
    requires
        from <= to <= chars@.len(),
    ensures
        r@ == chars@.subrange(from as int, to as int),
{
    let mut out: Vec<char> = Vec::new();
    for i in from..to
        invariant
            from <= i <= to <= chars@.len(),
            out@ == chars@.subrange(from as int, i as int),
    {
        out.push(chars[i]);
        assert(out@ =~= chars@.subrange(from as int, i + 1));
    }
    out
}

/// The characters from `from` to the end.
pub fn tail_from(chars: &Vec<char>, from: usize) -> (r: Vec<char>)
    requires
        from <= chars@.len(),
    ensures
        r@ == chars@.skip(from as int),
{
    let r = slice_of(chars, from, chars.len());
    assert(r@ =~= chars@.skip(from as int));
    r
}

/// The first `n` characters.
pub fn head_to(chars: &Vec<char>, n: usize) -> (r: Vec<char>)
    requires
        n <= chars@.len(),
    ensures
        r@ == chars@.take(n as int),
{
    let r = slice_of(chars, 0, n);
    assert(r@ =~= chars@.take(n as int));
    r
}

// ---------------------------------------------------------------------------------------------
// Equality, prefixes, occurrences
// ---------------------------------------------------------------------------------------------

/// `part` stands in `s` at position `i`.
pub open spec fn occurs_at<T>(s: Seq<T>, part: Seq<T>, i: int) -> bool {
    0 <= i && i + part.len() <= s.len() && s.subrange(i, i + part.len()) == part
}

/// `part` stands somewhere in `s`.
pub open spec fn occurs<T>(s: Seq<T>, part: Seq<T>) -> bool {
    exists|i: int| occurs_at(s, part, i)
}

pub open spec fn has_prefix<T>(s: Seq<T>, prefix: Seq<T>) -> bool {
    occurs_at(s, prefix, 0)
}

/// What follows `prefix` in `s`, if `s` starts with it.
pub open spec fn strip_prefix<T>(s: Seq<T>, prefix: Seq<T>) -> Option<Seq<T>> {
    if has_prefix(s, prefix) {
        Some(s.skip(prefix.len() as int))
    } else {
        None
    }
}

/// What precedes `suffix` in `s`, if `s` ends with it.
pub open spec fn strip_suffix<T>(s: Seq<T>, suffix: Seq<T>) -> Option<Seq<T>> {
    if occurs_at(s, suffix, s.len() - suffix.len()) {
        Some(s.take(s.len() - suffix.len()))
    } else {
        None
    }
}

pub fn chars_match_at(s: &Vec<char>, part: &Vec<char>, at: usize) -> (r: bool)
    ensures
        r == occurs_at(s@, part@, at as int),
{
    if at > s.len() || part.len() > s.len() - at {
        return false;
    }
    let len: usize = s.len();
    for i in 0..part.len()
        invariant
            len == s@.len(),
            at + part@.len() <= len,
            forall|j: int| 0 <= j < i ==> s@[at + j] == part@[j],
    {
        if s[at + i] != part[i] {
            assert(s@.subrange(at as int, at + part@.len())[i as int] != part@[i as int]);
            return false;
        }
    }
    assert(s@.subrange(at as int, at + part@.len()) =~= part@);
    true
}

pub fn chars_equal(a: &Vec<char>, b: &Vec<char>) -> (r: bool)
    ensures
        r == (a@ == b@),
{
    let r = a.len() == b.len() && chars_match_at(a, b, 0);
    assert(a@.len() == b@.len() ==> a@.subrange(0, b@.len() as int) =~= a@);
    r
}

pub fn str_equal(a: &str, b: &str) -> (r: bool)
    ensures
        r == (a@ == b@),
{
    let a = chars_of(a);
    let b = chars_of(b);
    chars_equal(&a, &b)
}

pub fn opt_str_equal(a: &Option<String>, b: &Option<String>) -> (r: bool)
    ensures
        r == (opt_text(*a) == opt_text(*b)),
{
    match (a, b) {
        (Some(a), Some(b)) => str_equal(a.as_str(), b.as_str()),
        (None, None) => true,
        _ => false,
    }
}

pub fn chars_contain(s: &Vec<char>, part: &Vec<char>) -> (r: bool)
    ensures
        r == occurs(s@, part@),
{
    if part.len() > s.len() {
        return false;
    }
    let last: usize = s.len() - part.len();
    let mut i: usize = 0;
    while i <= last
        invariant
            last == s@.len() - part@.len(),
            i <= last + 1,
            forall|j: int| 0 <= j < i ==> !occurs_at(s@, part@, j),
        decreases last + 1 - i,
    {
        if chars_match_at(s, part, i) {
            return true;
        }
        if i == last {
            return false;
        }
        i = i + 1;
    }
    false
}

pub fn str_contains(s: &str, part: &str) -> (r: bool)
    ensures
        r == occurs(s@, part@),
{
    let s = chars_of(s);
    let part = chars_of(part);
    chars_contain(&s, &part)
}

pub fn chars_strip_prefix(s: &Vec<char>, prefix: &str) -> (r: Option<Vec<char>>)
    ensures
        r is Some <==> strip_prefix(s@, prefix@) is Some,
        r matches Some(v) ==> Some(v@) == strip_prefix(s@, prefix@),
{
    let prefix = chars_of(prefix);
    if chars_match_at(s, &prefix, 0) {
        Some(tail_from(s, prefix.len()))
    } else {
        None
    }
}

pub fn chars_strip_suffix(s: &Vec<char>, suffix: &str) -> (r: Option<Vec<char>>)
    ensures
        r is Some <==> strip_suffix(s@, suffix@) is Some,
        r matches Some(v) ==> Some(v@) == strip_suffix(s@, suffix@),
{
    let suffix = chars_of(suffix);
    if suffix.len() <= s.len() && chars_match_at(s, &suffix, s.len() - suffix.len()) {
        Some(head_to(s, s.len() - suffix.len()))
    } else {
        None
    }
}

/// The first position at or after `from` where `part` stands in `s`.
pub open spec fn pos_from<T>(s: Seq<T>, part: Seq<T>, from: int) -> Option<int>
    decreases s.len() - from + 1,
{
    if from + part.len() > s.len() {
        None
    } else if occurs_at(s, part, from) {
        Some(from)
    } else {
        pos_from(s, part, from + 1)
    }
}

/// The last position at or before `from` where `part` stands in `s`.
pub open spec fn pos_back<T>(s: Seq<T>, part: Seq<T>, from: int) -> Option<int>
    decreases from + 1,
{
    if from < 0 {
        None
    } else if occurs_at(s, part, from) {
        Some(from)
    } else {
        pos_back(s, part, from - 1)
    }
}

/// Where `part` stands first in `s`.
pub open spec fn first_pos<T>(s: Seq<T>, part: Seq<T>) -> Option<int> {
    pos_from(s, part, 0)
}

/// Where `part` stands last in `s`.
pub open spec fn last_pos<T>(s: Seq<T>, part: Seq<T>) -> Option<int> {
    pos_back(s, part, s.len() - part.len())
}

pub fn chars_find(s: &Vec<char>, part: &str) -> (r: Option<usize>)
    ensures
        match (r, first_pos(s@, part@)) {
            (Some(i), Some(j)) => i == j && i + part@.len() <= s@.len(),
            (None, None) => true,
            _ => false,
        },
{
    let needle = chars_of(part);
    if needle.len() > s.len() {
        return None;
    }
    let last: usize = s.len() - needle.len();
    let mut i: usize = 0;
    loop
        invariant
            needle@ == part@,
            last == s@.len() - part@.len(),
            i <= last,
            pos_from(s@, part@, i as int) == first_pos(s@, part@),
        decreases last - i,
    {
        if chars_match_at(s, &needle, i) {
            return Some(i);
        }
        if i == last {
            assert(pos_from(s@, part@, i + 1) is None);
            return None;
        }
        i = i + 1;
    }
}

pub fn chars_rfind(s: &Vec<char>, part: &str) -> (r: Option<usize>)
    ensures
        match (r, last_pos(s@, part@)) {
            (Some(i), Some(j)) => i == j && i + part@.len() <= s@.len(),
            (None, None) => true,
            _ => false,
        },
{
    let needle = chars_of(part);
    if needle.len() > s.len() {
        return None;
    }
    let mut i: usize = s.len() - needle.len();
    loop
        invariant
            needle@ == part@,
            i + part@.len() <= s@.len(),
            pos_back(s@, part@, i as int) == last_pos(s@, part@),
        decreases i,
    {
        if chars_match_at(s, &needle, i) {
            return Some(i);
        }
        if i == 0 {
            assert(pos_back(s@, part@, -1) is None);
            return None;
        }
        i = i - 1;
    }
}

/// `text` is one of `all`.
pub fn strings_contain(all: &Vec<String>, text: &str) -> (r: bool)
    ensures
        r == texts(all@).contains(text@),
{
    for i in 0..all.len()
        invariant
            forall|j: int| 0 <= j < i ==> all@[j]@ != text@,
    {
        if str_equal(all[i].as_str(), text) {
            assert(texts(all@)[i as int] == text@);
            return true;
        }
    }
    assert forall|j: int| 0 <= j < texts(all@).len() implies texts(all@)[j] != text@ by {
        assert(all@[j]@ != text@);
    }
    false
}

// ---------------------------------------------------------------------------------------------
// Cutting into pieces
// ---------------------------------------------------------------------------------------------

/// The position of the first `c` in `s`, or the length of `s` where there is none.
pub open spec fn char_pos(s: Seq<char>, c: char) -> int
    decreases s.len(),
{
    if s.len() == 0 || s[0] == c {
        0
    } else {
        1 + char_pos(s.skip(1), c)
    }
}

/// The pieces of `s` between the occurrences of `sep`.
pub open spec fn split(s: Seq<char>, sep: char) -> Seq<Seq<char>>
    decreases s.len(),
{
    let i = char_pos(s, sep);
    if 0 <= i < s.len() {
        seq![s.take(i)] + split(s.skip(i + 1), sep)
    } else {
        seq![s]
    }
}

/// A line without the carriage return before its line feed.
pub open spec fn chop_cr(line: Seq<char>) -> Seq<char> {
    if line.len() > 0 && line.last() == '\r' {
        line.drop_last()
    } else {
        line
    }
}

/// The lines of a text. A line ends in a line feed, or in a carriage return and a line feed;
/// the last one may lack its ending.
pub open spec fn lines(s: Seq<char>) -> Seq<Seq<char>>
    decreases s.len(),
{
    if s.len() == 0 {
        seq![]
    } else {
        let i = char_pos(s, '\n');
        if 0 <= i < s.len() {
            seq![chop_cr(s.take(i))] + lines(s.skip(i + 1))
        } else {
            seq![s]
        }
    }
}

/// The number of whitespace characters at the start of `s`.
pub open spec fn white_len(s: Seq<char>) -> int
    decreases s.len(),
{
    if s.len() == 0 || !is_white(s[0]) {
        0
    } else {
        1 + white_len(s.skip(1))
    }
}

/// The number of characters before the first whitespace of `s`.
pub open spec fn word_len(s: Seq<char>) -> int
    decreases s.len(),
{
    if s.len() == 0 || is_white(s[0]) {
        0
    } else {
        1 + word_len(s.skip(1))
    }
}

/// The words of a text: its longest runs without whitespace.
pub open spec fn words(s: Seq<char>) -> Seq<Seq<char>>
    decreases s.len(),
{
    let t = s.skip(white_len(s));
    if t.len() == 0 || t.len() > s.len() || word_len(t) <= 0 || word_len(t) > t.len() {
        seq![]
    } else {
        seq![t.take(word_len(t))] + words(t.skip(word_len(t)))
    }
}

/// The number of characters of `s` up to and including its last one that is not whitespace.
pub open spec fn trimmed_len(s: Seq<char>) -> int
    decreases s.len(),
{
    if s.len() == 0 {
        0
    } else if !is_white(s.last()) {
        s.len() as int
    } else {
        trimmed_len(s.drop_last())
    }
}

/// `s` without the whitespace at both ends.
pub open spec fn trim(s: Seq<char>) -> Seq<char> {
    let t = s.skip(white_len(s));
    t.take(trimmed_len(t))
}

pub proof fn lemma_char_pos(s: Seq<char>, c: char)
    ensures
        0 <= char_pos(s, c) <= s.len(),
        char_pos(s, c) < s.len() ==> s[char_pos(s, c)] == c,
        forall|i: int| 0 <= i < char_pos(s, c) ==> s[i] != c,
    decreases s.len(),
{
    if s.len() == 0 || s[0] == c {
    } else {
        lemma_char_pos(s.skip(1), c);
        assert forall|i: int| 0 <= i < char_pos(s, c) implies s[i] != c by {
            if i > 0 {
                assert(s[i] == s.skip(1)[i - 1]);
            }
        }
    }
}

/// The first position is the only one with the property of `lemma_char_pos`.
pub proof fn lemma_char_pos_unique(s: Seq<char>, c: char, i: int)
    requires
        0 <= i <= s.len(),
        i < s.len() ==> s[i] == c,
        forall|j: int| 0 <= j < i ==> s[j] != c,
    ensures
        char_pos(s, c) == i,
{
    lemma_char_pos(s, c);
    let p = char_pos(s, c);
    if p < i {
        assert(s[p] == c);
    }
    if i < p {
        assert(s[i] != c);
    }
}

pub proof fn lemma_white_len(s: Seq<char>)
    ensures
        0 <= white_len(s) <= s.len(),
        white_len(s) < s.len() ==> !is_white(s[white_len(s)]),
        forall|i: int| 0 <= i < white_len(s) ==> is_white(s[i]),
    decreases s.len(),
{
    if s.len() == 0 || !is_white(s[0]) {
    } else {
        lemma_white_len(s.skip(1));
        assert forall|i: int| 0 <= i < white_len(s) implies is_white(s[i]) by {
            if i > 0 {
                assert(s[i] == s.skip(1)[i - 1]);
            }
        }
    }
}

pub proof fn lemma_word_len(s: Seq<char>)
    ensures
        0 <= word_len(s) <= s.len(),
        word_len(s) < s.len() ==> is_white(s[word_len(s)]),
        forall|i: int| 0 <= i < word_len(s) ==> !is_white(s[i]),
    decreases s.len(),
{
    if s.len() == 0 || is_white(s[0]) {
    } else {
        lemma_word_len(s.skip(1));
        assert forall|i: int| 0 <= i < word_len(s) implies !is_white(s[i]) by {
            if i > 0 {
                assert(s[i] == s.skip(1)[i - 1]);
            }
        }
    }
}

pub proof fn lemma_trimmed_len(s: Seq<char>)
    ensures
        0 <= trimmed_len(s) <= s.len(),
        trimmed_len(s) > 0 ==> !is_white(s[trimmed_len(s) - 1]),
        forall|i: int| trimmed_len(s) <= i < s.len() ==> is_white(s[i]),
    decreases s.len(),
{
    if s.len() == 0 || !is_white(s.last()) {
    } else {
        lemma_trimmed_len(s.drop_last());
        assert forall|i: int| trimmed_len(s) <= i < s.len() implies is_white(s[i]) by {
            if i < s.len() - 1 {
                assert(s[i] == s.drop_last()[i]);
            }
        }
    }
}

/// The position of the first `c` at or after `from`, or the length where there is none.
pub fn find_char(s: &Vec<char>, from: usize, c: char) -> (r: usize)
    requires
        from <= s@.len(),
    ensures
        from <= r <= s@.len(),
        r - from == char_pos(s@.skip(from as int), c),
{
    let mut i: usize = from;
    while i < s.len()
        invariant
            from <= i <= s@.len(),
            forall|j: int| from <= j < i ==> s@[j] != c,
        decreases s@.len() - i,
    {
        if s[i] == c {
            proof {
                lemma_char_pos_unique(s@.skip(from as int), c, i - from);
            }
            return i;
        }
        i = i + 1;
    }
    proof {
        lemma_char_pos_unique(s@.skip(from as int), c, i - from);
    }
    i
}

pub fn chars_split(s: &Vec<char>, sep: char) -> (r: Vec<Vec<char>>)
    ensures
        char_texts(r@) == split(s@, sep),
{
    let mut out: Vec<Vec<char>> = Vec::new();
    let mut start: usize = 0;
    assert(s@.skip(0) =~= s@);
    assert(char_texts(out@) + split(s@, sep) =~= split(s@, sep));
    loop
        invariant
            start <= s@.len(),
            char_texts(out@) + split(s@.skip(start as int), sep) == split(s@, sep),
        decreases s@.len() - start,
    {
        let end = find_char(s, start, sep);
        let piece = slice_of(s, start, end);
        let ghost rest = s@.skip(start as int);
        let ghost before = char_texts(out@);
        out.push(piece);
        assert(char_texts(out@) =~= before.push(piece@));
        assert(piece@ =~= rest.take(end - start));
        if end == s.len() {
            assert(rest.take(end - start) =~= rest);
            assert(split(rest, sep) == seq![rest]);
            assert(char_texts(out@) =~= before + seq![rest]);
            return out;
        }
        assert(rest.skip(end - start + 1) =~= s@.skip(end + 1));
        assert(before.push(piece@) + split(s@.skip(end + 1), sep) =~= before + (seq![piece@]
            + split(s@.skip(end + 1), sep)));
        start = end + 1;
    }
}

pub fn chars_lines(s: &Vec<char>) -> (r: Vec<Vec<char>>)
    ensures
        char_texts(r@) == lines(s@),
{
    let mut out: Vec<Vec<char>> = Vec::new();
    let mut start: usize = 0;
    assert(s@.skip(0) =~= s@);
    assert(char_texts(out@) + lines(s@) =~= lines(s@));
    while start < s.len()
        invariant
            start <= s@.len(),
            char_texts(out@) + lines(s@.skip(start as int)) == lines(s@),
        decreases s@.len() - start,
    {
        let end = find_char(s, start, '\n');
        let ghost rest = s@.skip(start as int);
        let ghost before = char_texts(out@);
        if end == s.len() {
            let piece = slice_of(s, start, end);
            out.push(piece);
            assert(piece@ =~= rest);
            assert(lines(rest) == seq![rest]);
            assert(char_texts(out@) =~= before + seq![rest]);
            return out;
        }
        let cut: usize = if end > start && s[end - 1] == '\r' {
            end - 1
        } else {
            end
        };
        let piece = slice_of(s, start, cut);
        out.push(piece);
        assert(char_texts(out@) =~= before.push(piece@));
        assert(piece@ =~= chop_cr(rest.take(end - start)));
        assert(rest.skip(end - start + 1) =~= s@.skip(end + 1));
        assert(before.push(piece@) + lines(s@.skip(end + 1)) =~= before + (seq![piece@] + lines(
            s@.skip(end + 1),
        )));
        start = end + 1;
    }
    assert(s@.skip(start as int).len() == 0);
    assert(char_texts(out@) + lines(s@.skip(start as int)) =~= char_texts(out@));
    out
}

pub proof fn lemma_white_len_unique(s: Seq<char>, n: int)
    requires
        0 <= n <= s.len(),
        n < s.len() ==> !is_white(s[n]),
        forall|i: int| 0 <= i < n ==> is_white(s[i]),
    ensures
        white_len(s) == n,
{
    lemma_white_len(s);
    let p = white_len(s);
    if p < n {
        assert(!is_white(s[p]));
    }
    if n < p {
        assert(is_white(s[n]));
    }
}

pub proof fn lemma_word_len_unique(s: Seq<char>, n: int)
    requires
        0 <= n <= s.len(),
        n < s.len() ==> is_white(s[n]),
        forall|i: int| 0 <= i < n ==> !is_white(s[i]),
    ensures
        word_len(s) == n,
{
    lemma_word_len(s);
    let p = word_len(s);
    if p < n {
        assert(is_white(s[p]));
    }
    if n < p {
        assert(!is_white(s[n]));
    }
}

fn skip_white(s: &Vec<char>, from: usize) -> (r: usize)
    requires
        from <= s@.len(),
    ensures
        from <= r <= s@.len(),
        r - from == white_len(s@.skip(from as int)),
{
    let mut i: usize = from;
    while i < s.len() && char_is_white(s[i])
        invariant
            from <= i <= s@.len(),
            forall|j: int| from <= j < i ==> is_white(s@[j]),
        decreases s@.len() - i,
    {
        i = i + 1;
    }
    proof {
        lemma_white_len_unique(s@.skip(from as int), i - from);
    }
    i
}

fn skip_word(s: &Vec<char>, from: usize) -> (r: usize)
    requires
        from <= s@.len(),
    ensures
        from <= r <= s@.len(),
        r - from == word_len(s@.skip(from as int)),
{
    let mut i: usize = from;
    while i < s.len() && !char_is_white(s[i])
        invariant
            from <= i <= s@.len(),
            forall|j: int| from <= j < i ==> !is_white(s@[j]),
        decreases s@.len() - i,
    {
        i = i + 1;
    }
    proof {
        lemma_word_len_unique(s@.skip(from as int), i - from);
    }
    i
}

pub fn chars_words(s: &Vec<char>) -> (r: Vec<Vec<char>>)
    ensures
        char_texts(r@) == words(s@),
{
    let mut out: Vec<Vec<char>> = Vec::new();
    let mut start: usize = 0;
    assert(s@.skip(0) =~= s@);
    assert(char_texts(out@) + words(s@) =~= words(s@));
    loop
        invariant
            start <= s@.len(),
            char_texts(out@) + words(s@.skip(start as int)) == words(s@),
        decreases s@.len() - start,
    {
        let ghost rest = s@.skip(start as int);
        let begin = skip_white(s, start);
        let ghost t = rest.skip(white_len(rest));
        assert(t =~= s@.skip(begin as int));
        if begin == s.len() {
            assert(words(rest) =~= seq![]);
            assert(char_texts(out@) + words(rest) =~= char_texts(out@));
            return out;
        }
        let end = skip_word(s, begin);
        proof {
            lemma_white_len(rest);
            lemma_word_len(t);
            assert(!is_white(t[0]));
            assert(word_len(t) > 0);
        }
        let piece = slice_of(s, begin, end);
        let ghost before = char_texts(out@);
        out.push(piece);
        assert(char_texts(out@) =~= before.push(piece@));
        assert(piece@ =~= t.take(end - begin));
        assert(t.skip(end - begin) =~= s@.skip(end as int));
        assert(words(rest) == seq![piece@] + words(s@.skip(end as int)));
        assert(before.push(piece@) + words(s@.skip(end as int)) =~= before + (seq![piece@] + words(
            s@.skip(end as int),
        )));
        start = end;
    }
}

pub fn chars_trim(s: &Vec<char>) -> (r: Vec<char>)
    ensures
        r@ == trim(s@),
{
    assert(s@.skip(0) =~= s@);
    let begin = skip_white(s, 0);
    let ghost t = s@.skip(begin as int);
    let mut end: usize = s.len();
    assert(t.take(end - begin) =~= t);
    while end > begin && char_is_white(s[end - 1])
        invariant
            begin <= end <= s@.len(),
            t == s@.skip(begin as int),
            trimmed_len(t.take(end - begin)) == trimmed_len(t),
        decreases end,
    {
        assert(t.take(end - begin).drop_last() =~= t.take(end - begin - 1));
        end = end - 1;
    }
    let r = slice_of(s, begin, end);
    assert(r@ =~= t.take(end - begin));
    r
}

/// A string without the whitespace at both ends.
pub fn str_trim(s: &str) -> (r: String)
    ensures
        r@ == trim(s@),
{
    let s = chars_of(s);
    let t = chars_trim(&s);
    string_of(&t)
}

// ---------------------------------------------------------------------------------------------
// Joining
// ---------------------------------------------------------------------------------------------

/// The pieces in order with `sep` between them.
pub open spec fn join(parts: Seq<Seq<char>>, sep: Seq<char>) -> Seq<char>
    decreases parts.len(),
{
    if parts.len() == 0 {
        seq![]
    } else if parts.len() == 1 {
        parts[0]
    } else {
        join(parts.drop_last(), sep) + sep + parts.last()
    }
}

pub fn join_chars(parts: &Vec<Vec<char>>, sep: &str) -> (r: String)
    ensures
        r@ == join(char_texts(parts@), sep@),
{
    let mut out = String::new();
    for i in 0..parts.len()
        invariant
            out@ == join(char_texts(parts@).take(i as int), sep@),
    {
        let ghost all = char_texts(parts@);
        assert(all.take(i + 1).drop_last() =~= all.take(i as int));
        if i > 0 {
            out.append(sep);
        }
        let piece = string_of(&parts[i]);
        out.append(piece.as_str());
        if i == 0 {
            assert(out@ =~= piece@);
        }
    }
    assert(char_texts(parts@).take(parts@.len() as int) =~= char_texts(parts@));
    out
}

pub fn join_strings(parts: &Vec<String>, sep: &str) -> (r: String)
    ensures
        r@ == join(texts(parts@), sep@),
{
    let mut out = String::new();
    for i in 0..parts.len()
        invariant
            out@ == join(texts(parts@).take(i as int), sep@),
    {
        let ghost all = texts(parts@);
        assert(all.take(i + 1).drop_last() =~= all.take(i as int));
        if i > 0 {
            out.append(sep);
        }
        out.append(parts[i].as_str());
        if i == 0 {
            assert(out@ =~= parts@[0]@);
        }
    }
    assert(texts(parts@).take(parts@.len() as int) =~= texts(parts@));
    out
}

/// Lines as a text, each with its line feed.
pub open spec fn terminated(rows: Seq<Seq<char>>) -> Seq<char>
    decreases rows.len(),
{
    if rows.len() == 0 {
        seq![]
    } else {
        terminated(rows.drop_last()) + rows.last() + "\n"@
    }
}

pub fn terminate(rows: &Vec<String>) -> (r: String)
    ensures
        r@ == terminated(texts(rows@)),
{
    let ghost all = texts(rows@);
    let mut out = String::new();
    assert(all.take(0) =~= seq![]);
    for i in 0..rows.len()
        invariant
            all == texts(rows@),
            out@ == terminated(all.take(i as int)),
    {
        assert(all.take(i + 1).drop_last() =~= all.take(i as int));
        out.append(rows[i].as_str());
        out.append("\n");
    }
    assert(all.take(rows@.len() as int) =~= all);
    out
}

/// A text without line breaks.
pub open spec fn is_one_line(s: Seq<char>) -> bool {
    forall|i: int| 0 <= i < s.len() ==> #[trigger] s[i] != '\n' && s[i] != '\r'
}

proof fn lemma_terminated_first(rows: Seq<Seq<char>>)
    requires
        rows.len() > 0,
    ensures
        terminated(rows) == rows[0] + "\n"@ + terminated(rows.skip(1)),
    decreases rows.len(),
{
    let front = rows.drop_last();
    if rows.len() == 1 {
        assert(front =~= seq![]);
        assert(rows.skip(1) =~= seq![]);
        assert(terminated(rows) =~= rows[0] + "\n"@ + terminated(rows.skip(1)));
    } else {
        lemma_terminated_first(front);
        assert(rows.skip(1).drop_last() =~= front.skip(1));
        assert(rows.skip(1).last() == rows.last());
        assert(terminated(rows) =~= rows[0] + "\n"@ + terminated(rows.skip(1)));
    }
}

/// Lines that were written are the lines that are read.
pub proof fn lemma_lines_of_terminated(rows: Seq<Seq<char>>)
    requires
        forall|i: int| 0 <= i < rows.len() ==> is_one_line(#[trigger] rows[i]),
    ensures
        lines(terminated(rows)) == rows,
    decreases rows.len(),
{
    let s = terminated(rows);
    if rows.len() == 0 {
        assert(lines(s) =~= rows);
    } else {
        let line = rows[0];
        let rest = rows.skip(1);
        reveal_strlit("\n");
        lemma_terminated_first(rows);
        assert(is_one_line(rows[0]));
        assert forall|j: int| 0 <= j < line.len() implies s[j] != '\n' by {
            assert(s[j] == line[j]);
        }
        assert(s[line.len() as int] == '\n');
        lemma_char_pos_unique(s, '\n', line.len() as int);
        assert(s.take(line.len() as int) =~= line);
        assert(s.skip(line.len() as int + 1) =~= terminated(rest));
        if line.len() > 0 {
            assert(line[line.len() - 1] != '\r');
        }
        assert forall|i: int| 0 <= i < rest.len() implies is_one_line(#[trigger] rest[i]) by {
            assert(rest[i] == rows[i + 1]);
        }
        lemma_lines_of_terminated(rest);
        assert(seq![line] + rest =~= rows);
    }
}

// ---------------------------------------------------------------------------------------------
// Numbers
// ---------------------------------------------------------------------------------------------

/// The decimal digit of `n`.
pub open spec fn digit(n: nat) -> char {
    ('0' as nat + n) as char
}

/// The decimal notation of `n`, without leading zeros.
pub open spec fn dec(n: nat) -> Seq<char>
    decreases n,
{
    if n < 10 {
        seq![digit(n)]
    } else {
        dec(n / 10).push(digit(n % 10))
    }
}

/// The decimal notation of `n`, filled with zeros on the left to at least two characters.
pub open spec fn dec2(n: nat) -> Seq<char> {
    if n < 10 {
        seq!['0'] + dec(n)
    } else {
        dec(n)
    }
}

/// The lower-case hexadecimal digit of `n`.
pub open spec fn hex_digit(n: nat) -> char {
    if n < 10 {
        ('0' as nat + n) as char
    } else {
        ('a' as nat + n - 10) as char
    }
}

/// The lower-case hexadecimal notation of `n`, without leading zeros.
pub open spec fn hex(n: nat) -> Seq<char>
    decreases n,
{
    if n < 16 {
        seq![hex_digit(n)]
    } else {
        hex(n / 16).push(hex_digit(n % 16))
    }
}

/// The hexadecimal notation of `n`, filled with zeros on the left to at least two characters.
pub open spec fn hex2(n: nat) -> Seq<char> {
    if n < 16 {
        seq!['0'] + hex(n)
    } else {
        hex(n)
    }
}

/// The decimal notation of an integer, with a minus sign before a negative one.
pub open spec fn dec_int(n: int) -> Seq<char> {
    if n < 0 {
        seq!['-'] + dec((-n) as nat)
    } else {
        dec(n as nat)
    }
}

/// All characters of `s` are decimal digits, and there is one at least.
pub open spec fn is_decimal(s: Seq<char>) -> bool {
    s.len() > 0 && forall|i: int| 0 <= i < s.len() ==> is_digit(#[trigger] s[i])
}

/// The number that a row of decimal digits stands for.
pub open spec fn decimal_value(s: Seq<char>) -> nat
    decreases s.len(),
{
    if s.len() == 0 {
        0
    } else {
        decimal_value(s.drop_last()) * 10 + (s.last() as nat - '0' as nat) as nat
    }
}

/// The number that `s` stands for, if it is a row of digits behind at most one plus sign and
/// the number is at most `max`.
pub open spec fn parse_dec(s: Seq<char>, max: nat) -> Option<nat> {
    let digits = if s.len() > 0 && s[0] == '+' {
        s.skip(1)
    } else {
        s
    };
    if is_decimal(digits) && decimal_value(digits) <= max {
        Some(decimal_value(digits))
    } else {
        None
    }
}

fn digit_char(n: u8) -> (c: char)
    requires
        n < 10,
    ensures
        c == digit(n as nat),
{
    (0x30 + n) as char
}

fn hex_digit_char(n: u8) -> (c: char)
    requires
        n < 16,
    ensures
        c == hex_digit(n as nat),
{
    if n < 10 {
        (0x30 + n) as char
    } else {
        (0x61 + (n - 10)) as char
    }
}

pub fn u64_to_string(n: u64) -> (r: String)
    ensures
        r@ == dec(n as nat),
    decreases n,
{
    let last = digit_char((n % 10) as u8);
    let mut out = if n < 10 {
        String::new()
    } else {
        u64_to_string(n / 10)
    };
    out.push(last);
    assert(n < 10 ==> out@ =~= seq![digit(n as nat)]);
    out
}

pub fn u32_to_string(n: u32) -> (r: String)
    ensures
        r@ == dec(n as nat),
{
    u64_to_string(n as u64)
}

pub fn i64_to_string(n: i64) -> (r: String)
    ensures
        r@ == dec_int(n as int),
{
    if n < 0 {
        let mut out = String::new();
        out.push('-');
        let digits = if n == i64::MIN {
            u64_to_string(0x8000_0000_0000_0000)
        } else {
            u64_to_string((-n) as u64)
        };
        out.append(digits.as_str());
        assert(out@ =~= dec_int(n as int));
        out
    } else {
        u64_to_string(n as u64)
    }
}

pub fn u64_to_dec2(n: u64) -> (r: String)
    ensures
        r@ == dec2(n as nat),
{
    let digits = u64_to_string(n);
    if n < 10 {
        let mut out = String::new();
        out.push('0');
        out.append(digits.as_str());
        assert(out@ =~= dec2(n as nat));
        out
    } else {
        digits
    }
}

pub fn u32_to_hex(n: u32) -> (r: String)
    ensures
        r@ == hex(n as nat),
    decreases n,
{
    let last = hex_digit_char((n % 16) as u8);
    let mut out = if n < 16 {
        String::new()
    } else {
        u32_to_hex(n / 16)
    };
    out.push(last);
    assert(n < 16 ==> out@ =~= seq![hex_digit(n as nat)]);
    out
}

pub fn u32_to_hex2(n: u32) -> (r: String)
    ensures
        r@ == hex2(n as nat),
{
    let digits = u32_to_hex(n);
    if n < 16 {
        let mut out = String::new();
        out.push('0');
        out.append(digits.as_str());
        assert(out@ =~= hex2(n as nat));
        out
    } else {
        digits
    }
}

proof fn lemma_decimal_value_prefix(s: Seq<char>, n: int)
    requires
        is_decimal(s),
        0 <= n <= s.len(),
    ensures
        decimal_value(s.take(n)) <= decimal_value(s),
    decreases s.len() - n,
{
    if n < s.len() {
        lemma_decimal_value_prefix(s, n + 1);
        assert(s.take(n + 1).drop_last() =~= s.take(n));
    } else {
        assert(s.take(n) =~= s);
    }
}

/// Reads a decimal number of at most `max` as `u64::from_str` reads one.
#[verifier::loop_isolation(false)]
pub fn chars_to_u64(s: &Vec<char>, max: u64) -> (r: Option<u64>)
    ensures
        r is Some <==> parse_dec(s@, max as nat) is Some,
        r matches Some(n) ==> Some(n as nat) == parse_dec(s@, max as nat) && n <= max,
{
    let start: usize = if s.len() > 0 && s[0] == '+' {
        1
    } else {
        0
    };
    let ghost digits = s@.skip(start as int);
    assert(start == 0 ==> digits =~= s@);
    if start == s.len() {
        return None;
    }
    let mut i: usize = start;
    while i < s.len()
        invariant
            start <= i <= s@.len(),
            digits == s@.skip(start as int),
            forall|j: int| start <= j < i ==> is_digit(s@[j]),
        decreases s@.len() - i,
    {
        if !char_is_digit(s[i]) {
            assert(digits[i - start] == s@[i as int]);
            return None;
        }
        i = i + 1;
    }
    assert(is_decimal(digits));
    let mut value: u64 = 0;
    let mut i: usize = start;
    while i < s.len()
        invariant
            start <= i <= s@.len(),
            digits == s@.skip(start as int),
            is_decimal(digits),
            value == decimal_value(digits.take(i - start)),
            value <= max,
        decreases s@.len() - i,
    {
        assert(digits[i - start] == s@[i as int]);
        let d: u64 = (s[i] as u32 - 0x30) as u64;
        proof {
            assert(digits.take(i - start + 1).drop_last() =~= digits.take(i - start));
            assert(digits.take(i - start + 1).last() == s@[i as int]);
            assert(decimal_value(digits.take(i - start + 1)) == value * 10 + d);
            lemma_decimal_value_prefix(digits, i - start + 1);
        }
        if value > max / 10 {
            assert(value * 10 > max - 10) by (nonlinear_arith)
                requires
                    value > max / 10,
            ;
            assert(value * 10 > max);
            return None;
        }
        if d > max - value * 10 {
            return None;
        }
        value = value * 10 + d;
        i = i + 1;
    }
    assert(digits.take(i - start) =~= digits);
    Some(value)
}

/// The number of digits at the start of `s`.
pub open spec fn digit_len(s: Seq<char>) -> int
    decreases s.len(),
{
    if s.len() == 0 || !is_digit(s[0]) {
        0
    } else {
        1 + digit_len(s.skip(1))
    }
}

/// Why `s` is no number of at most `max`, in the words of the standard library. It is read from
/// the left: what is wrong first decides.
pub open spec fn number_fault(s: Seq<char>, max: nat) -> Seq<char> {
    let digits = if s.len() > 0 && s[0] == '+' {
        s.skip(1)
    } else {
        s
    };
    if s.len() == 0 {
        "cannot parse integer from empty string"@
    } else if decimal_value(digits.take(digit_len(digits))) > max {
        "number too large to fit in target type"@
    } else {
        "invalid digit found in string"@
    }
}

proof fn lemma_digit_len(s: Seq<char>, n: int)
    requires
        0 <= n <= s.len(),
        forall|j: int| 0 <= j < n ==> is_digit(#[trigger] s[j]),
    ensures
        n <= digit_len(s) <= s.len(),
        n < s.len() && !is_digit(s[n]) ==> digit_len(s) == n,
        forall|j: int| 0 <= j < digit_len(s) ==> is_digit(#[trigger] s[j]),
    decreases s.len(),
{
    if s.len() > 0 && is_digit(s[0]) {
        let rest = s.skip(1);
        let m = if n > 0 {
            n - 1
        } else {
            0
        };
        assert forall|j: int| 0 <= j < m implies is_digit(#[trigger] rest[j]) by {
            assert(rest[j] == s[j + 1]);
        }
        lemma_digit_len(rest, m);
        assert forall|j: int| 0 <= j < digit_len(s) implies is_digit(#[trigger] s[j]) by {
            if j > 0 {
                assert(s[j] == rest[j - 1]);
            }
        }
    }
}

/// Says why a text is no number of at most `max`.
#[verifier::loop_isolation(false)]
pub fn why_no_number(s: &Vec<char>, max: u64) -> (r: String)
    ensures
        r@ == number_fault(s@, max as nat),
{
    if s.len() == 0 {
        return "cannot parse integer from empty string".to_owned();
    }
    let start: usize = if s[0] == '+' {
        1
    } else {
        0
    };
    let ghost digits = s@.skip(start as int);
    assert(start == 0 ==> digits =~= s@);
    let mut value: u64 = 0;
    let mut i: usize = start;
    assert(digits.take(0) =~= seq![]);
    while i < s.len() && char_is_digit(s[i])
        invariant
            start <= i <= s@.len(),
            forall|j: int| 0 <= j < i - start ==> is_digit(#[trigger] digits[j]),
            value == decimal_value(digits.take(i - start)),
            value <= max,
        decreases s@.len() - i,
    {
        assert(digits[i - start] == s@[i as int]);
        let d: u64 = (s[i] as u32 - 0x30) as u64;
        proof {
            let n = i - start + 1;
            assert(digits.take(n).drop_last() =~= digits.take(n - 1));
            assert(digits.take(n).last() == s@[i as int]);
            assert(decimal_value(digits.take(n)) == value * 10 + d);
            lemma_digit_len(digits, n);
            let row = digits.take(digit_len(digits));
            assert(is_decimal(row));
            lemma_decimal_value_prefix(row, n);
            assert(row.take(n) =~= digits.take(n));
        }
        if value > max / 10 {
            assert(value * 10 > max - 10) by (nonlinear_arith)
                requires
                    value > max / 10,
            ;
            assert(value * 10 > max);
            return "number too large to fit in target type".to_owned();
        }
        if d > max - value * 10 {
            return "number too large to fit in target type".to_owned();
        }
        value = value * 10 + d;
        i = i + 1;
    }
    proof {
        lemma_digit_len(digits, i - start);
        if i < s@.len() {
            assert(digits[i - start] == s@[i as int]);
        }
    }
    "invalid digit found in string".to_owned()
}

pub fn str_to_u32(s: &str) -> (r: Option<u32>)
    ensures
        r is Some <==> parse_dec(s@, u32::MAX as nat) is Some,
        r matches Some(n) ==> Some(n as nat) == parse_dec(s@, u32::MAX as nat),
{
    let s = chars_of(s);
    match chars_to_u64(&s, u32::MAX as u64) {
        Some(n) => Some(n as u32),
        None => None,
    }
}

// ---------------------------------------------------------------------------------------------
// Facts about numerals
// ---------------------------------------------------------------------------------------------

pub proof fn lemma_dec_is_decimal(n: nat)
    ensures
        is_decimal(dec(n)),
        decimal_value(dec(n)) == n,
    decreases n,
{
    if n < 10 {
        assert(dec(n).drop_last() =~= seq![]);
        assert(decimal_value(seq![]) == 0);
    } else {
        lemma_dec_is_decimal(n / 10);
        assert(dec(n).drop_last() =~= dec(n / 10));
    }
}

/// Different numbers have different decimal notations.
pub proof fn lemma_dec_injective(a: nat, b: nat)
    requires
        dec(a) == dec(b),
    ensures
        a == b,
{
    lemma_dec_is_decimal(a);
    lemma_dec_is_decimal(b);
}

} // verus!
