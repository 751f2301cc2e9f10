//! Facts about a running space: its memory, its age, the tail of its console.
//!
//! The guest writes the console, so nothing in it is trusted.
use crate::bytes::{lossy_text, utf8_lossy};
use crate::text::{
    char_is_control, char_texts, chars_lines, chars_of, chars_strip_prefix, chars_to_u64,
    chars_words, is_control, lines, parse_dec, string_of, strip_prefix, texts, words,
};
use vstd::prelude::*;

verus! {

/// How much of the end of a console is read.
pub const TAIL_WINDOW_BYTES: u64 = 64 * 1024;

pub const LOG_TAIL_MAX_LINES: usize = 40;

pub const LOG_TAIL_MAX_LINE_CHARS: usize = 300;

/// The number behind `VmRSS:`, in the first line that starts so.
pub open spec fn vm_rss(rows: Seq<Seq<char>>) -> Option<nat>
    decreases rows.len(),
{
    if rows.len() == 0 {
        None
    } else {
        match strip_prefix(rows[0], "VmRSS:"@) {
            Some(rest) => if words(rest).len() > 0 {
                parse_dec(words(rest)[0], u64::MAX as nat)
            } else {
                None
            },
            None => vm_rss(rows.skip(1)),
        }
    }
}

pub open spec fn same_number(r: Option<u64>, s: Option<nat>) -> bool {
    match (r, s) {
        (Some(a), Some(b)) => a as nat == b,
        (None, None) => true,
        _ => false,
    }
}

/// The resident memory of a process, from the text of its status.
pub fn parse_vm_rss_kib(status: &str) -> (r: Option<u64>)
    ensures
        same_number(r, vm_rss(lines(status@))),
{
    let chars = chars_of(status);
    let rows = chars_lines(&chars);
    let ghost all = char_texts(rows@);
    assert(all.skip(0) =~= all);
    for i in 0..rows.len()
        invariant
            all == char_texts(rows@),
            all == lines(status@),
            vm_rss(all.skip(i as int)) == vm_rss(all),
    {
        assert(all.skip(i as int)[0] == rows@[i as int]@);
        match chars_strip_prefix(&rows[i], "VmRSS:") {
            Some(rest) => {
                let fields = chars_words(&rest);
                assert(char_texts(fields@).len() == fields@.len());
                if fields.len() == 0 {
                    return None;
                }
                assert(char_texts(fields@)[0] == fields@[0]@);
                return chars_to_u64(&fields[0], u64::MAX);
            },
            None => {},
        }
        assert(all.skip(i as int).skip(1) =~= all.skip(i + 1));
    }
    assert(all.skip(rows@.len() as int) =~= seq![]);
    None
}

/// The whole seconds from one moment to another, both in nanoseconds; nothing where the first
/// is later.
pub fn uptime_secs(started_nanos: u64, now_nanos: u64) -> (r: Option<u64>)
    ensures
        r == (if started_nanos <= now_nanos {
            Some(((now_nanos - started_nanos) / 1_000_000_000) as u64)
        } else {
            None
        }),
{
    if started_nanos <= now_nanos {
        Some((now_nanos - started_nanos) / 1_000_000_000)
    } else {
        None
    }
}

/// Where a window of `window` bytes at the end of a file of that length starts, and whether
/// something stands before it.
pub fn tail_start(len: u64, window: u64) -> (r: (u64, bool))
    ensures
        r.0 == (if len > window {
            len - window
        } else {
            0
        }),
        r.1 == (r.0 > 0),
{
    if len > window {
        (len - window, true)
    } else {
        (0, false)
    }
}

/// The characters of a line that are no control characters.
pub open spec fn printable(line: Seq<char>) -> Seq<char> {
    line.filter(|c: char| !is_control(c))
}

/// A line as it may be shown: without control characters, and no longer than `max`.
pub open spec fn sanitized(line: Seq<char>, max: nat) -> Seq<char> {
    let clean = printable(line);
    if clean.len() > max {
        clean.take(max as int)
    } else {
        clean
    }
}

/// Nothing that reaches the screen is a control character, and nothing is longer than allowed.
pub proof fn sanitized_is_safe(line: Seq<char>, max: nat)
    ensures
        sanitized(line, max).len() <= max,
        forall|i: int|
            0 <= i < sanitized(line, max).len() ==> !is_control(#[trigger] sanitized(line, max)[i]),
{
    let keep = |c: char| !is_control(c);
    assert forall|i: int| 0 <= i < sanitized(line, max).len() implies !is_control(
        #[trigger] sanitized(line, max)[i],
    ) by {
        line.lemma_filter_pred(keep, i);
    }
}

pub fn sanitize_line(line: &str, max_line_chars: usize) -> (r: String)
    ensures
        r@ == sanitized(line@, max_line_chars as nat),
{
    let chars = chars_of(line);
    let ghost keep = |c: char| !is_control(c);
    let mut out: Vec<char> = Vec::new();
    assert(line@.take(0).filter(keep) =~= seq![]) by {
        reveal(Seq::filter);
    }
    for i in 0..chars.len()
        invariant
            chars@ == line@,
            keep == (|c: char| !is_control(c)),
            out@ == line@.take(i as int).filter(keep),
    {
        let c: char = chars[i];
        assert(line@.take(i + 1).filter(keep) == (if keep(c) {
            line@.take(i as int).filter(keep).push(c)
        } else {
            line@.take(i as int).filter(keep)
        })) by {
            reveal(Seq::filter);
            assert(line@.take(i + 1).drop_last() =~= line@.take(i as int));
            assert(line@.take(i + 1).last() == c);
        }
        if !char_is_control(c) {
            out.push(c);
        }
    }
    assert(line@.take(line@.len() as int) =~= line@);
    if out.len() > max_line_chars {
        let cut = crate::text::head_to(&out, max_line_chars);
        string_of(&cut)
    } else {
        string_of(&out)
    }
}

/// The last `max_lines` lines of a text, each fit to be shown.
pub open spec fn shown_tail(text: Seq<char>, max_lines: nat, max_line_chars: nat) -> Seq<
    Seq<char>,
> {
    let all = lines(text);
    let kept = if all.len() > max_lines {
        all.skip(all.len() - max_lines)
    } else {
        all
    };
    kept.map_values(|line: Seq<char>| sanitized(line, max_line_chars))
}

pub fn tail_lines(text: &str, max_lines: usize, max_line_chars: usize) -> (r: Vec<String>)
    ensures
        texts(r@) == shown_tail(text@, max_lines as nat, max_line_chars as nat),
{
    let chars = chars_of(text);
    let rows = chars_lines(&chars);
    let ghost all = char_texts(rows@);
    let from: usize = if rows.len() > max_lines {
        rows.len() - max_lines
    } else {
        0
    };
    let ghost kept = all.skip(from as int);
    assert(from == 0 ==> kept =~= all);
    let ghost shown = kept.map_values(|line: Seq<char>| sanitized(line, max_line_chars as nat));
    let mut out: Vec<String> = Vec::new();
    assert(texts(out@) =~= shown.take(0));
    for i in from..rows.len()
        invariant
            from <= i <= rows@.len(),
            all == char_texts(rows@),
            kept == all.skip(from as int),
            shown == kept.map_values(
                |line: Seq<char>| sanitized(line, max_line_chars as nat),
            ),
            texts(out@) == shown.take(i - from),
    {
        let line = string_of(&rows[i]);
        let line = sanitize_line(line.as_str(), max_line_chars);
        crate::text::push_text(&mut out, line.as_str());
        assert(shown[i - from] == line@);
        assert(texts(out@) =~= shown.take(i - from + 1));
    }
    assert(shown.take(rows@.len() - from) =~= shown);
    out
}

/// Where the first line feed stands, or the length where there is none.
pub open spec fn byte_pos(s: Seq<u8>, b: u8) -> int
    decreases s.len(),
{
    if s.len() == 0 || s[0] == b {
        0
    } else {
        1 + byte_pos(s.skip(1), b)
    }
}

/// The part of a window that starts with a whole line. A window that starts inside the file
/// starts inside a line, and that line is never shown; where no line ends in the window,
/// nothing is left.
pub open spec fn whole_lines(window: Seq<u8>, starts_inside: bool) -> Seq<u8> {
    if !starts_inside {
        window
    } else if byte_pos(window, 10) < window.len() {
        window.skip(byte_pos(window, 10) + 1)
    } else {
        seq![]
    }
}

fn drop_first_line(window: &Vec<u8>) -> (r: Vec<u8>)
    ensures
        r@ == whole_lines(window@, true),
{
    let mut i: usize = 0;
    assert(window@.skip(0) =~= window@);
    while i < window.len() && window[i] != 10
        invariant
            i <= window@.len(),
            byte_pos(window@, 10) == i + byte_pos(window@.skip(i as int), 10),
        decreases window@.len() - i,
    {
        assert(window@.skip(i as int).skip(1) =~= window@.skip(i + 1));
        i = i + 1;
    }
    if i < window.len() {
        i = i + 1;
    }
    let mut out: Vec<u8> = Vec::new();
    let ghost from = i as int;
    for j in i..window.len()
        invariant
            from == i,
            i <= j <= window@.len(),
            out@ == window@.subrange(from, j as int),
    {
        out.push(window[j]);
        assert(out@ =~= window@.subrange(from, j + 1));
    }
    assert(out@ =~= window@.skip(from));
    assert(from == window@.len() ==> out@ =~= seq![]);
    out
}

/// The tail of a console as it may be shown, from the last bytes of its file and whether the
/// file is longer than they are.
pub fn tail_sanitized(
    window: &Vec<u8>,
    starts_inside: bool,
    max_lines: usize,
    max_line_chars: usize,
) -> (r: Vec<String>)
    ensures
        texts(r@) == shown_tail(
            lossy_text(whole_lines(window@, starts_inside)),
            max_lines as nat,
            max_line_chars as nat,
        ),
{
    let text = if starts_inside {
        utf8_lossy(&drop_first_line(window))
    } else {
        utf8_lossy(window)
    };
    tail_lines(text.as_str(), max_lines, max_line_chars)
}

/// However the guest writes, at most `max_lines` lines are shown.
pub proof fn shown_tail_is_bounded(text: Seq<char>, max_lines: nat, max_line_chars: nat)
    ensures
        shown_tail(text, max_lines, max_line_chars).len() <= max_lines,
        forall|i: int|
            0 <= i < shown_tail(text, max_lines, max_line_chars).len() ==> (#[trigger] shown_tail(
                text,
                max_lines,
                max_line_chars,
            )[i]).len() <= max_line_chars,
{
    let shown = shown_tail(text, max_lines, max_line_chars);
    assert forall|i: int| 0 <= i < shown.len() implies (#[trigger] shown[i]).len()
        <= max_line_chars by {
        let all = lines(text);
        let kept = if all.len() > max_lines {
            all.skip(all.len() - max_lines)
        } else {
            all
        };
        sanitized_is_safe(kept[i], max_line_chars);
    }
}

/// What is shown of a console is its end: counted from the last line backwards, line stands
/// against line, and nothing is left out in between.
pub proof fn the_end_of_a_console_is_shown(
    text: Seq<char>,
    max_lines: nat,
    max_line_chars: nat,
    k: int,
)
    requires
        0 <= k < lines(text).len(),
        k < max_lines,
    ensures
        ({
            let shown = shown_tail(text, max_lines, max_line_chars);
            let line = lines(text)[lines(text).len() - 1 - k];
            let clean = line.filter(|c: char| !is_control(c));
            &&& k < shown.len()
            &&& clean.len() <= max_line_chars ==> shown[shown.len() - 1 - k] == clean
            &&& clean.len() > max_line_chars ==> shown[shown.len() - 1 - k] == clean.take(
                max_line_chars as int,
            )
        }),
{
}

proof fn lemma_byte_pos(s: Seq<u8>, b: u8)
    ensures
        0 <= byte_pos(s, b) <= s.len(),
        byte_pos(s, b) < s.len() ==> s[byte_pos(s, b)] == b,
        forall|i: int| 0 <= i < byte_pos(s, b) ==> #[trigger] s[i] != b,
    decreases s.len(),
{
    if s.len() > 0 && s[0] != b {
        let rest = s.skip(1);
        lemma_byte_pos(rest, b);
        assert forall|i: int| 0 <= i < byte_pos(s, b) implies #[trigger] s[i] != b by {
            if i > 0 {
                assert(rest[i - 1] == s[i]);
            }
        }
    }
}

/// A window that starts inside a line is shown from behind the first line feed on, and one
/// without a line feed not at all.
pub proof fn a_torn_line_is_not_shown(window: Seq<u8>, at: int)
    ensures
        whole_lines(window, false) == window,
        0 <= at < window.len() && window[at] == 10 && (forall|i: int|
            0 <= i < at ==> #[trigger] window[i] != 10) ==> whole_lines(window, true)
            == window.skip(at + 1),
        (forall|i: int| 0 <= i < window.len() ==> #[trigger] window[i] != 10) ==> whole_lines(
            window,
            true,
        ).len() == 0,
{
    lemma_byte_pos(window, 10);
    if 0 <= at < window.len() && window[at] == 10 && (forall|i: int|
        0 <= i < at ==> #[trigger] window[i] != 10) {
        let p = byte_pos(window, 10);
        assert(p == at) by {
            if p < at {
                assert(window[p] != 10);
            }
        }
    }
}

} // verus!
