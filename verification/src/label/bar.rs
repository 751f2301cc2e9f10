//! What the strip shows: a text and its colours.
use crate::label::font::{has_letter, printable_characters_have_letters};
use crate::label::strip::{Strip, StripView};
use crate::text::{char_hex_value, chars_of, hex_value, is_hex_digit};
use vstd::prelude::*;

verus! {

#[derive(Debug, Clone, PartialEq, Eq)]
pub struct BarContent {
    pub text: String,
    pub background: u32,
    pub foreground: u32,
}

#[verifier::ext_equal]
pub struct BarView {
    pub text: Seq<char>,
    pub background: u32,
    pub foreground: u32,
}

impl View for BarContent {
    type V = BarView;

    open spec fn view(&self) -> BarView {
        BarView { text: self.text@, background: self.background, foreground: self.foreground }
    }
}

pub const HOST_BACKGROUND: u32 = 0xff20_2020;

/// What is wrong has a colour of its own: a stray window that looks like the host tells nobody.
pub const ANOMALY_BACKGROUND: u32 = 0xffd7_8f00;

/// A colour that cannot be read is shown as one that nobody overlooks.
pub const FALLBACK_COLOR: u32 = 0xffff_00ff;

pub const BLACK: u32 = 0xff00_0000;

pub const WHITE: u32 = 0xffff_ffff;

/// The number that hexadecimal digits stand for.
pub open spec fn hex_number(s: Seq<char>) -> nat
    decreases s.len(),
{
    if s.len() == 0 {
        0
    } else {
        16 * hex_number(s.drop_last()) + hex_value(s.last()) as nat
    }
}

pub open spec fn all_hex(s: Seq<char>) -> bool {
    forall|i: int| 0 <= i < s.len() ==> is_hex_digit(#[trigger] s[i])
}

/// The opaque colour that `#` and six places stand for; the first place may be a plus sign.
pub open spec fn color_of(s: Seq<char>) -> Option<u32> {
    if s.len() != 7 || s[0] != '#' {
        None
    } else {
        let digits = if s[1] == '+' {
            s.skip(2)
        } else {
            s.skip(1)
        };
        if all_hex(digits) {
            Some((0xff00_0000 + hex_number(digits)) as u32)
        } else {
            None
        }
    }
}

pub fn parse_color(s: &str) -> (r: Option<u32>)
    ensures
        r == color_of(s@),
{
    let chars = chars_of(s);
    if chars.len() != 7 || chars[0] != '#' {
        return None;
    }
    let from: usize = if chars[1] == '+' {
        2
    } else {
        1
    };
    let ghost digits = chars@.skip(from as int);
    let mut rgb: u32 = 0;
    let mut i: usize = from;
    let mut bound: Ghost<int> = Ghost(1);
    assert(digits.take(0) =~= seq![]);
    while i < 7
        invariant
            1 <= from <= i <= 7,
            chars@ == s@,
            chars@.len() == 7,
            chars@[0] == '#',
            from == (if chars@[1] == '+' {
                2int
            } else {
                1int
            }),
            digits == chars@.skip(from as int),
            digits.len() == 7 - from,
            rgb == hex_number(digits.take(i - from)),
            rgb < bound@,
            bound@ <= 0x100_0000,
            i == from ==> bound@ == 1,
            i - from == 1 ==> bound@ == 0x10,
            i - from == 2 ==> bound@ == 0x100,
            i - from == 3 ==> bound@ == 0x1000,
            i - from == 4 ==> bound@ == 0x1_0000,
            i - from == 5 ==> bound@ == 0x10_0000,
            i - from == 6 ==> bound@ == 0x100_0000,
            forall|k: int| 0 <= k < i - from ==> is_hex_digit(#[trigger] digits[k]),
        decreases 7 - i,
    {
        assert(digits[i - from] == chars@[i as int]);
        assert(digits.take(i - from + 1).drop_last() =~= digits.take(i - from));
        match char_hex_value(chars[i]) {
            Some(v) => {
                rgb = 16 * rgb + v as u32;
                proof {
                    bound@ = 16 * bound@;
                }
            },
            None => {
                assert(!is_hex_digit(digits[i - from]));
                return None;
            },
        }
        i = i + 1;
    }
    assert(digits.take(i - from) =~= digits);
    assert(rgb < 0x100_0000 ==> 0xff00_0000u32 | rgb == 0xff00_0000 + rgb) by (bit_vector);
    Some(0xff00_0000u32 | rgb)
}

pub open spec fn red(color: u32) -> nat {
    (color as nat / 0x1_0000) % 0x100
}

pub open spec fn green(color: u32) -> nat {
    (color as nat / 0x100) % 0x100
}

pub open spec fn blue(color: u32) -> nat {
    color as nat % 0x100
}

/// How bright a colour looks, from 0 to 255.
pub open spec fn luma(color: u32) -> nat {
    (299 * red(color) + 587 * green(color) + 114 * blue(color)) / 1000
}

pub fn brightness(color: u32) -> (r: u32)
    ensures
        r == luma(color),
{
    let r: u32 = (color >> 16) & 0xff;
    let g: u32 = (color >> 8) & 0xff;
    let b: u32 = color & 0xff;
    assert((color >> 16) & 0xff == (color / 0x1_0000) % 0x100) by (bit_vector);
    assert((color >> 8) & 0xff == (color / 0x100) % 0x100) by (bit_vector);
    assert(color & 0xff == color % 0x100) by (bit_vector);
    (299 * r + 587 * g + 114 * b) / 1000
}

/// The colour of a text that can be read on a background.
pub open spec fn ink(background: u32) -> u32 {
    if luma(background) > 128 {
        BLACK
    } else {
        WHITE
    }
}

pub fn foreground_for_background(background: u32) -> (r: u32)
    ensures
        r == ink(background),
{
    if brightness(background) > 128 {
        BLACK
    } else {
        WHITE
    }
}

pub fn on(background: u32, text: String) -> (r: BarContent)
    ensures
        r@ == (BarView { text: text@, background, foreground: ink(background) }),
{
    BarContent { text, background, foreground: foreground_for_background(background) }
}

pub open spec fn content_text(strip: StripView) -> Seq<char> {
    match strip {
        StripView::Host => "хост"@,
        StripView::Space { id, color, level } => "спейс "@ + id + ": "@ + level,
        StripView::Orphan { id } => "окно без спейса: "@ + id,
        StripView::Unknown { id } => "спейс "@ + id + " демону неизвестен"@,
        StripView::Unverified { claimed } => "окно заявляет спейс "@ + claimed
            + ", проверить нечем"@,
        StripView::FocusUnknown => "фокус ещё не определён"@,
    }
}

pub open spec fn content_background(strip: StripView) -> u32 {
    match strip {
        StripView::Host => HOST_BACKGROUND,
        StripView::Space { id, color, level } => match color_of(color) {
            Some(c) => c,
            None => FALLBACK_COLOR,
        },
        _ => ANOMALY_BACKGROUND,
    }
}

/// What the strip shows.
pub open spec fn content_of(strip: StripView) -> BarView {
    BarView {
        text: content_text(strip),
        background: content_background(strip),
        foreground: ink(content_background(strip)),
    }
}

pub fn bar_content(strip: &Strip) -> (r: BarContent)
    ensures
        r@ == content_of(strip@),
{
    match strip {
        Strip::Host => on(HOST_BACKGROUND, "хост".to_owned()),
        Strip::Space { id, color, level } => {
            let background = match parse_color(color.as_str()) {
                Some(c) => c,
                None => FALLBACK_COLOR,
            };
            on(
                background,
                "спейс ".to_owned().concat(id.as_str()).concat(": ").concat(level.as_str()),
            )
        },
        Strip::Orphan { id } => on(
            ANOMALY_BACKGROUND,
            "окно без спейса: ".to_owned().concat(id.as_str()),
        ),
        Strip::Unknown { id } => on(
            ANOMALY_BACKGROUND,
            "спейс ".to_owned().concat(id.as_str()).concat(" демону неизвестен"),
        ),
        Strip::Unverified { claimed } => on(
            ANOMALY_BACKGROUND,
            "окно заявляет спейс ".to_owned().concat(claimed.as_str()).concat(
                ", проверить нечем",
            ),
        ),
        Strip::FocusUnknown => on(ANOMALY_BACKGROUND, "фокус ещё не определён".to_owned()),
    }
}

/// What is neither the host nor a space that runs never looks like the host.
pub proof fn anomalies_do_not_look_like_the_host(strip: StripView)
    requires
        !(strip is Host),
        !(strip is Space),
    ensures
        content_of(strip).background == ANOMALY_BACKGROUND,
        content_of(strip).background != content_of(StripView::Host).background,
        content_of(strip).background != FALLBACK_COLOR,
{
}

/// The text of the strip is as far from its background as black or white can be: a bright
/// background has a black text, a dark one a white text.
pub proof fn the_text_can_be_read(strip: StripView)
    ensures
        luma(content_of(strip).background) <= 255,
        luma(content_of(strip).background) > 128 ==> luma(content_of(strip).foreground) == 0,
        luma(content_of(strip).background) <= 128 ==> luma(content_of(strip).foreground) == 255,
{
}

/// Green weighs more than red, and red more than blue: the brightness of a colour is the sum of its
/// channels, in thousandths, rounded down.
pub proof fn the_eye_sees_green_first(color: u32, r: nat, g: nat, b: nat)
    requires
        r < 0x100,
        g < 0x100,
        b < 0x100,
        color == 0xff00_0000 + 0x1_0000 * r + 0x100 * g + b,
    ensures
        1000 * luma(color) <= 299 * r + 587 * g + 114 * b < 1000 * luma(color) + 1000,
{
    assert(color as nat / 0x1_0000 == 0xff00 + r);
    assert((0xff00 + r) % 0x100 == r);
    assert(color as nat / 0x100 == 0xff_0000 + 0x100 * r + g);
    assert((0xff_0000 + 0x100 * r + g) % 0x100 == g);
    assert(color as nat % 0x100 == b);
}

pub open spec fn is_plain(c: char) -> bool {
    ' ' <= c <= '~' || 'А' <= c <= 'я' || c == 'ё'
}

pub open spec fn all_plain(s: Seq<char>) -> bool {
    forall|i: int| 0 <= i < s.len() ==> is_plain(#[trigger] s[i])
}

proof fn lemma_plain_sum(a: Seq<char>, b: Seq<char>)
    requires
        all_plain(a),
        all_plain(b),
    ensures
        all_plain(a + b),
{
}

/// Whatever the strip says of a space whose names are printable ASCII or Russian can be drawn
/// letter by letter: no character of it is shown as a question mark that stands for another one.
pub proof fn every_strip_can_be_drawn(strip: StripView, i: int)
    requires
        match strip {
            StripView::Space { id, color, level } => all_plain(id) && all_plain(level),
            StripView::Orphan { id } => all_plain(id),
            StripView::Unknown { id } => all_plain(id),
            StripView::Unverified { claimed } => all_plain(claimed),
            _ => true,
        },
        0 <= i < content_text(strip).len(),
    ensures
        has_letter(content_text(strip)[i]),
{
    reveal_strlit("хост");
    reveal_strlit("спейс ");
    reveal_strlit(": ");
    reveal_strlit("окно без спейса: ");
    reveal_strlit(" демону неизвестен");
    reveal_strlit("окно заявляет спейс ");
    reveal_strlit(", проверить нечем");
    reveal_strlit("фокус ещё не определён");
    let text = content_text(strip);
    match strip {
        StripView::Space { id, color, level } => {
            lemma_plain_sum("спейс "@, id);
            lemma_plain_sum("спейс "@ + id, ": "@);
            lemma_plain_sum("спейс "@ + id + ": "@, level);
        },
        StripView::Orphan { id } => {
            lemma_plain_sum("окно без спейса: "@, id);
        },
        StripView::Unknown { id } => {
            lemma_plain_sum("спейс "@, id);
            lemma_plain_sum("спейс "@ + id, " демону неизвестен"@);
        },
        StripView::Unverified { claimed } => {
            lemma_plain_sum("окно заявляет спейс "@, claimed);
            lemma_plain_sum("окно заявляет спейс "@ + claimed, ", проверить нечем"@);
        },
        _ => {},
    }
    assert(all_plain(text));
    printable_characters_have_letters(text[i]);
}

} // verus!
