//! Letters, and drawing them.
use crate::label::font_data::{GLYPHS, GLYPH_COUNT, GLYPH_HEIGHT, GLYPH_WIDTH, ROW_BYTES};
use crate::text::{chars_of, head_to, string_of};
use vstd::prelude::*;

verus! {

/// The pixels of a letter, row by row.
pub type Bitmap = [u8; 40];

/// What is drawn in the place of a character that has no letter.
pub const REPLACEMENT: char = '?';

/// What a cut text ends in. Three dots: there is no letter for an ellipsis.
pub const ELLIPSIS: &'static str = "...";

// ---------------------------------------------------------------------------------------------
// Letters
// ---------------------------------------------------------------------------------------------

pub open spec fn is_glyph_at(code: u32, i: int) -> bool {
    0 <= i < GLYPH_COUNT && GLYPHS@[i].0 == code
}

/// The dots of a letter, where there is one.
pub open spec fn dots_of(code: u32) -> Option<u64> {
    if exists|i: int| is_glyph_at(code, i) {
        Some(GLYPHS@[choose|i: int| is_glyph_at(code, i)].1)
    } else {
        None
    }
}

/// Whether a dot is set.
pub open spec fn dot(dots: u64, row: int, col: int) -> bool {
    (dots >> ((34 - (5 * row + col)) as u64)) & 1 == 1
}

/// Whether a pixel of a letter is set. The dots are stretched to two pixels down, and across to
/// two pixels and one in turn, and stand in the middle of the letter.
pub open spec fn pixel(dots: u64, row: int, col: int) -> bool {
    3 <= row < 17 && 1 <= col < 9 && dot(dots, (row - 3) / 2, 2 * (col - 1) / 3)
}

pub open spec fn bit(byte: u8, k: int) -> bool {
    (byte >> ((7 - k) as u8)) & 1 == 1
}

/// Whether a bitmap has a pixel set.
pub open spec fn bitmap_bit(bitmap: Seq<u8>, row: int, col: int) -> bool {
    bit(bitmap[row * ROW_BYTES + col / 8], col % 8)
}

/// A bitmap shows the dots of a letter.
pub open spec fn shows(bitmap: Seq<u8>, dots: u64) -> bool {
    &&& bitmap.len() == GLYPH_HEIGHT * ROW_BYTES
    &&& forall|row: int, col: int|
        0 <= row < GLYPH_HEIGHT && 0 <= col < GLYPH_WIDTH ==> #[trigger] bitmap_bit(
            bitmap,
            row,
            col,
        ) == pixel(dots, row, col)
}

/// Every dot of a letter is shown, in its row and its column, and the border of the letter stays
/// clear: letters that stand side by side do not touch.
pub proof fn every_dot_is_shown(dots: u64, row: int, col: int, px: int, py: int)
    requires
        0 <= row < 7,
        0 <= col < 5,
    ensures
        pixel(dots, 3 + 2 * row, 1 + (3 * col + 1) / 2) == dot(dots, row, col),
        pixel(dots, 4 + 2 * row, 1 + (3 * col + 1) / 2) == dot(dots, row, col),
        py < 3 || py >= 17 || px < 1 || px >= 9 ==> !pixel(dots, py, px),
{
}

/// The dots of a letter are read like a text: from the left to the right, and from the top to
/// the bottom. The last one is the lowest bit, and each one before it is the next higher bit.
pub proof fn dots_are_read_like_a_text(dots: u64, row: int, col: int)
    requires
        0 <= row < 7,
        0 <= col < 5,
    ensures
        dot(dots, 6, 4) <==> dots % 2 == 1,
        col < 4 ==> dot(dots, row, col) == dot(dots / 2, row, col + 1),
        col == 4 && row < 6 ==> dot(dots, row, col) == dot(dots / 2, row + 1, 0),
{
    let n = (34 - (5 * row + col)) as u64;
    assert((dots >> 0u64) & 1 == dots % 2) by (bit_vector);
    if n > 0 {
        let m = (n - 1) as u64;
        assert(((dots / 2) >> m) & 1 == (dots >> n) & 1) by (bit_vector)
            requires
                n == m + 1,
                n <= 34,
        ;
    }
}

/// The letters stand in the order of their codes.
proof fn lemma_glyphs_ordered(i: int, j: int)
    requires
        0 <= i < j < GLYPH_COUNT,
    ensures
        GLYPHS@[i].0 < GLYPHS@[j].0,
    decreases j - i,
{
    assert(forall|k: int|
        0 <= k < GLYPH_COUNT - 1 ==> (#[trigger] GLYPHS@[k]).0 < GLYPHS@[k + 1].0);
    if i < j - 1 {
        lemma_glyphs_ordered(i, j - 1);
        assert(GLYPHS@[j - 1].0 < GLYPHS@[j - 1 + 1].0);
    }
}

proof fn lemma_dots_of(code: u32, i: int)
    requires
        is_glyph_at(code, i),
    ensures
        dots_of(code) == Some(GLYPHS@[i].1),
{
    let k = choose|k: int| is_glyph_at(code, k);
    assert(is_glyph_at(code, k));
    if k < i {
        lemma_glyphs_ordered(k, i);
    } else if i < k {
        lemma_glyphs_ordered(i, k);
    }
}

/// There is a letter for the replacement.
proof fn lemma_replacement()
    ensures
        dots_of(REPLACEMENT as u32) is Some,
{
    assert(is_glyph_at('?' as u32, 31));
}

/// Whether a character has a letter of its own.
pub open spec fn has_letter(c: char) -> bool {
    dots_of(c as u32) is Some
}

/// The characters of ASCII that can be printed, and the Russian ones, have letters of their own.
pub proof fn printable_characters_have_letters(c: char)
    requires
        ' ' <= c <= '~' || 'А' <= c <= 'я' || c == 'ё' || c == 'Ё',
    ensures
        has_letter(c),
{
    let code = c as u32;
    assert(forall|i: int| 0 <= i < 95 ==> (#[trigger] GLYPHS@[i]).0 == 0x20 + i);
    assert(forall|i: int| 98 <= i < 162 ==> (#[trigger] GLYPHS@[i]).0 == 0x410 + i - 98);
    let at = if ' ' <= c <= '~' {
        code - 0x20
    } else if 'А' <= c <= 'я' {
        code - 0x410 + 98
    } else if c == 'Ё' {
        97
    } else {
        162
    };
    assert(GLYPHS@[at].0 == code);
    assert(is_glyph_at(code, at));
}

fn find_glyph(code: u32) -> (r: Option<u64>)
    ensures
        r == dots_of(code),
{
    let mut lo: usize = 0;
    let mut hi: usize = GLYPH_COUNT;
    while lo < hi
        invariant
            lo <= hi <= GLYPH_COUNT,
            forall|i: int| 0 <= i < lo ==> (#[trigger] GLYPHS@[i]).0 < code,
            forall|i: int| hi <= i < GLYPH_COUNT ==> (#[trigger] GLYPHS@[i]).0 > code,
        decreases hi - lo,
    {
        let mid: usize = lo + (hi - lo) / 2;
        let at: u32 = GLYPHS[mid].0;
        if at == code {
            proof {
                lemma_dots_of(code, mid as int);
            }
            return Some(GLYPHS[mid].1);
        }
        if at < code {
            assert forall|i: int| 0 <= i <= mid implies (#[trigger] GLYPHS@[i]).0 < code by {
                if i < mid {
                    lemma_glyphs_ordered(i, mid as int);
                }
            }
            lo = mid + 1;
        } else {
            assert forall|i: int| mid <= i < GLYPH_COUNT implies (#[trigger] GLYPHS@[i]).0 > code by {
                if mid < i {
                    lemma_glyphs_ordered(mid as int, i);
                }
            }
            hi = mid;
        }
    }
    assert forall|i: int| !is_glyph_at(code, i) by {
        if 0 <= i < GLYPH_COUNT {
            assert(GLYPHS@[i].0 < code || GLYPHS@[i].0 > code);
        }
    }
    None
}

fn set_bit(byte: u8, k: u8) -> (r: u8)
    requires
        k < 8,
    ensures
        forall|j: int| 0 <= j < 8 ==> #[trigger] bit(r, j) == (j == k || bit(byte, j)),
{
    let r: u8 = byte | (0x80u8 >> k);
    assert forall|j: int| 0 <= j < 8 implies #[trigger] bit(r, j) == (j == k || bit(byte, j)) by {
        let m = (7 - j) as u8;
        assert(m < 8 && k < 8 && r == byte | (0x80u8 >> k) ==> ((r >> m) & 1 == 1) == (m == 7 - k
            || (byte >> m) & 1 == 1)) by (bit_vector);
    }
    r
}

/// The pixels of a letter.
fn stretch(dots: u64) -> (r: Bitmap)
    ensures
        shows(r@, dots),
{
    let mut bitmap: Bitmap = [0u8; 40];
    for row in 0..GLYPH_HEIGHT
        invariant
            bitmap@.len() == 40,
            forall|i: int, k: int|
                0 <= i < row && 0 <= k < GLYPH_WIDTH ==> #[trigger] bitmap_bit(bitmap@, i, k)
                    == pixel(dots, i, k),
            forall|i: int| 2 * row <= i < 40 ==> #[trigger] bitmap@[i] == 0,
    {
        assert forall|k: int| 0 <= k < GLYPH_WIDTH implies !#[trigger] bitmap_bit(
            bitmap@,
            row as int,
            k,
        ) by {
            let m = (7 - k % 8) as u8;
            assert((0u8 >> m) & 1 == 0) by (bit_vector);
        }
        for col in 0..GLYPH_WIDTH
            invariant
                row < GLYPH_HEIGHT,
                bitmap@.len() == 40,
                forall|i: int, k: int|
                    0 <= i < row && 0 <= k < GLYPH_WIDTH ==> #[trigger] bitmap_bit(bitmap@, i, k)
                        == pixel(dots, i, k),
                forall|k: int|
                    0 <= k < col ==> #[trigger] bitmap_bit(bitmap@, row as int, k) == pixel(
                        dots,
                        row as int,
                        k,
                    ),
                forall|k: int|
                    col <= k < GLYPH_WIDTH ==> !#[trigger] bitmap_bit(bitmap@, row as int, k),
                forall|i: int| 2 * row + 2 <= i < 40 ==> #[trigger] bitmap@[i] == 0,
        {
            let mut lit: bool = false;
            if 3 <= row && row < 17 && 1 <= col && col < 9 {
                let r: usize = (row - 3) / 2;
                let c: usize = 2 * (col - 1) / 3;
                let n: u64 = (34 - (5 * r + c)) as u64;
                lit = (dots >> n) & 1 == 1;
            }
            assert(lit == pixel(dots, row as int, col as int));
            if lit {
                let at: usize = row * ROW_BYTES + col / 8;
                let ghost before = bitmap@;
                let byte: u8 = set_bit(bitmap[at], (col % 8) as u8);
                bitmap[at] = byte;
                assert forall|i: int, k: int|
                    0 <= i < GLYPH_HEIGHT && 0 <= k < GLYPH_WIDTH implies #[trigger] bitmap_bit(
                    bitmap@,
                    i,
                    k,
                ) == (bitmap_bit(before, i, k) || (i == row && k == col)) by {
                    if i * ROW_BYTES + k / 8 == at {
                        assert(i == row && k / 8 == col / 8);
                        assert(bit(byte, k % 8) == (k % 8 == col % 8 || bit(
                            before[at as int],
                            k % 8,
                        )));
                    }
                }
            }
        }
    }
    bitmap
}

/// The letter of a character.
pub fn glyph(ch: char) -> (r: Option<Bitmap>)
    ensures
        match (r, dots_of(ch as u32)) {
            (Some(bitmap), Some(dots)) => shows(bitmap@, dots),
            (None, None) => true,
            _ => false,
        },
{
    match find_glyph(ch as u32) {
        Some(dots) => Some(stretch(dots)),
        None => None,
    }
}

/// The dots that are drawn for a character.
pub open spec fn drawn_dots(ch: char) -> u64 {
    match dots_of(ch as u32) {
        Some(dots) => dots,
        None => dots_of(REPLACEMENT as u32)->0,
    }
}

/// The letter of a character, or the replacement: a hole would shift the rest of the line.
pub fn glyph_or_replacement(ch: char) -> (r: Bitmap)
    ensures
        shows(r@, drawn_dots(ch)),
{
    match glyph(ch) {
        Some(bitmap) => bitmap,
        None => {
            proof {
                lemma_replacement();
            }
            stretch(find_glyph(REPLACEMENT as u32).unwrap())
        },
    }
}

// ---------------------------------------------------------------------------------------------
// Widths
// ---------------------------------------------------------------------------------------------

/// How wide a text is.
pub fn text_width_px(text: &str) -> (r: usize)
    requires
        text@.len() * GLYPH_WIDTH <= usize::MAX,
    ensures
        r == text@.len() * GLYPH_WIDTH,
{
    GLYPH_WIDTH * chars_of(text).len()
}

/// A text that fits into a width. A cut text shows that it is cut, where the width leaves room
/// for that.
pub open spec fn fitted(text: Seq<char>, max_px: nat) -> Seq<char> {
    let fits = max_px / GLYPH_WIDTH as nat;
    if text.len() <= fits {
        text
    } else if fits <= 3 {
        text.take(fits as int)
    } else {
        text.take(fits - 3) + ELLIPSIS@
    }
}

pub fn fit_text(text: &str, max_px: usize) -> (r: String)
    ensures
        r@ == fitted(text@, max_px as nat),
{
    let chars = chars_of(text);
    let fits: usize = max_px / GLYPH_WIDTH;
    if chars.len() <= fits {
        return text.to_owned();
    }
    if fits <= 3 {
        return string_of(&head_to(&chars, fits));
    }
    string_of(&head_to(&chars, fits - 3)).concat(ELLIPSIS)
}

/// What is fitted into a width is no wider, and is the text itself wherever that fits.
pub proof fn fitted_text_fits(text: Seq<char>, max_px: nat)
    ensures
        fitted(text, max_px).len() * GLYPH_WIDTH <= max_px,
        text.len() * GLYPH_WIDTH <= max_px ==> fitted(text, max_px) == text,
        text.len() * GLYPH_WIDTH > max_px && max_px >= 4 * GLYPH_WIDTH ==> {
            let cut = fitted(text, max_px);
            cut.subrange(cut.len() - 3, cut.len() as int) == ELLIPSIS@
        },
{
    reveal_strlit("...");
    assert(ELLIPSIS@.len() == 3);
    let fits = max_px / GLYPH_WIDTH as nat;
    if text.len() > fits && fits > 3 {
        let cut = fitted(text, max_px);
        assert(cut.subrange(cut.len() - 3, cut.len() as int) =~= ELLIPSIS@);
    }
}

// ---------------------------------------------------------------------------------------------
// Drawing
// ---------------------------------------------------------------------------------------------

/// Whether a letter with its corner at `x`, `y` sets the pixel `px`, `py`.
pub open spec fn glyph_lights(bitmap: Seq<u8>, x: int, y: int, px: int, py: int) -> bool {
    x <= px < x + GLYPH_WIDTH && y <= py < y + GLYPH_HEIGHT && bitmap_bit(bitmap, py - y, px - x)
}

/// A picture with the pixels of a letter in a colour. Nothing is drawn beyond the picture, and
/// nothing wraps into the next row.
pub open spec fn with_glyph(
    buf: Seq<u32>,
    width: int,
    height: int,
    x: int,
    y: int,
    bitmap: Seq<u8>,
    fg: u32,
) -> Seq<u32> {
    Seq::new(
        buf.len(),
        |i: int|
            if i < width * height && glyph_lights(bitmap, x, y, i % width, i / width) {
                fg
            } else {
                buf[i]
            },
    )
}

pub proof fn lemma_pixel_index(width: int, height: int, px: int, py: int)
    requires
        0 <= px < width,
        0 <= py < height,
    ensures
        0 <= py * width + px < width * height,
        (py * width + px) % width == px,
        (py * width + px) / width == py,
{
    vstd::arithmetic::div_mod::lemma_fundamental_div_mod_converse(py * width + px, width, py, px);
    assert((py + 1) * width <= height * width) by (nonlinear_arith)
        requires
            py + 1 <= height,
            width > 0,
    ;
    assert((py + 1) * width == py * width + width) by (nonlinear_arith);
    assert(height * width == width * height) by (nonlinear_arith);
    assert(py * width >= 0) by (nonlinear_arith)
        requires
            py >= 0,
            width > 0,
    ;
}

proof fn lemma_pixel_place(width: int, height: int, i: int)
    requires
        width > 0,
        0 <= i < width * height,
    ensures
        0 <= i % width < width,
        0 <= i / width < height,
        i == (i / width) * width + i % width,
{
    vstd::arithmetic::div_mod::lemma_fundamental_div_mod(i, width);
    assert(i == width * (i / width) + i % width);
    assert(width * (i / width) == (i / width) * width) by (nonlinear_arith);
    assert(i / width < height) by (nonlinear_arith)
        requires
            width > 0,
            0 <= i < width * height,
            i == width * (i / width) + i % width,
            i % width >= 0,
    ;
    assert(i / width >= 0) by (nonlinear_arith)
        requires
            width > 0,
            0 <= i,
    ;
}

/// The pixels before a place of a letter, in reading order, have been drawn.
spec fn drawn_to(
    buf: Seq<u32>,
    start: Seq<u32>,
    width: int,
    height: int,
    x: int,
    y: int,
    bitmap: Seq<u8>,
    fg: u32,
    row: int,
    col: int,
) -> bool {
    &&& buf.len() == start.len()
    &&& forall|i: int|
        0 <= i < buf.len() ==> #[trigger] buf[i] == (if i < width * height && glyph_lights(
            bitmap,
            x,
            y,
            i % width,
            i / width,
        ) && (i / width < y + row || (i / width == y + row && i % width < x + col)) {
            fg
        } else {
            start[i]
        })
}

/// Draws a letter.
pub fn draw_glyph(
    buf: &mut Vec<u32>,
    buf_width: usize,
    buf_height: usize,
    x: usize,
    y: usize,
    bitmap: &Bitmap,
    fg: u32,
)
    requires
        old(buf)@.len() >= buf_width * buf_height,
    ensures
        final(buf)@ == with_glyph(
            old(buf)@,
            buf_width as int,
            buf_height as int,
            x as int,
            y as int,
            bitmap@,
            fg,
        ),
{
    let ghost start = buf@;
    let ghost w = buf_width as int;
    let ghost h = buf_height as int;
    let size: usize = buf.len();
    let mut row: usize = 0;
    while row < GLYPH_HEIGHT && y < buf_height && row < buf_height - y
        invariant
            row <= GLYPH_HEIGHT,
            w == buf_width,
            h == buf_height,
            size == start.len() >= w * h,
            drawn_to(buf@, start, w, h, x as int, y as int, bitmap@, fg, row as int, 0),
        decreases GLYPH_HEIGHT - row,
    {
        let py: usize = y + row;
        let mut col: usize = 0;
        while col < GLYPH_WIDTH && x < buf_width && col < buf_width - x
            invariant
                row < GLYPH_HEIGHT,
                col <= GLYPH_WIDTH,
                y < buf_height,
                row < buf_height - y,
                py == y + row,
                w == buf_width,
                h == buf_height,
                size == start.len() >= w * h,
                drawn_to(buf@, start, w, h, x as int, y as int, bitmap@, fg, row as int, col as int),
            decreases GLYPH_WIDTH - col,
        {
            let px: usize = x + col;
            proof {
                lemma_pixel_index(w, h, px as int, py as int);
            }
            let byte: u8 = bitmap[row * ROW_BYTES + col / 8];
            let shift: u8 = (7 - col % 8) as u8;
            let ghost before = buf@;
            if (byte >> shift) & 1 == 1 {
                let at: usize = py * buf_width + px;
                buf.set(at, fg);
            }
            proof {
                lemma_draw_step(before, buf@, start, w, h, x as int, y as int, bitmap@, fg, row as int, col as int);
            }
            col = col + 1;
        }
        proof {
            lemma_row_done(buf@, start, w, h, x as int, y as int, bitmap@, fg, row as int, col as int);
        }
        row = row + 1;
    }
    proof {
        lemma_all_done(buf@, start, w, h, x as int, y as int, bitmap@, fg, row as int);
    }
}

proof fn lemma_draw_step(
    before: Seq<u32>,
    after: Seq<u32>,
    start: Seq<u32>,
    w: int,
    h: int,
    x: int,
    y: int,
    bitmap: Seq<u8>,
    fg: u32,
    row: int,
    col: int,
)
    requires
        0 <= x,
        0 <= y,
        0 <= row < GLYPH_HEIGHT,
        0 <= col < GLYPH_WIDTH,
        x + col < w,
        y + row < h,
        w * h <= start.len(),
        drawn_to(before, start, w, h, x, y, bitmap, fg, row, col),
        after == (if bitmap_bit(bitmap, row, col) {
            before.update((y + row) * w + (x + col), fg)
        } else {
            before
        }),
    ensures
        drawn_to(after, start, w, h, x, y, bitmap, fg, row, col + 1),
{
    lemma_pixel_index(w, h, x + col, y + row);
    let at = (y + row) * w + (x + col);
    assert forall|i: int| 0 <= i < after.len() implies #[trigger] after[i] == (if i < w * h
        && glyph_lights(bitmap, x, y, i % w, i / w) && (i / w < y + row || (i / w == y + row && i
        % w < x + (col + 1))) {
        fg
    } else {
        start[i]
    }) by {
        assert(before[i] == before[i]);
        if i < w * h {
            lemma_pixel_place(w, h, i);
            if i / w == y + row && i % w == x + col {
                assert(i == at);
            }
        }
    }
}

proof fn lemma_row_done(
    buf: Seq<u32>,
    start: Seq<u32>,
    w: int,
    h: int,
    x: int,
    y: int,
    bitmap: Seq<u8>,
    fg: u32,
    row: int,
    col: int,
)
    requires
        0 <= x,
        0 <= y,
        y < h,
        0 <= w,
        drawn_to(buf, start, w, h, x, y, bitmap, fg, row, col),
        col == GLYPH_WIDTH || x + col >= w,
    ensures
        drawn_to(buf, start, w, h, x, y, bitmap, fg, row + 1, 0),
{
    assert forall|i: int| 0 <= i < buf.len() implies #[trigger] buf[i] == (if i < w * h
        && glyph_lights(bitmap, x, y, i % w, i / w) && (i / w < y + (row + 1) || (i / w == y + (row
        + 1) && i % w < x + 0)) {
        fg
    } else {
        start[i]
    }) by {
        if i < w * h {
            assert(w > 0) by (nonlinear_arith)
                requires
                    0 <= i < w * h,
                    0 <= w,
            ;
            lemma_pixel_place(w, h, i);
        }
    }
}

proof fn lemma_all_done(
    buf: Seq<u32>,
    start: Seq<u32>,
    w: int,
    h: int,
    x: int,
    y: int,
    bitmap: Seq<u8>,
    fg: u32,
    row: int,
)
    requires
        0 <= x,
        0 <= y,
        0 <= w,
        drawn_to(buf, start, w, h, x, y, bitmap, fg, row, 0),
        row == GLYPH_HEIGHT || y + row >= h,
    ensures
        buf == with_glyph(start, w, h, x, y, bitmap, fg),
{
    let all = with_glyph(start, w, h, x, y, bitmap, fg);
    assert forall|i: int| 0 <= i < buf.len() implies buf[i] == all[i] by {
        if i < w * h {
            assert(w > 0) by (nonlinear_arith)
                requires
                    0 <= i < w * h,
                    0 <= w,
            ;
            lemma_pixel_place(w, h, i);
        }
    }
    assert(buf =~= all);
}

/// Whether a text that begins at `x`, `y` sets the pixel `px`, `py`: the letters stand side by
/// side.
pub open spec fn text_lights(text: Seq<char>, x: int, y: int, px: int, py: int) -> bool {
    &&& x <= px < x + text.len() * GLYPH_WIDTH
    &&& y <= py < y + GLYPH_HEIGHT
    &&& pixel(drawn_dots(text[(px - x) / GLYPH_WIDTH as int]), py - y, (px - x) % GLYPH_WIDTH as int)
}

/// A picture with a text in a colour.
pub open spec fn with_text(
    buf: Seq<u32>,
    width: int,
    height: int,
    x: int,
    y: int,
    text: Seq<char>,
    fg: u32,
) -> Seq<u32> {
    Seq::new(
        buf.len(),
        |i: int|
            if i < width * height && text_lights(text, x, y, i % width, i / width) {
                fg
            } else {
                buf[i]
            },
    )
}

/// Draws a text.
pub fn draw_text(
    buf: &mut Vec<u32>,
    buf_width: usize,
    buf_height: usize,
    x: usize,
    y: usize,
    text: &str,
    fg: u32,
)
    requires
        old(buf)@.len() >= buf_width * buf_height,
        x + text@.len() * GLYPH_WIDTH <= usize::MAX,
    ensures
        final(buf)@ == with_text(
            old(buf)@,
            buf_width as int,
            buf_height as int,
            x as int,
            y as int,
            text@,
            fg,
        ),
{
    let ghost start = buf@;
    let ghost w = buf_width as int;
    let ghost h = buf_height as int;
    let chars = chars_of(text);
    let mut cursor_x: usize = x;
    assert(buf@ =~= with_text(start, w, h, x as int, y as int, text@.take(0), fg));
    for i in 0..chars.len()
        invariant
            chars@ == text@,
            w == buf_width,
            h == buf_height,
            start.len() >= w * h,
            x + text@.len() * GLYPH_WIDTH <= usize::MAX,
            cursor_x == x + i * GLYPH_WIDTH,
            buf@ == with_text(start, w, h, x as int, y as int, text@.take(i as int), fg),
    {
        let bitmap = glyph_or_replacement(chars[i]);
        let ghost before = buf@;
        draw_glyph(buf, buf_width, buf_height, cursor_x, y, &bitmap, fg);
        proof {
            lemma_next_letter(before, start, w, h, x as int, y as int, text@, fg, i as int, bitmap@);
        }
        cursor_x = cursor_x + GLYPH_WIDTH;
    }
    assert(text@.take(chars@.len() as int) =~= text@);
}

proof fn lemma_next_letter(
    before: Seq<u32>,
    start: Seq<u32>,
    w: int,
    h: int,
    x: int,
    y: int,
    text: Seq<char>,
    fg: u32,
    i: int,
    bitmap: Seq<u8>,
)
    requires
        0 <= i < text.len(),
        before == with_text(start, w, h, x, y, text.take(i), fg),
        shows(bitmap, drawn_dots(text[i])),
    ensures
        with_glyph(before, w, h, x + i * GLYPH_WIDTH, y, bitmap, fg) == with_text(
            start,
            w,
            h,
            x,
            y,
            text.take(i + 1),
            fg,
        ),
{
    let after = with_glyph(before, w, h, x + i * GLYPH_WIDTH, y, bitmap, fg);
    let want = with_text(start, w, h, x, y, text.take(i + 1), fg);
    assert forall|k: int| 0 <= k < after.len() implies after[k] == want[k] by {
        let px = k % w;
        let py = k / w;
        let d = px - x;
        if x <= px < x + (i + 1) * GLYPH_WIDTH {
            let c = d / GLYPH_WIDTH as int;
            assert(0 <= c <= i);
            assert(text.take(i + 1)[c] == text[c]);
            if d >= i * GLYPH_WIDTH {
                assert(c == i);
                assert(d % GLYPH_WIDTH as int == d - i * GLYPH_WIDTH);
                if y <= py < y + GLYPH_HEIGHT {
                    assert(bitmap_bit(bitmap, py - y, d - i * GLYPH_WIDTH) == pixel(
                        drawn_dots(text[i]),
                        py - y,
                        d - i * GLYPH_WIDTH,
                    ));
                }
            } else {
                assert(c < i);
                assert(text.take(i)[c] == text[c]);
            }
        }
    }
    assert(after =~= want);
}

/// A text touches only the pixels of its own rectangle, and leaves a picture alone that it lies
/// outside of.
pub proof fn drawing_stays_inside(
    buf: Seq<u32>,
    width: int,
    height: int,
    x: int,
    y: int,
    text: Seq<char>,
    fg: u32,
)
    requires
        width > 0,
    ensures
        with_text(buf, width, height, x, y, text, fg).len() == buf.len(),
        forall|i: int|
            0 <= i < buf.len() && !(x <= i % width < x + text.len() * GLYPH_WIDTH && y <= i / width
                < y + GLYPH_HEIGHT) ==> #[trigger] with_text(
                buf,
                width,
                height,
                x,
                y,
                text,
                fg,
            )[i] == buf[i],
        x >= width ==> with_text(buf, width, height, x, y, text, fg) == buf,
{
    if x >= width {
        assert(with_text(buf, width, height, x, y, text, fg) =~= buf) by {
            assert forall|i: int| 0 <= i < buf.len() implies with_text(
                buf,
                width,
                height,
                x,
                y,
                text,
                fg,
            )[i] == buf[i] by {
                assert(i % width < width) by (nonlinear_arith)
                    requires
                        width > 0,
                ;
            }
        }
    }
}

} // verus!
