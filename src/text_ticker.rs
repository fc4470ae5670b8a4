use vstd::prelude::*;

use crate::dot_matrix::DotMatrix;

verus! {

/// Width of a glyph in pixels.
pub const FONT_WIDTH: u8 = 5;
/// Height of a glyph in pixels (one byte per row, leftmost pixel in the top bit).
pub const FONT_HEIGHT: usize = 7;
/// Horizontal distance between the starts of two characters of a ticker.
pub const CHAR_PITCH: u64 = 6;
/// Characters of a ticker that can be visible at once: `ceil((8 + pitch) / pitch)`.
pub const VISIBLE_CHARS: u64 = 3;
/// First frame row of a ticker's glyphs: `(8 - FONT_HEIGHT) / 2`.
pub const TICKER_TOP: usize = 0;
/// Fixed-point scale of ticker scroll positions and speeds: one pixel is this many units.
pub const SCROLL_UNIT: u64 = 1000;
/// Capacity of a ticker's text, in bytes.
pub const TEXT_CAPACITY: usize = 100;

#[verifier::external_type_specification]
#[verifier::external_body]
pub struct ExHeaplessString<const N: usize>(heapless::String<N>);

/// The characters a ticker text holds.
pub uninterp spec fn text_chars(s: heapless::String<TEXT_CAPACITY>) -> Seq<char>;

/// Bytes of the UTF-8 encoding of `c`.
pub open spec fn utf8_size(c: char) -> nat {
    if (c as u32) < 0x80 {
        1
    } else if (c as u32) < 0x800 {
        2
    } else if (c as u32) < 0x10000 {
        3
    } else {
        4
    }
}

/// Bytes of the UTF-8 encoding of `s`.
pub open spec fn utf8_len(s: Seq<char>) -> nat
    decreases s.len(),
{
    if s.len() == 0 {
        0
    } else {
        utf8_len(s.drop_last()) + utf8_size(s.last())
    }
}

/// Relies on `heapless::String::new`: an empty string.
#[verifier::external_body]
pub(crate) fn text_new() -> (r: heapless::String<TEXT_CAPACITY>)
    ensures
        text_chars(r) == Seq::<char>::empty(),
{
    heapless::String::new()
}

/// Relies on `heapless::String::push`: appends `c` when its UTF-8 bytes still
/// fit in the capacity, else leaves the string as it was.
#[verifier::external_body]
pub(crate) fn text_push(s: &mut heapless::String<TEXT_CAPACITY>, c: char) -> (ok: bool)
    ensures
        ok == (utf8_len(text_chars(*old(s))) + utf8_size(c) <= TEXT_CAPACITY),
        ok ==> text_chars(*final(s)) == text_chars(*old(s)).push(c),
        !ok ==> text_chars(*final(s)) == text_chars(*old(s)),
{
    s.push(c).is_ok()
}

/// Relies on `str::len` of the string's contents: their length in bytes.
#[verifier::external_body]
fn text_byte_len(s: &heapless::String<TEXT_CAPACITY>) -> (r: usize)
    ensures
        r == utf8_len(text_chars(*s)),
{
    s.as_str().len()
}

/// Relies on `Iterator::nth` over `str::chars` of the string's contents:
/// character `i`, if there is one.
#[verifier::external_body]
fn text_char_at(s: &heapless::String<TEXT_CAPACITY>, i: usize) -> (r: Option<char>)
    ensures
        i < text_chars(*s).len() ==> r == Some(text_chars(*s)[i as int]),
        i >= text_chars(*s).len() ==> r is None,
{
    s.as_str().chars().nth(i)
}

/// The bitmap of one character.
#[derive(Clone, Copy, Debug)]
pub struct Glyph {
    pub ch: char,
    pub rows: [u8; FONT_HEIGHT],
}

/// A table of glyphs.
pub struct Font {
    pub glyphs: Vec<Glyph>,
}

/// Rows of the first glyph of `s` for `c`, if any.
pub open spec fn lookup(s: Seq<Glyph>, c: char) -> Option<Seq<u8>>
    decreases s.len(),
{
    if s.len() == 0 {
        None
    } else if s[0].ch == c {
        Some(s[0].rows@)
    } else {
        lookup(s.subrange(1, s.len() as int), c)
    }
}

/// Rows drawn for `c`: its glyph, or blank rows when the font has none.
pub open spec fn glyph_rows(s: Seq<Glyph>, c: char) -> Seq<u8> {
    match lookup(s, c) {
        Some(r) => r,
        None => Seq::new(FONT_HEIGHT as nat, |i: int| 0u8),
    }
}

impl Font {
    /// A font made of `glyphs`; the first glyph of a character is the one used.
    pub fn new(glyphs: Vec<Glyph>) -> (r: Font)
        ensures
            r.glyphs@ == glyphs@,
    {
        Font { glyphs }
    }

    /// The glyph for `c`, if the font has one.
    pub fn get_font_data(&self, c: char) -> (r: Option<[u8; FONT_HEIGHT]>)
        ensures
            match r {
                Some(rows) => lookup(self.glyphs@, c) == Some(rows@),
                None => lookup(self.glyphs@, c).is_none(),
            },
    {
        let n = self.glyphs.len();
        let mut i: usize = 0;
        assert(self.glyphs@.subrange(0, n as int) =~= self.glyphs@);
        while i < n
            invariant
                0 <= i <= n,
                n == self.glyphs@.len(),
                lookup(self.glyphs@, c) == lookup(self.glyphs@.subrange(i as int, n as int), c),
            decreases n - i,
        {
            let g = self.glyphs[i];
            proof {
                let rest = self.glyphs@.subrange(i as int, n as int);
                assert(rest[0] == g);
                assert(rest.subrange(1, rest.len() as int) =~= self.glyphs@.subrange(i + 1, n as int));
            }
            if g.ch == c {
                return Some(g.rows);
            }
            i += 1;
        }
        None
    }

    /// The glyph for `c`, blank when the font has none.
    pub fn glyph_or_blank(&self, c: char) -> (r: [u8; FONT_HEIGHT])
        ensures
            r@ == glyph_rows(self.glyphs@, c),
    {
        match self.get_font_data(c) {
            Some(rows) => rows,
            None => {
                let rows = [0u8; FONT_HEIGHT];
                assert(rows@ =~= Seq::new(FONT_HEIGHT as nat, |i: int| 0u8));
                rows
            },
        }
    }
}

/// A text scrolling right to left across the display, repeating forever.
/// Position and speed are in thousandths of a pixel (per millisecond).
pub struct TextTicker {
    pub text: heapless::String<TEXT_CAPACITY>,
    pub scroll_position: u64,
    pub scroll_speed: u64,
}

/// Scroll position after `dt` ms at `speed`, held at `u64::MAX`.
pub open spec fn scrolled(pos: int, dt: int, speed: int) -> int {
    if pos + dt * speed > u64::MAX {
        u64::MAX as int
    } else {
        pos + dt * speed
    }
}

/// Contribution of a glyph row to a frame row when the glyph starts `shift`
/// columns right of the frame's left edge.
pub open spec fn shifted_glyph_row(row: u8, shift: int) -> u8 {
    if shift < 0 {
        row << ((-shift) as u8)
    } else if shift < 8 {
        row >> (shift as u8)
    } else {
        0
    }
}

/// Glyph rows of character `k` of the visible window. The text repeats with
/// a period of its length in bytes; a position past its last character, which
/// only a text with multi-byte characters has, is blank.
pub open spec fn window_glyph(glyphs: Seq<Glyph>, text: Seq<char>, pos: int, k: int) -> Seq<u8> {
    let i = ((pos / SCROLL_UNIT as int) / CHAR_PITCH as int + k) % utf8_len(text) as int;
    if i < text.len() {
        glyph_rows(glyphs, text[i])
    } else {
        Seq::new(FONT_HEIGHT as nat, |j: int| 0u8)
    }
}

/// Column offset of the window's first character.
pub open spec fn window_offset(pos: int) -> int {
    (pos / SCROLL_UNIT as int) % CHAR_PITCH as int
}

/// Row `y` of the frame made of the first `k` visible characters.
pub open spec fn ticker_row_upto(glyphs: Seq<Glyph>, text: Seq<char>, pos: int, y: int, k: int) -> u8
    decreases k,
{
    if k <= 0 {
        0
    } else {
        ticker_row_upto(glyphs, text, pos, y, k - 1) | shifted_glyph_row(
            window_glyph(glyphs, text, pos, k - 1)[y],
            CHAR_PITCH * (k - 1) - window_offset(pos),
        )
    }
}

/// The frame a ticker shows: glyph rows at the top of the frame, the rest blank.
pub open spec fn ticker_frame(glyphs: Seq<Glyph>, text: Seq<char>, pos: int) -> Seq<u8> {
    Seq::new(
        8,
        |y: int|
            if TICKER_TOP <= y < TICKER_TOP + FONT_HEIGHT {
                ticker_row_upto(glyphs, text, pos, y - TICKER_TOP, VISIBLE_CHARS as int)
            } else {
                0u8
            },
    )
}

impl TextTicker {
    /// A ticker at the start of `text`, scrolling at `scroll_speed` thousandths of a pixel per ms.
    pub fn new(text: heapless::String<TEXT_CAPACITY>, scroll_speed: u64) -> (r: TextTicker)
        ensures
            r.text == text,
            r.scroll_position == 0,
            r.scroll_speed == scroll_speed,
    {
        TextTicker { text, scroll_position: 0, scroll_speed }
    }

    /// Scrolls on by `delta_time_ms`.
    pub fn update(&mut self, delta_time_ms: u64)
        ensures
            final(self).text == old(self).text,
            final(self).scroll_speed == old(self).scroll_speed,
            final(self).scroll_position == scrolled(
                old(self).scroll_position as int,
                delta_time_ms as int,
                old(self).scroll_speed as int,
            ),
    {
        let a = delta_time_ms as u128;
        let b = self.scroll_speed as u128;
        proof {
            assert(a * b <= 18446744073709551615u128 * 18446744073709551615u128) by (nonlinear_arith)
                requires a <= 18446744073709551615u128, b <= 18446744073709551615u128;
        }
        let step = a * b;
        let n = self.scroll_position as u128 + step;
        self.scroll_position = if n > u64::MAX as u128 {
            u64::MAX
        } else {
            n as u64
        };
    }

    /// Draws the visible part of the text; an empty text leaves the frame as it is.
    pub fn draw(&self, font: &Font, dot_matrix: &mut DotMatrix)
        ensures
            utf8_len(text_chars(self.text)) == 0 ==> final(dot_matrix)@ == old(dot_matrix)@,
            utf8_len(text_chars(self.text)) > 0 ==> final(dot_matrix)@ == ticker_frame(
                font.glyphs@,
                text_chars(self.text),
                self.scroll_position as int,
            ),
            final(dot_matrix).intensity_spec() == old(dot_matrix).intensity_spec(),
    {
        let len = text_byte_len(&self.text);
        let ghost chars = text_chars(self.text);
        if len == 0 {
            return;
        }
        let px = self.scroll_position / SCROLL_UNIT;
        let text_idx = px / CHAR_PITCH;
        let x_offs = px % CHAR_PITCH;
        let ghost pos = self.scroll_position as int;
        proof {
            assert(text_idx <= 18446744073709551615u64 / 6000) by (nonlinear_arith)
                requires
                    text_idx == px / 6,
                    px == self.scroll_position / 1000,
                    self.scroll_position <= 18446744073709551615u64;
        }
        let mut screen = [0u8; 8];
        let mut k: u64 = 0;
        while k < VISIBLE_CHARS
            invariant
                0 <= k <= VISIBLE_CHARS,
                len == utf8_len(chars),
                len > 0,
                text_idx == (pos / SCROLL_UNIT as int) / CHAR_PITCH as int,
                text_idx <= 18446744073709551615u64 / 6000,
                chars == text_chars(self.text),
                x_offs == window_offset(pos),
                screen@.len() == 8,
                forall|y: int|
                    0 <= y < FONT_HEIGHT ==> #[trigger] screen@[TICKER_TOP + y] == ticker_row_upto(
                        font.glyphs@,
                        chars,
                        pos,
                        y,
                        k as int,
                    ),
                forall|y: int| TICKER_TOP + FONT_HEIGHT <= y < 8 ==> #[trigger] screen@[y] == 0u8,
            decreases VISIBLE_CHARS - k,
        {
            let idx = ((text_idx + k) % (len as u64)) as usize;
            let glyph = match text_char_at(&self.text, idx) {
                Some(c) => font.glyph_or_blank(c),
                None => {
                    let blank = [0u8; FONT_HEIGHT];
                    assert(blank@ =~= Seq::new(FONT_HEIGHT as nat, |j: int| 0u8));
                    blank
                },
            };
            let shift: i64 = (CHAR_PITCH * k) as i64 - x_offs as i64;
            let mut y: usize = 0;
            while y < FONT_HEIGHT
                invariant
                    0 <= y <= FONT_HEIGHT,
                    0 <= k < VISIBLE_CHARS,
                    len == utf8_len(chars),
                    len > 0,
                    idx as int == ((pos / SCROLL_UNIT as int) / CHAR_PITCH as int + k) % len as int,
                    glyph@ == window_glyph(font.glyphs@, chars, pos, k as int),
                    shift == CHAR_PITCH * k - window_offset(pos),
                    -6 < shift < 18,
                    screen@.len() == 8,
                    forall|z: int|
                        0 <= z < y ==> #[trigger] screen@[TICKER_TOP + z] == ticker_row_upto(
                            font.glyphs@,
                            chars,
                            pos,
                            z,
                            k + 1,
                        ),
                    forall|z: int|
                        y <= z < FONT_HEIGHT ==> #[trigger] screen@[TICKER_TOP + z] == ticker_row_upto(
                            font.glyphs@,
                            chars,
                            pos,
                            z,
                            k as int,
                        ),
                    forall|z: int| TICKER_TOP + FONT_HEIGHT <= z < 8 ==> #[trigger] screen@[z] == 0u8,
                decreases FONT_HEIGHT - y,
            {
                let part: u8 = if shift < 0 {
                    glyph[y] << ((-shift) as u8)
                } else if shift < 8 {
                    glyph[y] >> (shift as u8)
                } else {
                    0
                };
                assert(part == shifted_glyph_row(glyph@[y as int], shift as int));
                screen[TICKER_TOP + y] = screen[TICKER_TOP + y] | part;
                y += 1;
            }
            k += 1;
        }
        dot_matrix.draw(&screen);
        proof {
            dot_matrix.lemma_rows_len();
        }
        assert forall|y: int| TICKER_TOP <= y < TICKER_TOP + FONT_HEIGHT implies dot_matrix@[y]
            == ticker_row_upto(font.glyphs@, chars, pos, y - TICKER_TOP, VISIBLE_CHARS as int) by {
            assert(screen@[TICKER_TOP + (y - TICKER_TOP)] == ticker_row_upto(
                font.glyphs@,
                chars,
                pos,
                y - TICKER_TOP,
                VISIBLE_CHARS as int,
            ));
        }
        assert(dot_matrix@ =~= ticker_frame(font.glyphs@, chars, pos));
    }
}

} // verus!
