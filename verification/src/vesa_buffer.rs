//! Double-buffered framebuffer model, 16-bit colours, text output and line
//! drawing.
//!
//! The screen owns two pixel buffers of `SCREEN_WIDTH * SCREEN_HEIGHT`
//! 16-bit values: drawing goes to the back buffer, and `swap_buffers`
//! publishes it to the front buffer, which stands for the memory the display
//! hardware scans out.  Writing the front buffer to the real video memory is
//! a privileged copy that lives outside this crate.
//!
//! The character sink renders 8x8 glyphs of the basic font into the back
//! buffer, wrapping and scrolling as it goes; its whole effect on the writer
//! position and both buffers is pinned by a transition model in the
//! contracts.

use vstd::prelude::*;

use font8x8::UnicodeFonts;

verus! {

/// Horizontal resolution in pixels.
pub const SCREEN_WIDTH: usize = 800;

/// Vertical resolution in pixels.
pub const SCREEN_HEIGHT: usize = 600;

/// Pixels per buffer.
pub const SCREEN_PIXELS: usize = SCREEN_WIDTH * SCREEN_HEIGHT;

/// A colour in 5-6-5 format: five bits of red, six of green, five of blue.
#[derive(Clone, Copy, Debug, PartialEq, Eq)]
pub struct Colour16Bit {
    pub red: u8,
    pub green: u8,
    pub blue: u8,
}

impl Colour16Bit {
    /// Each channel fits its bit width.
    pub open spec fn in_range(self) -> bool {
        self.red < 32 && self.green < 64 && self.blue < 32
    }

    /// The packed 16-bit value of an in-range colour.
    pub open spec fn spec_as_u16(self) -> u16 {
        (self.red * 2048 + self.green * 32 + self.blue) as u16
    }

    /// The colour packed in a 16-bit value.
    pub open spec fn spec_from_u16(rgb: u16) -> Colour16Bit {
        Colour16Bit {
            red: ((rgb & 0xf800) >> 11) as u8,
            green: ((rgb & 0x7e0) >> 5) as u8,
            blue: (rgb & 0x1f) as u8,
        }
    }

    /// Pure red.
    pub fn red() -> (c: Colour16Bit)
        ensures
            c == (Colour16Bit { red: 0x1fu8, green: 0x0u8, blue: 0x0u8 }),
    {
        Colour16Bit { red: 0x1f, green: 0x0, blue: 0x0 }
    }

    /// Pure green.
    pub fn green() -> (c: Colour16Bit)
        ensures
            c == (Colour16Bit { red: 0x0u8, green: 0x3fu8, blue: 0x0u8 }),
    {
        Colour16Bit { red: 0x0, green: 0x3f, blue: 0x0 }
    }

    /// Pure blue.
    pub fn blue() -> (c: Colour16Bit)
        ensures
            c == (Colour16Bit { red: 0x0u8, green: 0x0u8, blue: 0x1fu8 }),
    {
        Colour16Bit { red: 0x0, green: 0x0, blue: 0x1f }
    }

    /// White: every channel at full scale.
    pub fn white() -> (c: Colour16Bit)
        ensures
            c == (Colour16Bit { red: 0x1fu8, green: 0x3fu8, blue: 0x1fu8 }),
    {
        Colour16Bit { red: 0x1f, green: 0x3f, blue: 0x1f }
    }

    /// Unpack a 16-bit value into its three channels.
    pub fn from_u16(rgb: u16) -> (c: Colour16Bit)
        ensures
            c == Colour16Bit::spec_from_u16(rgb),
            c.in_range(),
    {
        let red = ((rgb & 0xf800) >> 11) as u8;
        let green = ((rgb & 0x7e0) >> 5) as u8;
        let blue = (rgb & 0x1f) as u8;
        proof {
            assert(((rgb & 0xf800) >> 11) < 32 && ((rgb & 0x7e0) >> 5) < 64 && (rgb & 0x1f) < 32)
                by (bit_vector);
        }
        Colour16Bit { red, green, blue }
    }

    /// Pack the three channels into one 16-bit value.
    pub fn as_u16(&self) -> (r: u16)
        requires
            self.in_range(),
        ensures
            r == self.spec_as_u16(),
    {
        let red16 = self.red as u16;
        let green16 = self.green as u16;
        let blue16 = self.blue as u16;
        proof {
            assert(red16 < 32 && green16 < 64 && blue16 < 32 ==> (red16 << 11) == red16 * 2048 && (
            green16 << 5) == green16 * 32 && red16 * 2048 + green16 * 32 + blue16 <= 0xffff)
                by (bit_vector);
        }
        (red16 << 11) + (green16 << 5) + blue16
    }
}

/// All pixels of `s` are black.
pub open spec fn all_black(s: Seq<u16>) -> bool {
    forall|i: int| 0 <= i < s.len() ==> s[i] == 0u16
}

/// The pixel of `s` at column `x` of row `y`.
pub open spec fn pixel(s: Seq<u16>, x: int, y: int) -> u16 {
    s[y * (SCREEN_WIDTH as int) + x]
}

/// `s` scrolled up by `count` pixels: the first `count` pixels leave, black
/// pixels enter at the bottom.
pub open spec fn scroll_model(s: Seq<u16>, count: int) -> Seq<u16> {
    s.skip(count) + Seq::new(count as nat, |i: int| 0u16)
}

/// The double-buffered screen: drawing goes to the back buffer, the front
/// buffer is what the display scans out.
pub struct Screen {
    vga_buffer: Vec<u16>,
    back_buffer: Vec<u16>,
}

impl Screen {
    /// The published pixels.
    pub closed spec fn front(self) -> Seq<u16> {
        self.vga_buffer@
    }

    /// The pixels being drawn.
    pub closed spec fn back(self) -> Seq<u16> {
        self.back_buffer@
    }

    /// Both buffers cover the whole screen.
    pub open spec fn wf(self) -> bool {
        self.front().len() == SCREEN_PIXELS && self.back().len() == SCREEN_PIXELS
    }

    /// A screen with both buffers black.
    pub fn new() -> (s: Screen)
        ensures
            s.wf(),
            all_black(s.back()),
            s.front() == s.back(),
    {
        let vga_buffer = black_buffer();
        let back_buffer = black_buffer();
        let s = Screen { vga_buffer, back_buffer };
        proof {
            assert(s.front() =~= s.back());
        }
        s
    }

    /// Publish the back buffer: copy it into the front buffer.
    pub fn swap_buffers(&mut self)
        requires
            old(self).wf(),
        ensures
            final(self).wf(),
            final(self).front() == old(self).back(),
            final(self).back() == old(self).back(),
    {
        let mut i: usize = 0;
        while i < SCREEN_PIXELS
            invariant
                self.wf(),
                i <= SCREEN_PIXELS,
                self.back() == old(self).back(),
                forall|j: int| 0 <= j < i ==> self.front()[j] == old(self).back()[j],
            decreases SCREEN_PIXELS - i,
        {
            self.vga_buffer[i] = self.back_buffer[i];
            i = i + 1;
        }
        proof {
            assert(self.front() =~= old(self).back());
        }
    }

    /// Paint the back buffer black.
    fn clear_back_buffer(&mut self)
        requires
            old(self).wf(),
        ensures
            final(self).wf(),
            all_black(final(self).back()),
            final(self).front() == old(self).front(),
    {
        let mut i: usize = 0;
        while i < SCREEN_PIXELS
            invariant
                self.wf(),
                i <= SCREEN_PIXELS,
                self.front() == old(self).front(),
                forall|j: int| 0 <= j < i ==> self.back()[j] == 0u16,
            decreases SCREEN_PIXELS - i,
        {
            self.back_buffer[i] = 0;
            i = i + 1;
        }
    }

    /// Black out the back buffer and publish it.
    pub fn clear_screen(&mut self)
        requires
            old(self).wf(),
        ensures
            final(self).wf(),
            all_black(final(self).back()),
            final(self).front() == final(self).back(),
    {
        self.clear_back_buffer();
        self.swap_buffers();
    }

    /// Draw one pixel of the given colour into the back buffer.
    pub fn plot_pixel(&mut self, x: usize, y: usize, colour: &Colour16Bit)
        requires
            old(self).wf(),
            x < SCREEN_WIDTH,
            y < SCREEN_HEIGHT,
            colour.in_range(),
        ensures
            final(self).wf(),
            final(self).back() == old(self).back().update(
                y * (SCREEN_WIDTH as int) + x,
                colour.spec_as_u16(),
            ),
            final(self).front() == old(self).front(),
    {
        let v = colour.as_u16();
        self.back_buffer[y * SCREEN_WIDTH + x] = v;
    }

    /// Read back the colour of one back-buffer pixel.
    pub fn get_colour_at(&self, x: usize, y: usize) -> (c: Colour16Bit)
        requires
            self.wf(),
            x < SCREEN_WIDTH,
            y < SCREEN_HEIGHT,
        ensures
            c == Colour16Bit::spec_from_u16(pixel(self.back(), x as int, y as int)),
            c.in_range(),
    {
        Colour16Bit::from_u16(self.back_buffer[y * SCREEN_WIDTH + x])
    }

    /// Read one published (front-buffer) pixel.
    pub fn front_pixel(&self, x: usize, y: usize) -> (v: u16)
        requires
            self.wf(),
            x < SCREEN_WIDTH,
            y < SCREEN_HEIGHT,
        ensures
            v == pixel(self.front(), x as int, y as int),
    {
        self.vga_buffer[y * SCREEN_WIDTH + x]
    }

    /// Fill the fixed square from (400, 400) to (500, 500) of the back
    /// buffer with red.
    pub fn draw_red_square(&mut self)
        requires
            old(self).wf(),
        ensures
            final(self).wf(),
            final(self).front() == old(self).front(),
            forall|x: int, y: int|
                0 <= x < SCREEN_WIDTH && 0 <= y < SCREEN_HEIGHT ==> #[trigger] pixel(
                    final(self).back(),
                    x,
                    y,
                ) == if 400 <= x < 500 && 400 <= y < 500 {
                    0xf800u16
                } else {
                    pixel(old(self).back(), x, y)
                },
    {
        let red = Colour16Bit::red();
        let mut y: usize = 400;
        while y < 500
            invariant
                self.wf(),
                400 <= y <= 500,
                red == (Colour16Bit { red: 0x1fu8, green: 0x0u8, blue: 0x0u8 }),
                self.front() == old(self).front(),
                forall|xx: int, yy: int|
                    0 <= xx < SCREEN_WIDTH && 0 <= yy < SCREEN_HEIGHT ==> #[trigger] pixel(
                        self.back(),
                        xx,
                        yy,
                    ) == if 400 <= xx < 500 && 400 <= yy < y {
                        0xf800u16
                    } else {
                        pixel(old(self).back(), xx, yy)
                    },
            decreases 500 - y,
        {
            let ghost row_entry = self.back();
            let mut x: usize = 400;
            while x < 500
                invariant
                    self.wf(),
                    400 <= x <= 500,
                    400 <= y < 500,
                    red == (Colour16Bit { red: 0x1fu8, green: 0x0u8, blue: 0x0u8 }),
                    self.front() == old(self).front(),
                    forall|xx: int, yy: int|
                        0 <= xx < SCREEN_WIDTH && 0 <= yy < SCREEN_HEIGHT ==> #[trigger] pixel(
                            self.back(),
                            xx,
                            yy,
                        ) == if 400 <= xx < x && yy == y {
                            0xf800u16
                        } else {
                            pixel(row_entry, xx, yy)
                        },
                decreases 500 - x,
            {
                let ghost prev = *self;
                self.plot_pixel(x, y, &red);
                proof {
                    assert forall|xx: int, yy: int|
                        0 <= xx < SCREEN_WIDTH && 0 <= yy < SCREEN_HEIGHT implies #[trigger] pixel(
                        self.back(),
                        xx,
                        yy,
                    ) == if 400 <= xx < x + 1 && yy == y {
                        0xf800u16
                    } else {
                        pixel(row_entry, xx, yy)
                    } by {
                        assert(pixel(prev.back(), xx, yy) == if 400 <= xx < x && yy == y {
                            0xf800u16
                        } else {
                            pixel(row_entry, xx, yy)
                        });
                    }
                }
                x = x + 1;
            }
            y = y + 1;
        }
    }

    /// Scroll the back buffer up by `num_pixels` pixel rows: the topmost
    /// rows leave, black rows enter at the bottom; then publish.
    pub fn scroll_buffer_vertically(&mut self, num_pixels: usize)
        requires
            old(self).wf(),
            num_pixels <= SCREEN_HEIGHT,
        ensures
            final(self).wf(),
            final(self).back() == scroll_model(
                old(self).back(),
                (SCREEN_WIDTH * num_pixels) as int,
            ),
            final(self).front() == final(self).back(),
    {
        let count: usize = SCREEN_WIDTH * num_pixels;
        let keep: usize = SCREEN_PIXELS - count;
        let mut i: usize = 0;
        while i < keep
            invariant
                self.wf(),
                i <= keep,
                keep == SCREEN_PIXELS - count,
                count == SCREEN_WIDTH * num_pixels <= SCREEN_PIXELS,
                self.front() == old(self).front(),
                forall|j: int| 0 <= j < i ==> self.back()[j] == old(self).back()[j + count],
                forall|j: int| i <= j < SCREEN_PIXELS ==> self.back()[j] == old(self).back()[j],
            decreases keep - i,
        {
            self.back_buffer[i] = self.back_buffer[i + count];
            i = i + 1;
        }
        while i < SCREEN_PIXELS
            invariant
                self.wf(),
                keep <= i <= SCREEN_PIXELS,
                keep == SCREEN_PIXELS - count,
                count == SCREEN_WIDTH * num_pixels <= SCREEN_PIXELS,
                self.front() == old(self).front(),
                forall|j: int| 0 <= j < keep ==> self.back()[j] == old(self).back()[j + count],
                forall|j: int| keep <= j < i ==> self.back()[j] == 0u16,
            decreases SCREEN_PIXELS - i,
        {
            self.back_buffer[i] = 0;
            i = i + 1;
        }
        proof {
            assert(self.back() =~= scroll_model(
                old(self).back(),
                (SCREEN_WIDTH * num_pixels) as int,
            ));
        }
        self.swap_buffers();
    }

    /// Whether bit `dx` (left to right) of a sprite row is set.
    pub open spec fn sprite_bit(row: u16, dx: int) -> bool {
        row & (1u16 << ((15 - dx) as u16)) != 0
    }

    /// Draw a 16x16 monochrome sprite straight into the front buffer,
    /// bypassing the back buffer: set bits become white, clear bits black.
    pub fn draw_sprite_to_fb(&mut self, x: usize, y: usize, sprite: [u16; 16])
        requires
            old(self).wf(),
            x + 16 <= SCREEN_WIDTH,
            y + 16 <= SCREEN_HEIGHT,
        ensures
            final(self).wf(),
            final(self).back() == old(self).back(),
            forall|xx: int, yy: int|
                0 <= xx < SCREEN_WIDTH && 0 <= yy < SCREEN_HEIGHT ==> #[trigger] pixel(
                    final(self).front(),
                    xx,
                    yy,
                ) == if x <= xx < x + 16 && y <= yy < y + 16 {
                    if Self::sprite_bit(sprite@[yy - y], xx - x) {
                        0xffffu16
                    } else {
                        0u16
                    }
                } else {
                    pixel(old(self).front(), xx, yy)
                },
    {
        let mut row: usize = 0;
        while row < 16
            invariant
                self.wf(),
                row <= 16,
                x + 16 <= SCREEN_WIDTH,
                y + 16 <= SCREEN_HEIGHT,
                self.back() == old(self).back(),
                forall|xx: int, yy: int|
                    0 <= xx < SCREEN_WIDTH && 0 <= yy < SCREEN_HEIGHT ==> #[trigger] pixel(
                        self.front(),
                        xx,
                        yy,
                    ) == if x <= xx < x + 16 && y <= yy < y + row {
                        if Self::sprite_bit(sprite@[yy - y], xx - x) {
                            0xffffu16
                        } else {
                            0u16
                        }
                    } else {
                        pixel(old(self).front(), xx, yy)
                    },
            decreases 16 - row,
        {
            let ghost row_entry = self.front();
            let bits: u16 = sprite[row];
            let mut bit: usize = 0;
            while bit < 16
                invariant
                    self.wf(),
                    bit <= 16,
                    row < 16,
                    x + 16 <= SCREEN_WIDTH,
                    y + 16 <= SCREEN_HEIGHT,
                    bits == sprite@[row as int],
                    self.back() == old(self).back(),
                    forall|xx: int, yy: int|
                        0 <= xx < SCREEN_WIDTH && 0 <= yy < SCREEN_HEIGHT ==> #[trigger] pixel(
                            self.front(),
                            xx,
                            yy,
                        ) == if x <= xx < x + bit && yy == y + row {
                            if Self::sprite_bit(sprite@[yy - y], xx - x) {
                                0xffffu16
                            } else {
                                0u16
                            }
                        } else {
                            pixel(row_entry, xx, yy)
                        },
                decreases 16 - bit,
            {
                let value: u16 = if bits & (1u16 << ((15 - bit) as u16)) != 0 {
                    0xffff
                } else {
                    0x0
                };
                let ghost prev = *self;
                self.vga_buffer[(y + row) * SCREEN_WIDTH + (x + bit)] = value;
                proof {
                    assert forall|xx: int, yy: int|
                        0 <= xx < SCREEN_WIDTH && 0 <= yy < SCREEN_HEIGHT implies #[trigger] pixel(
                        self.front(),
                        xx,
                        yy,
                    ) == if x <= xx < x + bit + 1 && yy == y + row {
                        if Self::sprite_bit(sprite@[yy - y], xx - x) {
                            0xffffu16
                        } else {
                            0u16
                        }
                    } else {
                        pixel(row_entry, xx, yy)
                    } by {
                        assert(pixel(prev.front(), xx, yy) == if x <= xx < x + bit && yy == y + row {
                            if Self::sprite_bit(sprite@[yy - y], xx - x) {
                                0xffffu16
                            } else {
                                0u16
                            }
                        } else {
                            pixel(row_entry, xx, yy)
                        });
                    }
                }
                bit = bit + 1;
            }
            row = row + 1;
        }
    }
}

/// A buffer of `SCREEN_PIXELS` black pixels.
fn black_buffer() -> (v: Vec<u16>)
    ensures
        v@.len() == SCREEN_PIXELS,
        all_black(v@),
{
    let mut v: Vec<u16> = Vec::new();
    while v.len() < SCREEN_PIXELS
        invariant
            v@.len() <= SCREEN_PIXELS,
            all_black(v@),
        decreases SCREEN_PIXELS - v@.len(),
    {
        v.push(0);
    }
    v
}

/// Draw one pixel of the given colour into the screen's back buffer.
pub fn draw_pixel(screen: &mut Screen, x: usize, y: usize, colour: &Colour16Bit)
    requires
        old(screen).wf(),
        x < SCREEN_WIDTH,
        y < SCREEN_HEIGHT,
        colour.in_range(),
    ensures
        final(screen).wf(),
        final(screen).back() == old(screen).back().update(
            y * (SCREEN_WIDTH as int) + x,
            colour.spec_as_u16(),
        ),
        final(screen).front() == old(screen).front(),
{
    screen.plot_pixel(x, y, colour);
}

/// A character the text sink renders: newline, or printable seven-bit text.
pub open spec fn is_supported_char(c: char) -> bool {
    c == '\n' || (' ' <= c && c <= '~')
}

/// The 8x8 glyph of a basic-font character, one byte per row, least
/// significant bit leftmost.
pub uninterp spec fn glyph_of(c: char) -> Seq<u8>;

/// Relies on font8x8's `BASIC_FONTS.get`: the table covers the whole basic
/// block, so every printable seven-bit character has a glyph, and the glyph
/// of a character depends on that character alone.
#[verifier::external_body]
fn basic_glyph(c: char) -> (r: [u8; 8])
    requires
        ' ' <= c && c <= '~',
    ensures
        r@ == glyph_of(c),
{
    font8x8::BASIC_FONTS.get(c).unwrap()
}

/// Whether bit `dx` of row `dy` of `c`'s glyph is set.
pub open spec fn glyph_bit(c: char, dx: int, dy: int) -> bool {
    glyph_of(c)[dy] & (1u8 << (dx as u8)) != 0
}

/// Row `dy` of `c`'s glyph blitted into `s` at `(x0, y0 + dy)`, bit by bit
/// from the left, up to bit `bits`; set bits become white pixels, clear
/// bits leave the buffer alone.
pub open spec fn blit_row_bits(
    s: Seq<u16>,
    x0: int,
    y0: int,
    c: char,
    dy: int,
    bits: int,
) -> Seq<u16>
    decreases bits,
{
    if bits <= 0 {
        s
    } else {
        let prev = blit_row_bits(s, x0, y0, c, dy, bits - 1);
        if glyph_bit(c, bits - 1, dy) {
            prev.update((y0 + dy) * (SCREEN_WIDTH as int) + x0 + (bits - 1), 0xffffu16)
        } else {
            prev
        }
    }
}

/// The first `rows` rows of `c`'s glyph blitted into `s` at `(x0, y0)`.
pub open spec fn blit_glyph(s: Seq<u16>, x0: int, y0: int, c: char, rows: int) -> Seq<u16>
    decreases rows,
{
    if rows <= 0 {
        s
    } else {
        blit_row_bits(blit_glyph(s, x0, y0, c, rows - 1), x0, y0, c, rows - 1, 8)
    }
}

/// The whole state of the text sink: pen position and both pixel buffers.
pub ghost struct TextState {
    pub xpos: int,
    pub ypos: int,
    pub back: Seq<u16>,
    pub front: Seq<u16>,
}

/// What a newline does: pen to the line start, one text line down; past the
/// bottom edge the buffer scrolls one text line instead and is published.
pub open spec fn newline_model(t: TextState) -> TextState {
    if t.ypos + 8 >= SCREEN_HEIGHT {
        let b = scroll_model(t.back, 8 * (SCREEN_WIDTH as int));
        TextState { xpos: 0, ypos: t.ypos, back: b, front: b }
    } else {
        TextState { xpos: 0, ypos: t.ypos + 8, back: t.back, front: t.front }
    }
}

/// What writing one character does: newline for `'\n'`; otherwise the pen
/// advances one cell, the glyph lands in the back buffer, the buffers are
/// published, and the pen wraps when it reaches the right edge.
pub open spec fn char_model(t: TextState, c: char) -> TextState {
    if c == '\n' {
        newline_model(t)
    } else {
        let x2 = t.xpos + 8;
        let b2 = blit_glyph(t.back, x2, t.ypos, c, 8);
        let t2 = TextState { xpos: x2, ypos: t.ypos, back: b2, front: b2 };
        if x2 + 8 >= SCREEN_WIDTH {
            newline_model(t2)
        } else {
            t2
        }
    }
}

/// Writing a string is writing its characters in order.
pub open spec fn string_model(t: TextState, s: Seq<char>) -> TextState
    decreases s.len(),
{
    if s.len() == 0 {
        t
    } else {
        string_model(char_model(t, s.first()), s.drop_first())
    }
}

proof fn lemma_string_model_push(t: TextState, s: Seq<char>, c: char)
    ensures
        string_model(t, s.push(c)) == char_model(string_model(t, s), c),
    decreases s.len(),
{
    if s.len() == 0 {
        assert(s.push(c).first() == c);
        assert(s.push(c).drop_first() =~= Seq::<char>::empty());
        assert(string_model(t, s.push(c)) == string_model(
            char_model(t, c),
            Seq::<char>::empty(),
        ));
        assert(string_model(char_model(t, c), Seq::<char>::empty()) == char_model(t, c));
        assert(string_model(t, s) == t);
    } else {
        assert(s.push(c).len() > 0);
        assert(s.push(c).first() == s.first());
        assert(s.push(c).drop_first() =~= s.drop_first().push(c));
        assert(string_model(t, s.push(c)) == string_model(
            char_model(t, s.first()),
            s.drop_first().push(c),
        ));
        lemma_string_model_push(char_model(t, s.first()), s.drop_first(), c);
        assert(string_model(t, s) == string_model(char_model(t, s.first()), s.drop_first()));
    }
}

/// The pen of the text sink: where the next character cell lands.
pub struct Writer {
    xpos: usize,
    ypos: usize,
}

/// The combined text-sink state of a pen and a screen.
pub open spec fn text_state(w: Writer, s: Screen) -> TextState {
    TextState {
        xpos: w.spec_xpos() as int,
        ypos: w.spec_ypos() as int,
        back: s.back(),
        front: s.front(),
    }
}

impl Writer {
    /// Pen column, in pixels.
    pub closed spec fn spec_xpos(self) -> usize {
        self.xpos
    }

    /// Pen row, in pixels.
    pub closed spec fn spec_ypos(self) -> usize {
        self.ypos
    }

    /// The pen sits on the cell grid, with room for one cell plus one cell
    /// of lookahead before the right edge, and one cell above the bottom.
    pub open spec fn wf(self) -> bool {
        &&& self.spec_xpos() % 8 == 0
        &&& self.spec_ypos() % 8 == 0
        &&& self.spec_xpos() + 16 <= SCREEN_WIDTH
        &&& self.spec_ypos() + 8 <= SCREEN_HEIGHT
    }

    /// A pen at the top-left corner.
    pub fn new() -> (w: Writer)
        ensures
            w.wf(),
            w.spec_xpos() == 0,
            w.spec_ypos() == 0,
    {
        Writer { xpos: 0, ypos: 0 }
    }

    /// The pen position: `(column, row)` in pixels.
    pub fn position(&self) -> (r: (usize, usize))
        ensures
            r.0 == self.spec_xpos(),
            r.1 == self.spec_ypos(),
    {
        (self.xpos, self.ypos)
    }

    /// Black out the screen and move the pen to the top-left corner.
    pub fn clear_screen(&mut self, screen: &mut Screen)
        requires
            old(screen).wf(),
        ensures
            final(self).wf(),
            final(self).spec_xpos() == 0,
            final(self).spec_ypos() == 0,
            final(screen).wf(),
            all_black(final(screen).back()),
            final(screen).front() == final(screen).back(),
    {
        screen.clear_screen();
        self.xpos = 0;
        self.ypos = 0;
    }

    /// Move the pen to the start of the next text line, scrolling when it
    /// would leave the bottom edge.
    pub fn newline(&mut self, screen: &mut Screen)
        requires
            old(self).spec_ypos() % 8 == 0,
            old(self).spec_ypos() + 8 <= SCREEN_HEIGHT,
            old(screen).wf(),
        ensures
            final(self).wf(),
            final(screen).wf(),
            text_state(*final(self), *final(screen)) == newline_model(
                text_state(*old(self), *old(screen)),
            ),
    {
        self.ypos = self.ypos + 8;
        self.xpos = 0;
        if self.ypos >= SCREEN_HEIGHT {
            screen.scroll_buffer_vertically(8);
            self.ypos = self.ypos - 8;
        }
    }

    /// Render one character at the pen.
    pub fn write_char(&mut self, screen: &mut Screen, c: char)
        requires
            old(self).wf(),
            old(screen).wf(),
            is_supported_char(c),
        ensures
            final(self).wf(),
            final(screen).wf(),
            text_state(*final(self), *final(screen)) == char_model(
                text_state(*old(self), *old(screen)),
                c,
            ),
    {
        if c == '\n' {
            self.newline(screen);
            return ;
        }
        self.xpos = self.xpos + 8;
        let glyph = basic_glyph(c);
        let white = Colour16Bit::white();
        let ghost x0 = self.xpos as int;
        let ghost y0 = self.ypos as int;
        let ghost base = screen.back();
        let ghost front0 = screen.front();
        let mut y: usize = 0;
        while y < 8
            invariant
                screen.wf(),
                y <= 8,
                self.xpos == x0,
                self.ypos == y0,
                x0 % 8 == 0,
                y0 % 8 == 0,
                8 <= x0 <= SCREEN_WIDTH - 8,
                0 <= y0 <= SCREEN_HEIGHT - 8,
                glyph@ == glyph_of(c),
                white == (Colour16Bit { red: 0x1fu8, green: 0x3fu8, blue: 0x1fu8 }),
                screen.front() == front0,
                screen.back() == blit_glyph(base, x0, y0, c, y as int),
                base.len() == SCREEN_PIXELS,
            decreases 8 - y,
        {
            let row: u8 = glyph[y];
            let mut xb: u8 = 0;
            while xb < 8
                invariant
                    screen.wf(),
                    xb <= 8,
                    y < 8,
                    self.xpos == x0,
                    self.ypos == y0,
                    8 <= x0 <= SCREEN_WIDTH - 8,
                    0 <= y0 <= SCREEN_HEIGHT - 8,
                    glyph@ == glyph_of(c),
                    row == glyph_of(c)[y as int],
                    white == (Colour16Bit { red: 0x1fu8, green: 0x3fu8, blue: 0x1fu8 }),
                    screen.front() == front0,
                    screen.back() == blit_row_bits(
                        blit_glyph(base, x0, y0, c, y as int),
                        x0,
                        y0,
                        c,
                        y as int,
                        xb as int,
                    ),
                    base.len() == SCREEN_PIXELS,
                decreases 8 - xb,
            {
                if row & (1u8 << xb) != 0 {
                    screen.plot_pixel(self.xpos + (xb as usize), self.ypos + y, &white);
                }
                xb = xb + 1;
            }
            y = y + 1;
        }
        screen.swap_buffers();
        if self.xpos + 8 >= SCREEN_WIDTH {
            self.newline(screen);
        }
    }

    /// Render a string of supported characters, wrapping and scrolling as
    /// the pen goes.
    pub fn write_string(&mut self, screen: &mut Screen, s: &str)
        requires
            old(self).wf(),
            old(screen).wf(),
            forall|i: int| 0 <= i < s@.len() ==> is_supported_char(#[trigger] s@[i]),
        ensures
            final(self).wf(),
            final(screen).wf(),
            text_state(*final(self), *final(screen)) == string_model(
                text_state(*old(self), *old(screen)),
                s@,
            ),
    {
        proof {
            assert(vstd::utf8::is_ascii_chars(s@)) by {
                assert forall|i: int| 0 <= i < s@.len() implies '\0' <= #[trigger] s@[i]
                    <= '\u{7f}' by {
                    assert(is_supported_char(s@[i]));
                }
            }
            vstd::utf8::is_ascii_chars_encode_utf8(s@);
        }
        let ghost t0 = text_state(*old(self), *old(screen));
        let bytes = s.as_bytes();
        let mut i: usize = 0;
        while i < bytes.len()
            invariant
                self.wf(),
                screen.wf(),
                i <= bytes@.len(),
                bytes@.len() == s@.len(),
                forall|k: int| 0 <= k < s@.len() ==> bytes@[k] == #[trigger] s@[k] as u8,
                forall|k: int| 0 <= k < s@.len() ==> is_supported_char(#[trigger] s@[k]),
                text_state(*self, *screen) == string_model(t0, s@.subrange(0, i as int)),
            decreases bytes@.len() - i,
        {
            let b = bytes[i];
            let c = b as char;
            proof {
                assert(is_supported_char(s@[i as int]));
                assert(c == s@[i as int]);
            }
            self.write_char(screen, c);
            proof {
                lemma_string_model_push(t0, s@.subrange(0, i as int), s@[i as int]);
                assert(s@.subrange(0, i as int + 1) =~= s@.subrange(0, i as int).push(
                    s@[i as int],
                ));
            }
            i = i + 1;
        }
        proof {
            assert(s@.subrange(0, s@.len() as int) =~= s@);
        }
    }
}

/// Paint the points of `pts` into `s`, in order, with colour value `v`.
pub open spec fn paint_points(s: Seq<u16>, pts: Seq<(int, int)>, v: u16) -> Seq<u16>
    decreases pts.len(),
{
    if pts.len() == 0 {
        s
    } else {
        paint_points(
            s.update(pts.first().1 * (SCREEN_WIDTH as int) + pts.first().0, v),
            pts.drop_first(),
            v,
        )
    }
}

proof fn lemma_paint_points_push(s: Seq<u16>, pts: Seq<(int, int)>, p: (int, int), v: u16)
    ensures
        paint_points(s, pts.push(p), v) == paint_points(s, pts, v).update(
            p.1 * (SCREEN_WIDTH as int) + p.0,
            v,
        ),
    decreases pts.len(),
{
    if pts.len() == 0 {
        assert(pts.push(p).first() == p);
        assert(pts.push(p).drop_first() =~= Seq::<(int, int)>::empty());
        assert(paint_points(s, pts.push(p), v) == paint_points(
            s.update(p.1 * (SCREEN_WIDTH as int) + p.0, v),
            Seq::<(int, int)>::empty(),
            v,
        ));
    } else {
        assert(pts.push(p).len() > 0);
        assert(pts.push(p).first() == pts.first());
        assert(pts.push(p).drop_first() =~= pts.drop_first().push(p));
        let s2 = s.update(pts.first().1 * (SCREEN_WIDTH as int) + pts.first().0, v);
        assert(paint_points(s, pts.push(p), v) == paint_points(s2, pts.drop_first().push(p), v));
        lemma_paint_points_push(s2, pts.drop_first(), p, v);
        assert(paint_points(s, pts, v) == paint_points(s2, pts.drop_first(), v));
    }
}

/// The legal states of the line recursion: both step counters within their
/// spans, and the error term exactly its closed form.
pub open spec fn bres_inv(dx: int, dd: int, u: int, v: int, err: int) -> bool {
    0 <= u <= dx && 0 <= v <= dd && err == dx - dd - u * dd + v * dx
}

/// The pixels the line rasteriser visits from step `(u, v)` on: the current
/// pixel, then — unless both spans are exhausted — whichever of the two
/// half-steps the doubled error term allows.
pub open spec fn bres_rec(
    sx: int,
    sy: int,
    dirx: int,
    diry: int,
    dx: int,
    dd: int,
    u: int,
    v: int,
    err: int,
) -> Seq<(int, int)>
    decreases dx - u + dd - v,
        when bres_inv(dx, dd, u, v, err)
{
    let cx = sx + dirx * u;
    let cy = sy + diry * v;
    if u == dx && v == dd {
        seq![(cx, cy)]
    } else {
        let e2 = 2 * err;
        let u2 = if e2 >= -dd {
            u + 1
        } else {
            u
        };
        let v2 = if e2 <= dx {
            v + 1
        } else {
            v
        };
        let err2 = err + (if e2 >= -dd {
            -dd
        } else {
            0
        }) + (if e2 <= dx {
            dx
        } else {
            0
        });
        proof {
            lemma_bres_step(dx, dd, u, v, err);
        }
        seq![(cx, cy)] + bres_rec(sx, sy, dirx, diry, dx, dd, u2, v2, err2)
    }
}

/// One rasteriser step stays within the spans and keeps the error term's
/// closed form; at the far column only the y half-step can fire, at the far
/// row only the x half-step, so neither counter ever overshoots.
pub proof fn lemma_bres_step(dx: int, dd: int, u: int, v: int, err: int)
    requires
        bres_inv(dx, dd, u, v, err),
        !(u == dx && v == dd),
    ensures
        ({
            let e2 = 2 * err;
            let u2 = if e2 >= -dd {
                u + 1
            } else {
                u
            };
            let v2 = if e2 <= dx {
                v + 1
            } else {
                v
            };
            let err2 = err + (if e2 >= -dd {
                -dd
            } else {
                0
            }) + (if e2 <= dx {
                dx
            } else {
                0
            });
            bres_inv(dx, dd, u2, v2, err2) && u2 + v2 > u + v
        }),
{
    let e2 = 2 * err;
    if u == dx {
        assert(!(e2 >= -dd)) by (nonlinear_arith)
            requires
                e2 == 2 * (dx - dd - u * dd + v * dx),
                u == dx,
                0 <= v < dd,
                0 <= dx,
        ;
    }
    if v == dd {
        assert(!(e2 <= dx)) by (nonlinear_arith)
            requires
                e2 == 2 * (dx - dd - u * dd + v * dx),
                v == dd,
                0 <= u < dx,
                0 <= dd,
        ;
    }
    assert((u + 1) * dd == u * dd + dd) by (nonlinear_arith);
    assert((v + 1) * dx == v * dx + dx) by (nonlinear_arith);
}

/// The x or y unit step of the line from `s` to `e`.
pub open spec fn line_dir(s: int, e: int) -> int {
    if s < e {
        1
    } else {
        -1
    }
}

/// The absolute span of the line from `s` to `e`.
pub open spec fn line_span(s: int, e: int) -> int {
    if s < e {
        e - s
    } else {
        s - e
    }
}

/// The pixels of the line from `(sx, sy)` to `(ex, ey)`, in drawing order.
pub open spec fn line_points(sx: int, sy: int, ex: int, ey: int) -> Seq<(int, int)> {
    bres_rec(
        sx,
        sy,
        line_dir(sx, ex),
        line_dir(sy, ey),
        line_span(sx, ex),
        line_span(sy, ey),
        0,
        0,
        line_span(sx, ex) - line_span(sy, ey),
    )
}

/// `x` lies between `a` and `b`, whichever order they come in.
pub open spec fn between(a: int, b: int, x: int) -> bool {
    (a <= x <= b) || (b <= x <= a)
}

proof fn lemma_bres_rec_props(
    sx: int,
    sy: int,
    dirx: int,
    diry: int,
    dx: int,
    dd: int,
    u: int,
    v: int,
    err: int,
)
    requires
        bres_inv(dx, dd, u, v, err),
        dirx == 1 || dirx == -1,
        diry == 1 || diry == -1,
    ensures
        ({
            let pts = bres_rec(sx, sy, dirx, diry, dx, dd, u, v, err);
            &&& pts.len() >= 1
            &&& pts.first() == (sx + dirx * u, sy + diry * v)
            &&& pts.last() == (sx + dirx * dx, sy + diry * dd)
            &&& forall|k: int|
                0 <= k < pts.len() ==> between(sx + dirx * u, sx + dirx * dx, (#[trigger] pts[k]).0)
                    && between(sy + diry * v, sy + diry * dd, pts[k].1)
        }),
    decreases dx - u + dd - v,
{
    let pts = bres_rec(sx, sy, dirx, diry, dx, dd, u, v, err);
    if u == dx && v == dd {
    } else {
        let e2 = 2 * err;
        let u2 = if e2 >= -dd {
            u + 1
        } else {
            u
        };
        let v2 = if e2 <= dx {
            v + 1
        } else {
            v
        };
        let err2 = err + (if e2 >= -dd {
            -dd
        } else {
            0
        }) + (if e2 <= dx {
            dx
        } else {
            0
        });
        lemma_bres_step(dx, dd, u, v, err);
        lemma_bres_rec_props(sx, sy, dirx, diry, dx, dd, u2, v2, err2);
        let rest = bres_rec(sx, sy, dirx, diry, dx, dd, u2, v2, err2);
        assert(pts == seq![(sx + dirx * u, sy + diry * v)] + rest);
        assert(pts.last() == rest.last());
        assert forall|k: int|
            0 <= k < pts.len() implies between(
            sx + dirx * u,
            sx + dirx * dx,
            (#[trigger] pts[k]).0,
        ) && between(sy + diry * v, sy + diry * dd, pts[k].1) by {
            if k == 0 {
            } else {
                assert(pts[k] == rest[k - 1]);
                assert(between(sx + dirx * u2, sx + dirx * dx, rest[k - 1].0));
                assert(between(sy + diry * v2, sy + diry * dd, rest[k - 1].1));
                let px = rest[k - 1].0;
                let py = rest[k - 1].1;
                assert((sx + dirx * u <= px && px <= sx + dirx * dx) || (sx + dirx * dx <= px && px
                    <= sx + dirx * u)) by (nonlinear_arith)
                    requires
                        (sx + dirx * u2 <= px && px <= sx + dirx * dx) || (sx + dirx * dx <= px
                            && px <= sx + dirx * u2),
                        u <= u2 <= dx,
                        dirx == 1 || dirx == -1,
                ;
                assert((sy + diry * v <= py && py <= sy + diry * dd) || (sy + diry * dd <= py && py
                    <= sy + diry * v)) by (nonlinear_arith)
                    requires
                        (sy + diry * v2 <= py && py <= sy + diry * dd) || (sy + diry * dd <= py
                            && py <= sy + diry * v2),
                        v <= v2 <= dd,
                        diry == 1 || diry == -1,
                ;
            }
        }
    }
}

/// Law: a drawn line starts at its start point, ends at its end point, and
/// never leaves the bounding box of the two.
pub proof fn lemma_line_points_endpoints(sx: int, sy: int, ex: int, ey: int)
    ensures
        line_points(sx, sy, ex, ey).len() >= 1,
        line_points(sx, sy, ex, ey).first() == (sx, sy),
        line_points(sx, sy, ex, ey).last() == (ex, ey),
        forall|k: int|
            0 <= k < line_points(sx, sy, ex, ey).len() ==> between(
                sx,
                ex,
                (#[trigger] line_points(sx, sy, ex, ey)[k]).0,
            ) && between(sy, ey, line_points(sx, sy, ex, ey)[k].1),
{
    let dirx = line_dir(sx, ex);
    let diry = line_dir(sy, ey);
    let dx = line_span(sx, ex);
    let dd = line_span(sy, ey);
    lemma_bres_rec_props(sx, sy, dirx, diry, dx, dd, 0, 0, dx - dd);
    assert(sx + dirx * 0 == sx);
    assert(sy + diry * 0 == sy);
    assert(sx + dirx * dx == ex);
    assert(sy + diry * dd == ey);
}

/// Draw the line from `(start_x, start_y)` to `(end_x, end_y)` into the
/// back buffer, one pixel per rasteriser step, in drawing order.
pub fn draw_line(
    screen: &mut Screen,
    start_x: usize,
    start_y: usize,
    end_x: usize,
    end_y: usize,
    colour: &Colour16Bit,
)
    requires
        old(screen).wf(),
        start_x < SCREEN_WIDTH,
        end_x < SCREEN_WIDTH,
        start_y < SCREEN_HEIGHT,
        end_y < SCREEN_HEIGHT,
        colour.in_range(),
    ensures
        final(screen).wf(),
        final(screen).front() == old(screen).front(),
        final(screen).back() == paint_points(
            old(screen).back(),
            line_points(start_x as int, start_y as int, end_x as int, end_y as int),
            colour.spec_as_u16(),
        ),
{
    let ghost sx = start_x as int;
    let ghost sy = start_y as int;
    let ghost ex = end_x as int;
    let ghost ey = end_y as int;
    let ghost dirx = line_dir(sx, ex);
    let ghost diry = line_dir(sy, ey);
    let ghost c16 = colour.spec_as_u16();
    let ghost full = line_points(sx, sy, ex, ey);

    let dx: i64 = if start_x < end_x {
        (end_x - start_x) as i64
    } else {
        (start_x - end_x) as i64
    };
    let dd: i64 = if start_y < end_y {
        (end_y - start_y) as i64
    } else {
        (start_y - end_y) as i64
    };
    let mut err: i64 = dx - dd;
    let mut current_x = start_x;
    let mut current_y = start_y;
    let ghost mut u: int = 0;
    let ghost mut v: int = 0;
    let ghost mut prefix: Seq<(int, int)> = Seq::empty();

    proof {
        assert(u * (dd as int) == 0 && v * (dx as int) == 0) by (nonlinear_arith)
            requires
                u == 0 && v == 0,
        ;
        assert(ex == sx + dirx * (dx as int)) by (nonlinear_arith)
            requires
                (sx < ex ==> dirx == 1 && dx as int == ex - sx),
                (!(sx < ex) ==> dirx == -1 && dx as int == sx - ex),
        ;
        assert(ey == sy + diry * (dd as int)) by (nonlinear_arith)
            requires
                (sy < ey ==> diry == 1 && dd as int == ey - sy),
                (!(sy < ey) ==> diry == -1 && dd as int == sy - ey),
        ;
        assert(full =~= prefix + bres_rec(sx, sy, dirx, diry, dx as int, dd as int, u, v, err as int));
    }
    loop
        invariant_except_break
            screen.wf(),
            screen.front() == old(screen).front(),
            colour.in_range(),
            c16 == colour.spec_as_u16(),
            dx == line_span(sx, ex),
            dd == line_span(sy, ey),
            dirx == line_dir(sx, ex),
            diry == line_dir(sy, ey),
            sx == start_x as int && ex == end_x as int && sy == start_y as int && ey
                == end_y as int,
            0 <= sx < SCREEN_WIDTH && 0 <= ex < SCREEN_WIDTH,
            0 <= sy < SCREEN_HEIGHT && 0 <= ey < SCREEN_HEIGHT,
            bres_inv(dx as int, dd as int, u, v, err as int),
            ex == sx + dirx * (dx as int),
            ey == sy + diry * (dd as int),
            current_x as int == sx + dirx * u,
            current_y as int == sy + diry * v,
            current_x < SCREEN_WIDTH,
            current_y < SCREEN_HEIGHT,
            full == line_points(sx, sy, ex, ey),
            full == prefix + bres_rec(sx, sy, dirx, diry, dx as int, dd as int, u, v, err as int),
            screen.back() == paint_points(old(screen).back(), prefix, c16),
        ensures
            screen.wf(),
            screen.front() == old(screen).front(),
            screen.back() == paint_points(old(screen).back(), full, c16),
        decreases (dx as int) - u + (dd as int) - v,
    {
        let ghost prev_back = screen.back();
        screen.plot_pixel(current_x, current_y, colour);
        proof {
            lemma_paint_points_push(
                old(screen).back(),
                prefix,
                (current_x as int, current_y as int),
                c16,
            );
            prefix = prefix.push((current_x as int, current_y as int));
        }
        if current_x == end_x && current_y == end_y {
            proof {
                assert(u == dx as int) by (nonlinear_arith)
                    requires
                        sx + dirx * u == ex,
                        ex == sx + dirx * (dx as int),
                        dirx == 1 || dirx == -1,
                ;
                assert(v == dd as int) by (nonlinear_arith)
                    requires
                        sy + diry * v == ey,
                        ey == sy + diry * (dd as int),
                        diry == 1 || diry == -1,
                ;
                assert(bres_rec(sx, sy, dirx, diry, dx as int, dd as int, u, v, err as int)
                    =~= seq![(current_x as int, current_y as int)]);
                assert(full =~= prefix);
            }
            break ;
        }
        proof {
            assert(!(u == dx as int && v == dd as int)) by {
                if u == dx as int && v == dd as int {
                    assert(current_x as int == sx + dirx * (dx as int));
                    assert(current_x as int == ex);
                }
            }
            lemma_bres_step(dx as int, dd as int, u, v, err as int);
            assert(-1000000 <= err <= 1000000) by (nonlinear_arith)
                requires
                    err as int == (dx as int) - (dd as int) - u * (dd as int) + v * (dx as int),
                    0 <= u <= dx as int,
                    0 <= v <= dd as int,
                    dx < 800,
                    dd < 600,
            ;
        }
        let ghost u_old = u;
        let ghost v_old = v;
        let ghost err_old = err as int;
        let e2: i64 = 2 * err;
        proof {
            if e2 >= -dd {
                assert(u + 1 <= dx as int);
                assert(dirx == -1 ==> 1 <= current_x as int && current_x as int - 1
                    >= ex) by (nonlinear_arith)
                    requires
                        current_x as int == sx + dirx * u,
                        u + 1 <= dx as int,
                        0 <= u,
                        ex == sx + dirx * (dx as int),
                        0 <= ex,
                        dirx == 1 || dirx == -1,
                ;
                assert(dirx == 1 ==> current_x as int + 1 <= ex) by (nonlinear_arith)
                    requires
                        current_x as int == sx + dirx * u,
                        u + 1 <= dx as int,
                        ex == sx + dirx * (dx as int),
                        dirx == 1 || dirx == -1,
                ;
            }
            if e2 <= dx {
                assert(v + 1 <= dd as int);
                assert(diry == -1 ==> 1 <= current_y as int && current_y as int - 1
                    >= ey) by (nonlinear_arith)
                    requires
                        current_y as int == sy + diry * v,
                        v + 1 <= dd as int,
                        0 <= v,
                        ey == sy + diry * (dd as int),
                        0 <= ey,
                        diry == 1 || diry == -1,
                ;
                assert(diry == 1 ==> current_y as int + 1 <= ey) by (nonlinear_arith)
                    requires
                        current_y as int == sy + diry * v,
                        v + 1 <= dd as int,
                        ey == sy + diry * (dd as int),
                        diry == 1 || diry == -1,
                ;
            }
        }
        if e2 >= -dd {
            err = err - dd;
            if start_x < end_x {
                current_x = current_x + 1;
            } else {
                current_x = current_x - 1;
            }
            proof {
                u = u + 1;
            }
        }
        if e2 <= dx {
            err = err + dx;
            if start_y < end_y {
                current_y = current_y + 1;
            } else {
                current_y = current_y - 1;
            }
            proof {
                v = v + 1;
            }
        }
        proof {
            assert(current_x as int == sx + dirx * u && 0 <= current_x as int && (
            current_x as int) < SCREEN_WIDTH) by (nonlinear_arith)
                requires
                    dirx == 1 || dirx == -1,
                    u == u_old + (if 2 * err_old >= -(dd as int) {
                        1int
                    } else {
                        0int
                    }),
                    current_x as int == sx + dirx * u_old + (if 2 * err_old >= -(dd as int) {
                        dirx
                    } else {
                        0int
                    }),
                    0 <= u <= dx as int,
                    dx as int == line_span(sx, ex),
                    dirx == line_dir(sx, ex),
                    0 <= sx < 800,
                    0 <= ex < 800,
                    ex == sx + dirx * (dx as int),
            ;
            assert(current_y as int == sy + diry * v && 0 <= current_y as int && (
            current_y as int) < SCREEN_HEIGHT) by (nonlinear_arith)
                requires
                    diry == 1 || diry == -1,
                    v == v_old + (if 2 * err_old <= dx as int {
                        1int
                    } else {
                        0int
                    }),
                    current_y as int == sy + diry * v_old + (if 2 * err_old <= dx as int {
                        diry
                    } else {
                        0int
                    }),
                    0 <= v <= dd as int,
                    ey == sy + diry * (dd as int),
                    0 <= sy < 600,
                    0 <= ey < 600,
            ;
            assert(bres_rec(sx, sy, dirx, diry, dx as int, dd as int, u_old, v_old, err_old)
                == seq![(sx + dirx * u_old, sy + diry * v_old)] + bres_rec(
                sx,
                sy,
                dirx,
                diry,
                dx as int,
                dd as int,
                u,
                v,
                err as int,
            ));
            assert(full =~= prefix + bres_rec(
                sx,
                sy,
                dirx,
                diry,
                dx as int,
                dd as int,
                u,
                v,
                err as int,
            ));
        }
    }
}

} // verus!
