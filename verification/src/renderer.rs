//! Text on the display: glyphs of a bitmap font, unpacked into pixels.
use vstd::prelude::*;

use crate::wire::be16;

verus! {

/// A width and a height in pixels.
#[derive(Clone, Copy, Debug, PartialEq, Eq, Structural)]
pub struct Size {
    pub width: u32,
    pub height: u32,
}

/// A position on the display.
#[derive(Clone, Copy, Debug, PartialEq, Eq, Structural)]
pub struct Point {
    pub x: i32,
    pub y: i32,
}

/// A colour with five bits of red, six of green and five of blue.
#[derive(Clone, Copy, Debug, PartialEq, Eq, Structural)]
pub struct Rgb565 {
    pub r: u8,
    pub g: u8,
    pub b: u8,
}

/// The rectangle of the display that the next pixels go to, both corners included.
#[derive(Clone, Copy, Debug, PartialEq, Eq, Structural)]
pub struct Window {
    pub x0: u16,
    pub y0: u16,
    pub x1: u16,
    pub y1: u16,
}

/// A window and the bytes of its pixels.
pub struct Tile {
    pub window: Window,
    pub pixels: Vec<u8>,
}

/// A window and the bytes of its pixels as the contracts see them.
#[verifier::ext_equal]
pub struct TileView {
    pub window: Window,
    pub pixels: Seq<u8>,
}

impl Tile {
    /// The window, and the pixels as a sequence.
    pub open spec fn view(&self) -> TileView {
        TileView { window: self.window, pixels: self.pixels@ }
    }
}

/// A colour as one number, red in the high bits. Bits past a channel's width do not count.
pub open spec fn raw565(c: Rgb565) -> u16 {
    ((c.r % 32) * 2048 + (c.g % 64) * 32 + c.b % 32) as u16
}

/// The bytes of a colour as the display takes them.
pub open spec fn color_bytes(c: Rgb565) -> Seq<u8> {
    be16(raw565(c))
}

/// `embedded_graphics::pixelcolor::Rgb565::new`, which cuts each channel to its width,
/// and that colour's `ToBytes::to_be_bytes`, which gives the high byte first.
#[verifier::external_body]
pub(crate) fn rgb565_be_bytes(r: u8, g: u8, b: u8) -> (bytes: [u8; 2])
    ensures
        bytes@ == color_bytes(Rgb565 { r, g, b }),
{
    embedded_graphics::pixelcolor::raw::ToBytes::to_be_bytes(
        embedded_graphics::pixelcolor::Rgb565::new(r, g, b),
    )
}

impl Rgb565 {
    /// The bytes of the colour as the display takes them.
    pub fn to_be_bytes(&self) -> (bytes: [u8; 2])
        ensures
            bytes@ == color_bytes(*self),
    {
        rgb565_be_bytes(self.r, self.g, self.b)
    }
}

/// Whether pixel `p` of a glyph is lit. Eight pixels share a byte, the first in its
/// lowest bit.
pub open spec fn lit(glyph: Seq<u8>, p: nat) -> bool {
    (glyph[p as int / 8] >> ((p % 8) as u8)) & 1 == 1
}

/// The colour of pixel `p` of a glyph.
pub open spec fn color_of(glyph: Seq<u8>, p: nat, fc: Seq<u8>, bc: Seq<u8>) -> Seq<u8> {
    if lit(glyph, p) {
        fc
    } else {
        bc
    }
}

/// The colours of the first `n` pixels of a glyph, one after the other.
pub open spec fn painted(glyph: Seq<u8>, n: nat, fc: Seq<u8>, bc: Seq<u8>) -> Seq<u8>
    decreases n,
{
    if n == 0 {
        Seq::empty()
    } else {
        painted(glyph, (n - 1) as nat, fc, bc) + color_of(glyph, (n - 1) as nat, fc, bc)
    }
}

/// The bytes of a glyph in a font that starts with the space.
pub open spec fn glyph_of(font: Seq<u8>, glyph_len: nat, c: char) -> Seq<u8> {
    font.subrange((c as int - 32) * glyph_len, (c as int - 32) * glyph_len + glyph_len)
}

/// Whether a font holds a glyph for a character.
pub open spec fn has_glyph(font: Seq<u8>, glyph_len: nat, c: char) -> bool {
    c as int >= 32 && (c as int - 32) * glyph_len + glyph_len <= font.len()
}

/// Whether the colour of each of the first `n` pixels of a glyph is as long as `fc`. It is
/// so where both colours are of one length, and where no pixel takes the other.
pub open spec fn colors_fit(glyph: Seq<u8>, n: nat, fc: Seq<u8>, bc: Seq<u8>) -> bool {
    forall|p: nat| p < n ==> (#[trigger] color_of(glyph, p, fc, bc)).len() == fc.len()
}

proof fn lemma_painted_len(glyph: Seq<u8>, n: nat, fc: Seq<u8>, bc: Seq<u8>)
    requires
        colors_fit(glyph, n, fc, bc),
    ensures
        painted(glyph, n, fc, bc).len() == n * fc.len(),
    decreases n,
{
    if n > 0 {
        lemma_painted_len(glyph, (n - 1) as nat, fc, bc);
        assert((n - 1) * fc.len() + fc.len() == n * fc.len()) by (nonlinear_arith);
    } else {
        assert(0 * fc.len() == 0);
    }
}

/// Copies `src` into `buf` from `at` on.
fn copy_at(buf: &mut [u8], at: usize, src: &[u8])
    requires
        at + src@.len() <= old(buf)@.len(),
    ensures
        final(buf)@ == old(buf)@.take(at as int) + src@ + old(buf)@.skip(at + src@.len()),
{
    let room: usize = buf.len();
    let mut i: usize = 0;
    while i < src.len()
        invariant
            i <= src@.len(),
            at + src@.len() <= room,
            room == buf@.len(),
            room == old(buf)@.len(),
            forall|k: int| at <= k < at + i ==> buf@[k] == src@[k - at],
            forall|k: int| 0 <= k < at || at + i <= k < room ==> buf@[k] == old(buf)@[k],
        decreases src@.len() - i,
    {
        buf[at + i] = src[i];
        i = i + 1;
    }
    assert(buf@ =~= old(buf)@.take(at as int) + src@ + old(buf)@.skip(at + src@.len()));
}

/// Where the character at `i` of a text starts, across the display.
pub open spec fn char_x(top_left: Point, i: int, size: Size) -> int {
    top_left.x + (i as i32) * (size.width as i32)
}

/// Whether the window of the character at `i` can be worked out: no step leaves the range
/// of its numbers.
pub open spec fn window_fits(top_left: Point, i: int, size: Size) -> bool {
    &&& i32::MIN <= (i as i32) * (size.width as i32) <= i32::MAX
    &&& i32::MIN <= char_x(top_left, i, size) <= i32::MAX
    &&& 1 <= char_x(top_left, i, size) as u16 + size.width as u16 <= u16::MAX
    &&& 1 <= top_left.y as u16 + size.height as u16 <= u16::MAX
}

/// The window of the character at `i` of a text: one cell of the font, `i` cells to the
/// right of the start.
pub open spec fn window_of(top_left: Point, i: int, size: Size) -> Window {
    Window {
        x0: char_x(top_left, i, size) as u16,
        y0: top_left.y as u16,
        x1: (char_x(top_left, i, size) as u16 + size.width as u16 - 1) as u16,
        y1: (top_left.y as u16 + size.height as u16 - 1) as u16,
    }
}

/// Draws text in a bitmap font.
pub struct TextRenderer {
    data: &'static [u8],
    char_size: Size,
    char_byte_count: usize,
}

impl TextRenderer {
    /// The font: the glyphs from the space on, one after the other.
    pub closed spec fn font(&self) -> Seq<u8> {
        self.data@
    }

    /// The cell of a character.
    pub closed spec fn cell(&self) -> Size {
        self.char_size
    }

    /// Bytes in a glyph.
    pub closed spec fn glyph_len(&self) -> nat {
        self.char_byte_count as nat
    }

    /// Pixels in a cell.
    pub open spec fn area(&self) -> nat {
        self.cell().width as nat * self.cell().height as nat
    }

    /// A glyph has one bit for each pixel of the cell, rounded down to whole bytes.
    pub open spec fn wf(&self) -> bool {
        &&& self.glyph_len() == self.area() / 8
        &&& self.area() <= usize::MAX
    }

    /// Whether a character can be drawn.
    pub open spec fn can_draw(&self, c: char) -> bool {
        has_glyph(self.font(), self.glyph_len(), c)
    }

    /// The pixels of a character in two colours.
    pub open spec fn picture(&self, c: char, fc: Seq<u8>, bc: Seq<u8>) -> Seq<u8> {
        painted(
            glyph_of(self.font(), self.glyph_len(), c),
            self.glyph_len() * 8,
            fc,
            bc,
        )
    }

    /// A buffer into which a character has been unpacked: its pixels at the start, and
    /// behind them what stood there.
    pub open spec fn unpacked(&self, c: char, fc: Seq<u8>, bc: Seq<u8>, buf: Seq<u8>) -> Seq<u8> {
        let picture = self.picture(c, fc, bc);
        picture + buf.skip(picture.len() as int)
    }

    /// A renderer for a font whose cells have the given size.
    pub fn new(data: &'static [u8], char_size: Size) -> (r: TextRenderer)
        requires
            char_size.width * char_size.height <= usize::MAX,
        ensures
            r.font() == data@,
            r.cell() == char_size,
            r.glyph_len() == char_size.width as nat * char_size.height as nat / 8,
            r.wf(),
    {
        let char_bit_count: usize = char_size.width as usize * char_size.height as usize;
        TextRenderer { data, char_size, char_byte_count: char_bit_count / 8 }
    }

    /// Unpacks a glyph into the start of `buf`, one colour for each of its pixels.
    pub fn unpack(&self, c: char, buf: &mut [u8], fc: &[u8], bc: &[u8])
        requires
            self.can_draw(c),
            colors_fit(
                glyph_of(self.font(), self.glyph_len(), c),
                self.glyph_len() * 8,
                fc@,
                bc@,
            ),
            self.glyph_len() * 8 * fc@.len() <= old(buf)@.len(),
        ensures
            final(buf)@ == self.unpacked(c, fc@, bc@, old(buf)@),
    {
        let color_len: usize = fc.len();
        let room: usize = buf.len();
        let font_len: usize = self.data.len();
        let idx: usize = c as usize - 32;
        let count: usize = self.char_byte_count;
        let ghost glyph = glyph_of(self.font(), self.glyph_len(), c);
        let ghost k = color_len as nat;
        assert(idx * count + count <= font_len);
        let start: usize = idx * count;
        let mut i: usize = 0;
        let mut n: usize = 0;
        proof {
            assert(0 * k == 0);
            assert(painted(glyph, 0, fc@, bc@) + old(buf)@.skip(0) =~= old(buf)@);
        }
        while n < count
            invariant
                n <= count,
                count == self.glyph_len(),
                start + count <= font_len,
                font_len == self.data@.len(),
                self.data@ == self.font(),
                glyph == self.data@.subrange(start as int, start + count),
                room == old(buf)@.len(),
                k == color_len,
                fc@.len() == k,
                colors_fit(glyph, (count * 8) as nat, fc@, bc@),
                count * 8 * k <= room,
                i == n * 8 * k,
                buf@ == painted(glyph, (n * 8) as nat, fc@, bc@) + old(buf)@.skip(i as int),
            decreases count - n,
        {
            let byte: u8 = self.data[start + n];
            let mut code: u8 = byte;
            let mut j: u8 = 0;
            proof {
                assert(byte >> 0u8 == byte) by (bit_vector);
            }
            while j < 8
                invariant
                    j <= 8,
                    n < count,
                    byte == glyph[n as int],
                    code == byte >> j,
                    room == old(buf)@.len(),
                    k == color_len,
                    fc@.len() == k,
                    colors_fit(glyph, (count * 8) as nat, fc@, bc@),
                    count * 8 * k <= room,
                    i == (n * 8 + j) * k,
                    buf@ == painted(glyph, (n * 8 + j) as nat, fc@, bc@) + old(buf)@.skip(
                        i as int,
                    ),
                decreases 8 - j,
            {
                let ghost p = (n * 8 + j) as nat;
                let ghost before = painted(glyph, p, fc@, bc@);
                proof {
                    lemma_painted_len(glyph, p, fc@, bc@);
                    assert((p + 1) * k == p * k + k) by (nonlinear_arith);
                    assert((p + 1) * k <= (count * 8) * k) by (nonlinear_arith)
                        requires
                            p + 1 <= count * 8,
                    ;
                    assert((byte >> j) >> 1u8 == byte >> ((j + 1) as u8)) by (bit_vector)
                        requires
                            j < 8,
                    ;
                    assert(p as int / 8 == n && p % 8 == j);
                }
                let color = if code & 1 == 1 {
                    fc
                } else {
                    bc
                };
                assert(color@ == color_of(glyph, p, fc@, bc@));
                copy_at(buf, i, color);
                proof {
                    assert(buf@ =~= painted(glyph, p + 1, fc@, bc@) + old(buf)@.skip(i + k));
                }
                code = code >> 1;
                i = i + color_len;
                j = j + 1;
            }
            n = n + 1;
        }
        proof {
            lemma_painted_len(glyph, (count * 8) as nat, fc@, bc@);
        }
    }

    /// The bytes of a cell: the pixels of the character, and behind them, where the cell
    /// does not fill whole bytes of the font, what stood in the buffer.
    pub open spec fn cell_bytes(&self, c: char, fc: Rgb565, bc: Rgb565, buf: Seq<u8>) -> Seq<u8> {
        let picture = self.picture(c, color_bytes(fc), color_bytes(bc));
        picture + buf.subrange(picture.len() as int, self.area() as int * 2)
    }

    /// What is sent to the display for a text: for each character its window and the bytes
    /// of its cell.
    pub open spec fn drawn(
        &self,
        text: Seq<char>,
        top_left: Point,
        fc: Rgb565,
        bc: Rgb565,
        buf: Seq<u8>,
    ) -> Seq<TileView> {
        Seq::new(
            text.len(),
            |i: int|
                TileView {
                    window: window_of(top_left, i, self.cell()),
                    pixels: self.cell_bytes(text[i], fc, bc, buf),
                },
        )
    }

    /// The working space once a text has been drawn: the cell of its last character stands
    /// at the start.
    pub open spec fn buffer_after(
        &self,
        text: Seq<char>,
        fc: Rgb565,
        bc: Rgb565,
        buf: Seq<u8>,
    ) -> Seq<u8> {
        if text.len() == 0 {
            buf
        } else {
            self.cell_bytes(text.last(), fc, bc, buf) + buf.skip(self.area() as int * 2)
        }
    }

    proof fn lemma_picture_len(&self, c: char, fc: Seq<u8>, bc: Seq<u8>)
        requires
            self.wf(),
            fc.len() == 2,
            bc.len() == 2,
        ensures
            self.picture(c, fc, bc).len() == self.glyph_len() * 16,
            self.picture(c, fc, bc).len() <= self.area() * 2,
    {
        lemma_painted_len(
            glyph_of(self.font(), self.glyph_len(), c),
            self.glyph_len() * 8,
            fc,
            bc,
        );
    }

    /// Draws a text: for each character its window and the pixels to send there, two
    /// bytes each. `buf` is working space of at least one cell.
    pub fn render_text(
        &self,
        text: &str,
        top_left: Point,
        fc: Rgb565,
        bc: Rgb565,
        buf: &mut [u8],
    ) -> (tiles: Vec<Tile>)
        requires
            self.wf(),
            self.area() * 2 <= old(buf)@.len(),
            forall|i: int| 0 <= i < text@.len() ==> self.can_draw(#[trigger] text@[i]),
            forall|i: int|
                0 <= i < text@.len() ==> #[trigger] window_fits(top_left, i, self.cell()),
        ensures
            tiles@.len() == text@.len(),
            forall|i: int|
                0 <= i < text@.len() ==> (#[trigger] tiles@[i])@ == self.drawn(
                    text@,
                    top_left,
                    fc,
                    bc,
                    old(buf)@,
                )[i],
            final(buf)@ == self.buffer_after(text@, fc, bc, old(buf)@),
    {
        let room: usize = buf.len();
        let size: Size = self.char_size;
        assert(self.area() == size.width * size.height);
        let buf_size: usize = size.width as usize * size.height as usize * 2;
        let fc_bytes: [u8; 2] = fc.to_be_bytes();
        let bc_bytes: [u8; 2] = bc.to_be_bytes();
        let mut tiles: Vec<Tile> = Vec::new();
        let ghost start = buf@;
        for c in it: text.chars()
            invariant
                it.seq() == text@,
                tiles@.len() == it.index(),
                self.wf(),
                size == self.cell(),
                room == buf@.len(),
                room == start.len(),
                buf_size == self.area() * 2,
                buf_size <= room,
                fc_bytes@ == color_bytes(fc),
                bc_bytes@ == color_bytes(bc),
                forall|i: int| 0 <= i < text@.len() ==> self.can_draw(#[trigger] text@[i]),
                forall|i: int|
                    0 <= i < text@.len() ==> #[trigger] window_fits(top_left, i, self.cell()),
                forall|i: int|
                    0 <= i < tiles@.len() ==> {
                        &&& (#[trigger] tiles@[i]).window == window_of(top_left, i, self.cell())
                        &&& tiles@[i].pixels@ == self.cell_bytes(text@[i], fc, bc, start)
                    },
                it.index() == 0 ==> buf@ == start,
                it.index() > 0 ==> buf@ == self.cell_bytes(text@[it.index() - 1], fc, bc, start)
                    + start.skip(self.area() as int * 2),
        {
            let i: usize = tiles.len();
            let ghost before = buf@;
            proof {
                assert(c == text@[i as int]);
                assert(self.can_draw(c));
                assert(window_fits(top_left, i as int, self.cell()));
                self.lemma_picture_len(c, fc_bytes@, bc_bytes@);
                assert(self.glyph_len() * 8 * 2 == self.glyph_len() * 16);
                if i > 0 {
                    self.lemma_picture_len(text@[i - 1], fc_bytes@, bc_bytes@);
                }
                assert(before.skip(self.glyph_len() as int * 16) =~= start.skip(
                    self.glyph_len() as int * 16,
                ));
            }
            self.unpack(c, buf, &fc_bytes, &bc_bytes);
            proof {
                assert(buf@ =~= self.cell_bytes(c, fc, bc, start) + start.skip(
                    self.area() as int * 2,
                ));
            }
            let left: i32 = top_left.x + i as i32 * size.width as i32;
            let x0: u16 = left as u16;
            let y0: u16 = top_left.y as u16;
            let window = Window {
                x0,
                y0,
                x1: x0 + size.width as u16 - 1,
                y1: y0 + size.height as u16 - 1,
            };
            let pixels = vstd::slice::slice_to_vec(vstd::slice::slice_subrange(buf, 0, buf_size));
            proof {
                assert(pixels@ =~= self.cell_bytes(c, fc, bc, start));
            }
            tiles.push(Tile { window, pixels });
        }
        tiles
    }
}

/// Each pixel of a glyph is painted in one of the two colours, by its own bit alone.
pub proof fn pixel_is_painted_by_its_bit(
    glyph: Seq<u8>,
    n: nat,
    p: nat,
    fc: Seq<u8>,
    bc: Seq<u8>,
)
    requires
        colors_fit(glyph, n, fc, bc),
        p < n,
    ensures
        p * fc.len() + fc.len() <= painted(glyph, n, fc, bc).len(),
        painted(glyph, n, fc, bc).subrange(
            (p * fc.len()) as int,
            (p * fc.len() + fc.len()) as int,
        ) == color_of(glyph, p, fc, bc),
    decreases n,
{
    let k = fc.len();
    let before = painted(glyph, (n - 1) as nat, fc, bc);
    let whole = painted(glyph, n, fc, bc);
    lemma_painted_len(glyph, n, fc, bc);
    lemma_painted_len(glyph, (n - 1) as nat, fc, bc);
    if p == n - 1 {
        assert(p * k + k == n * k) by (nonlinear_arith)
            requires
                p == n - 1,
        ;
        assert(whole.subrange((p * k) as int, (p * k + k) as int) =~= color_of(glyph, p, fc, bc));
    } else {
        pixel_is_painted_by_its_bit(glyph, (n - 1) as nat, p, fc, bc);
        assert(whole.subrange((p * k) as int, (p * k + k) as int) =~= before.subrange(
            (p * k) as int,
            (p * k + k) as int,
        ));
    }
}

/// Unpacking a character fills the start of the buffer, whatever stood there, with as many
/// bytes as its pixels have, and leaves the rest and the length as they were. So unpacking
/// it again changes nothing.
pub proof fn unpacking_again_changes_nothing(
    renderer: &TextRenderer,
    c: char,
    fc: Seq<u8>,
    bc: Seq<u8>,
    buf: Seq<u8>,
    other: Seq<u8>,
)
    requires
        colors_fit(
            glyph_of(renderer.font(), renderer.glyph_len(), c),
            renderer.glyph_len() * 8,
            fc,
            bc,
        ),
        renderer.glyph_len() * 8 * fc.len() <= buf.len(),
        renderer.glyph_len() * 8 * fc.len() <= other.len(),
    ensures
        ({
            let filled = (renderer.glyph_len() * 8 * fc.len()) as int;
            let after = renderer.unpacked(c, fc, bc, buf);
            &&& after.len() == buf.len()
            &&& after.skip(filled) == buf.skip(filled)
            &&& after.take(filled) == renderer.unpacked(c, fc, bc, other).take(filled)
            &&& renderer.unpacked(c, fc, bc, after) == after
        }),
{
    let glyph = glyph_of(renderer.font(), renderer.glyph_len(), c);
    lemma_painted_len(glyph, renderer.glyph_len() * 8, fc, bc);
    let picture = renderer.picture(c, fc, bc);
    let after = renderer.unpacked(c, fc, bc, buf);
    let filled = picture.len() as int;
    assert(after.skip(filled) =~= buf.skip(filled));
    assert(after.take(filled) =~= picture);
    assert(renderer.unpacked(c, fc, bc, other).take(filled) =~= picture);
    assert(renderer.unpacked(c, fc, bc, after) =~= after);
}

/// A character sends two bytes for each pixel of its window, no more and no fewer.
pub proof fn pixels_fill_the_window(
    renderer: &TextRenderer,
    top_left: Point,
    i: int,
    c: char,
    fc: Rgb565,
    bc: Rgb565,
    buf: Seq<u8>,
)
    requires
        renderer.wf(),
        renderer.area() * 2 <= buf.len(),
        renderer.cell().width <= u16::MAX,
        renderer.cell().height <= u16::MAX,
        window_fits(top_left, i, renderer.cell()),
    ensures
        ({
            let w = window_of(top_left, i, renderer.cell());
            renderer.cell_bytes(c, fc, bc, buf).len() == (w.x1 - w.x0 + 1) * (w.y1 - w.y0 + 1) * 2
        }),
{
    renderer.lemma_picture_len(c, color_bytes(fc), color_bytes(bc));
}

/// The windows of neighbouring characters touch and do not overlap, on the same rows.
pub proof fn characters_stand_side_by_side(top_left: Point, i: int, size: Size)
    requires
        0 <= i < i32::MAX,
        0 < size.width <= u16::MAX,
        window_fits(top_left, i, size),
        window_fits(top_left, i + 1, size),
        0 <= char_x(top_left, i, size),
        char_x(top_left, i + 1, size) <= u16::MAX,
    ensures
        window_of(top_left, i + 1, size).x0 == window_of(top_left, i, size).x1 + 1,
        window_of(top_left, i + 1, size).y0 == window_of(top_left, i, size).y0,
        window_of(top_left, i + 1, size).y1 == window_of(top_left, i, size).y1,
{
    assert((i + 1) * (size.width as i32) == i * (size.width as i32) + size.width as i32)
        by (nonlinear_arith);
}

/// Windows that all fit are few: unless cells have no width, a text whose windows can all
/// be worked out has no more characters than a position can count.
proof fn lemma_fitting_text_is_countable(top_left: Point, n: int, size: Size)
    requires
        size.width != 0,
        forall|i: int| 0 <= i < n ==> #[trigger] window_fits(top_left, i, size),
    ensures
        n <= i32::MAX,
{
    if n > i32::MAX {
        let step = size.width as i32;
        let width = size.width;
        assert(width != 0 ==> width as i32 != 0) by (bit_vector);
        assert(window_fits(top_left, i32::MAX as int, size));
        assert(-1 <= step <= 1) by (nonlinear_arith)
            requires
                i32::MIN <= 0x7fff_ffff * step <= i32::MAX,
        ;
        let x = top_left.x;
        if step == 1 {
            assert(width as i32 == 1i32 ==> width == 1) by (bit_vector);
            let i = (65535 - x) % 65536;
            assert(window_fits(top_left, i, size));
            let there = (x + i) as i32;
            assert(there % 65536 == 65535) by {
                assert((x + (65535 - x) % 65536) % 65536 == 65535);
            }
            assert(there as u16 == 65535) by (bit_vector)
                requires
                    there % 65536 == 65535,
            ;
            assert(char_x(top_left, i, size) == there) by {
                assert(i as i32 == i);
                assert((i as i32) * step == i) by (nonlinear_arith)
                    requires
                        step == 1,
                        i as i32 == i,
                ;
            }
            assert(false);
        } else {
            assert(width as i32 == -1i32 ==> width as u16 == 65535) by (bit_vector);
            assert(window_fits(top_left, 0, size));
            assert(window_fits(top_left, 1, size));
            let there = (x - 1) as i32;
            assert(x as u16 == 0 && there as u16 == 0 ==> x != there + 1) by (bit_vector);
            assert(0 * step == 0 && 1 * step == -1);
            assert(char_x(top_left, 0, size) == x);
            assert(char_x(top_left, 1, size) == there);
            assert(false);
        }
    }
}

/// Counting characters on from a later start gives the same windows.
proof fn lemma_windows_shift(top_left: Point, n: int, j: int, total: int, size: Size)
    requires
        0 <= n,
        0 <= j,
        n + j < total,
        forall|i: int| 0 <= i < total ==> #[trigger] window_fits(top_left, i, size),
    ensures
        ({
            let next = Point { x: (top_left.x + n * (size.width as i32)) as i32, y: top_left.y };
            &&& window_fits(next, j, size)
            &&& window_of(next, j, size) == window_of(top_left, n + j, size)
        }),
{
    let step = size.width as i32;
    let next = Point { x: (top_left.x + n * step) as i32, y: top_left.y };
    assert(window_fits(top_left, n, size));
    assert(window_fits(top_left, n + j, size));
    assert(window_fits(top_left, j, size));
    if size.width != 0 {
        lemma_fitting_text_is_countable(top_left, total, size);
        assert(n as i32 == n && j as i32 == j && (n + j) as i32 == n + j);
        assert((n + j) * step == n * step + j * step) by (nonlinear_arith);
    } else {
        let a = (n + j) as i32;
        let b = j as i32;
        assert(n * step == 0 && a * step == 0 && b * step == 0) by (nonlinear_arith)
            requires
                step == 0,
        ;
    }
    assert(char_x(next, j, size) == char_x(top_left, n + j, size));
}

/// Drawing two texts one after the other, the second where the first ends, sends to the
/// display what drawing them as one text does, and leaves the same working space. Where the
/// joined text can be drawn, the windows of both parts fit.
pub proof fn texts_join(
    renderer: &TextRenderer,
    first: Seq<char>,
    second: Seq<char>,
    top_left: Point,
    fc: Rgb565,
    bc: Rgb565,
    buf: Seq<u8>,
)
    requires
        renderer.wf(),
        renderer.area() * 2 <= buf.len(),
        forall|i: int|
            0 <= i < first.len() + second.len() ==> #[trigger] window_fits(
                top_left,
                i,
                renderer.cell(),
            ),
    ensures
        ({
            let next = Point {
                x: (top_left.x + first.len() * (renderer.cell().width as i32)) as i32,
                y: top_left.y,
            };
            let between = renderer.buffer_after(first, fc, bc, buf);
            &&& forall|i: int|
                0 <= i < second.len() ==> #[trigger] window_fits(next, i, renderer.cell())
            &&& between.len() == buf.len()
            &&& renderer.drawn(first + second, top_left, fc, bc, buf) == renderer.drawn(
                first,
                top_left,
                fc,
                bc,
                buf,
            ) + renderer.drawn(second, next, fc, bc, between)
            &&& renderer.buffer_after(first + second, fc, bc, buf) == renderer.buffer_after(
                second,
                fc,
                bc,
                between,
            )
        }),
{
    let size = renderer.cell();
    let n = first.len() as int;
    let total = n + second.len();
    let whole = first + second;
    let next = Point { x: (top_left.x + n * (size.width as i32)) as i32, y: top_left.y };
    let between = renderer.buffer_after(first, fc, bc, buf);
    let room = renderer.area() as int * 2;
    if n > 0 {
        renderer.lemma_picture_len(first.last(), color_bytes(fc), color_bytes(bc));
    }
    assert(between.len() == buf.len());
    assert(between.skip(room) =~= buf.skip(room));
    assert forall|c: char|
        renderer.cell_bytes(c, fc, bc, between) == #[trigger] renderer.cell_bytes(
            c,
            fc,
            bc,
            buf,
        ) by {
        renderer.lemma_picture_len(c, color_bytes(fc), color_bytes(bc));
        let len = renderer.glyph_len() as int * 16;
        assert(between.subrange(len, room) =~= buf.subrange(len, room));
    }
    assert forall|j: int| 0 <= j < second.len() implies #[trigger] window_fits(next, j, size)
        && window_of(next, j, size) == window_of(top_left, n + j, size) by {
        lemma_windows_shift(top_left, n, j, total, size);
    }
    let joined = renderer.drawn(whole, top_left, fc, bc, buf);
    let parts = renderer.drawn(first, top_left, fc, bc, buf) + renderer.drawn(
        second,
        next,
        fc,
        bc,
        between,
    );
    assert forall|i: int| 0 <= i < joined.len() implies joined[i] == #[trigger] parts[i] by {
        if i >= n {
            assert(window_fits(next, i - n, size));
            assert(whole[i] == second[i - n]);
            assert(renderer.cell_bytes(whole[i], fc, bc, between) == renderer.cell_bytes(
                whole[i],
                fc,
                bc,
                buf,
            ));
        }
    }
    assert(joined =~= parts);
    if second.len() > 0 {
        assert(whole.last() == second.last());
    } else {
        assert(whole =~= first);
    }
}

/// A pixel is lit where its bit is set: eight pixels share a byte, the first counting one,
/// each next twice the one before.
pub proof fn lit_pixels_are_set_bits(glyph: Seq<u8>, p: nat)
    ensures
        lit(glyph, p) <==> glyph[p as int / 8] as nat / vstd::arithmetic::power2::pow2(p % 8) % 2
            == 1,
{
    let b = glyph[p as int / 8];
    vstd::arithmetic::power2::lemma2_to64();
    assert((b >> 0u8) & 1 == b % 2) by (bit_vector);
    assert((b >> 1u8) & 1 == b / 2 % 2) by (bit_vector);
    assert((b >> 2u8) & 1 == b / 4 % 2) by (bit_vector);
    assert((b >> 3u8) & 1 == b / 8 % 2) by (bit_vector);
    assert((b >> 4u8) & 1 == b / 16 % 2) by (bit_vector);
    assert((b >> 5u8) & 1 == b / 32 % 2) by (bit_vector);
    assert((b >> 6u8) & 1 == b / 64 % 2) by (bit_vector);
    assert((b >> 7u8) & 1 == b / 128 % 2) by (bit_vector);
    assert(b as nat / 1 == b);
}

/// Where the glyph of a character stands in the font: behind those of all characters from
/// the space on.
pub proof fn glyphs_stand_in_order(font: Seq<u8>, glyph_len: nat, c: char, k: int)
    requires
        has_glyph(font, glyph_len, c),
        0 <= k < glyph_len,
    ensures
        glyph_of(font, glyph_len, c).len() == glyph_len,
        glyph_of(font, glyph_len, c)[k] == font[(c as int - 32) * glyph_len + k],
{
    assert((c as int - 32) * glyph_len >= 0) by (nonlinear_arith)
        requires
            c as int >= 32,
    ;
}

/// A colour is two bytes, the first counting 256 times: five bits of red over six of green
/// over five of blue.
pub proof fn color_is_red_over_green_over_blue(c: Rgb565)
    ensures
        color_bytes(c).len() == 2,
        color_bytes(c)[0] * 256 + color_bytes(c)[1] == (c.r % 32) * 2048 + (c.g % 64) * 32 + c.b
            % 32,
{
}

/// What unpacking a character puts into a buffer: at the place of each pixel the one colour
/// where its bit in the font is set and the other where it is not.
pub proof fn unpacked_pixels_show_the_font(
    renderer: &TextRenderer,
    c: char,
    fc: Seq<u8>,
    bc: Seq<u8>,
    buf: Seq<u8>,
    p: nat,
)
    requires
        renderer.can_draw(c),
        colors_fit(
            glyph_of(renderer.font(), renderer.glyph_len(), c),
            renderer.glyph_len() * 8,
            fc,
            bc,
        ),
        p < renderer.glyph_len() * 8,
    ensures
        ({
            let byte = renderer.font()[(c as int - 32) * renderer.glyph_len() + p as int / 8];
            let set = byte as nat / vstd::arithmetic::power2::pow2(p % 8) % 2 == 1;
            let at = (p * fc.len()) as int;
            let after = renderer.unpacked(c, fc, bc, buf);
            &&& at + fc.len() <= after.len()
            &&& after.subrange(at, at + fc.len()) == if set {
                fc
            } else {
                bc
            }
        }),
{
    let glyph = glyph_of(renderer.font(), renderer.glyph_len(), c);
    glyphs_stand_in_order(renderer.font(), renderer.glyph_len(), c, p as int / 8);
    lit_pixels_are_set_bits(glyph, p);
    pixel_is_painted_by_its_bit(glyph, renderer.glyph_len() * 8, p, fc, bc);
    let picture = renderer.picture(c, fc, bc);
    let after = renderer.unpacked(c, fc, bc, buf);
    let at = (p * fc.len()) as int;
    assert(after.subrange(at, at + fc.len()) =~= picture.subrange(at, at + fc.len()));
}

/// What is sent for a text, pixel by pixel: two bytes for each pixel of a cell, in the
/// colour of the text where the bit of that pixel in the font is set and in the colour of
/// the ground where it is not. Pixels for which the font has no bit are sent as they stood
/// in the working space.
pub proof fn drawn_pixels_show_the_font(
    renderer: &TextRenderer,
    text: Seq<char>,
    top_left: Point,
    fc: Rgb565,
    bc: Rgb565,
    buf: Seq<u8>,
    i: int,
    p: nat,
)
    requires
        renderer.wf(),
        renderer.area() * 2 <= buf.len(),
        0 <= i < text.len(),
        renderer.can_draw(text[i]),
        p < renderer.area(),
    ensures
        ({
            let tiles = renderer.drawn(text, top_left, fc, bc, buf);
            let pixels = tiles[i].pixels;
            let byte = renderer.font()[(text[i] as int - 32) * renderer.glyph_len() + p as int / 8];
            let color = if byte as nat / vstd::arithmetic::power2::pow2(p % 8) % 2 == 1 {
                fc
            } else {
                bc
            };
            let at = 2 * (p as int);
            let value = (color.r % 32) * 2048 + (color.g % 64) * 32 + color.b % 32;
            &&& tiles.len() == text.len()
            &&& pixels.len() == renderer.area() * 2
            &&& p < renderer.glyph_len() * 8 ==> pixels[at] * 256 + pixels[at + 1] == value
            &&& p >= renderer.glyph_len() * 8 ==> pixels[at] == buf[at] && pixels[at + 1] == buf[at
                + 1]
        }),
{
    let c = text[i];
    let (front, back) = (color_bytes(fc), color_bytes(bc));
    let pixels = renderer.cell_bytes(c, fc, bc, buf);
    renderer.lemma_picture_len(c, front, back);
    color_is_red_over_green_over_blue(fc);
    color_is_red_over_green_over_blue(bc);
    let picture = renderer.picture(c, front, back);
    assert(renderer.drawn(text, top_left, fc, bc, buf)[i].pixels == pixels);
    if p < renderer.glyph_len() * 8 {
        unpacked_pixels_show_the_font(renderer, c, front, back, buf, p);
        let after = renderer.unpacked(c, front, back, buf);
        let two = after.subrange((p * 2) as int, (p * 2) as int + 2);
        assert(two[0] == after[2 * (p as int)] && two[1] == after[2 * (p as int) + 1]);
        assert(after[2 * (p as int)] == picture[2 * (p as int)]);
        assert(after[2 * (p as int) + 1] == picture[2 * (p as int) + 1]);
    }
}

/// Where the characters of a text are drawn: each in one cell of the font, as many cells to
/// the right of the start as characters stand before it.
pub proof fn characters_are_drawn_in_their_cells(
    renderer: &TextRenderer,
    text: Seq<char>,
    top_left: Point,
    fc: Rgb565,
    bc: Rgb565,
    buf: Seq<u8>,
    i: int,
)
    requires
        0 <= i < text.len(),
        i <= i32::MAX,
        window_fits(top_left, i, renderer.cell()),
        renderer.cell().width <= u16::MAX,
        renderer.cell().height <= u16::MAX,
        0 <= top_left.x + i * renderer.cell().width <= u16::MAX,
        0 <= top_left.y <= u16::MAX,
    ensures
        ({
            let w = renderer.drawn(text, top_left, fc, bc, buf)[i].window;
            &&& w.x0 == top_left.x + i * renderer.cell().width
            &&& w.y0 == top_left.y
            &&& w.x1 + 1 == w.x0 + renderer.cell().width
            &&& w.y1 + 1 == w.y0 + renderer.cell().height
        }),
{
    let size = renderer.cell();
    assert(i as i32 == i && size.width as i32 == size.width);
    assert(char_x(top_left, i, size) == top_left.x + i * size.width);
}

/// What a text leaves in the working space: the pixels that were sent last, and behind
/// them what stood there. An empty text leaves it alone.
pub proof fn last_cell_stays_in_the_buffer(
    renderer: &TextRenderer,
    text: Seq<char>,
    top_left: Point,
    fc: Rgb565,
    bc: Rgb565,
    buf: Seq<u8>,
)
    requires
        renderer.wf(),
        renderer.area() * 2 <= buf.len(),
    ensures
        ({
            let after = renderer.buffer_after(text, fc, bc, buf);
            let cell = renderer.area() as int * 2;
            &&& after.len() == buf.len()
            &&& after.skip(cell) == buf.skip(cell)
            &&& text.len() == 0 ==> after == buf
            &&& text.len() > 0 ==> after.take(cell) == renderer.drawn(
                text,
                top_left,
                fc,
                bc,
                buf,
            ).last().pixels
        }),
{
    let after = renderer.buffer_after(text, fc, bc, buf);
    let cell = renderer.area() as int * 2;
    if text.len() > 0 {
        renderer.lemma_picture_len(text.last(), color_bytes(fc), color_bytes(bc));
        let pixels = renderer.cell_bytes(text.last(), fc, bc, buf);
        assert(after.take(cell) =~= pixels);
        assert(renderer.drawn(text, top_left, fc, bc, buf).last().pixels == pixels);
    }
    assert(after.skip(cell) =~= buf.skip(cell));
}

} // verus!
