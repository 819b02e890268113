//! The image buffer of the 200 x 200 monochrome e-paper panel: one bit per pixel,
//! eight pixels to a byte, rows one after another, the leftmost pixel in the
//! highest bit. A clear bit is black, a set bit white.
use vstd::prelude::*;

verus! {

/// Width of the panel in pixels.
pub const WIDTH: u32 = 200;

/// Height of the panel in pixels.
pub const HEIGHT: u32 = 200;

/// Bytes in the image buffer: `WIDTH * HEIGHT / 8`.
pub const BUFFER_LEN: usize = 5000;

/// The colour of a pixel: `On` is black, `Off` white.
#[derive(Debug, Clone, Copy, PartialEq, Eq, Structural)]
pub enum BinaryColor {
    On,
    Off,
}

/// The byte that holds pixel `(x, y)` in a buffer whose rows are `width` pixels wide.
pub open spec fn pixel_byte(width: u32, x: int, y: int) -> int {
    x / 8 + (width as int + 7) / 8 * y
}

/// The mask of pixel `x` inside its byte: the leftmost pixel is the highest bit.
pub open spec fn pixel_mask(x: int) -> u8 {
    0x80u8 >> ((x % 8) as u8)
}

/// Whether drawing at `(x, y)` keeps the index arithmetic within `u32`, as it has
/// to: a pixel with a negative coordinate is dropped before any arithmetic.
pub open spec fn draw_arith_fits(width: u32, x: int, y: int) -> bool {
    x < 0 || y < 0 || (width + 7 <= u32::MAX && pixel_byte(width, x, y) <= u32::MAX)
}

/// The buffer after drawing pixel `(x, y)` in `color`. A pixel with a negative
/// coordinate, or whose byte lies past the buffer, changes nothing; otherwise black
/// clears its bit and white sets it.
pub open spec fn drawn(buf: Seq<u8>, width: u32, x: int, y: int, color: BinaryColor) -> Seq<u8> {
    if x < 0 || y < 0 || pixel_byte(width, x, y) >= BUFFER_LEN {
        buf
    } else {
        let i = pixel_byte(width, x, y);
        match color {
            BinaryColor::On => buf.update(i, buf[i] & !pixel_mask(x)),
            BinaryColor::Off => buf.update(i, buf[i] | pixel_mask(x)),
        }
    }
}

/// The image buffer of the panel.
pub struct FrameBuffer {
    buffer: [u8; 5000],
}

impl View for FrameBuffer {
    type V = Seq<u8>;

    closed spec fn view(&self) -> Seq<u8> {
        self.buffer@
    }
}

impl FrameBuffer {
    /// A buffer of zero bytes: every pixel black.
    pub fn new() -> (f: Self)
        ensures
            f@ == Seq::new(BUFFER_LEN as nat, |i: int| 0u8),
    {
        let f = FrameBuffer { buffer: [0x00; 5000] };
        assert(f@ =~= Seq::new(BUFFER_LEN as nat, |i: int| 0u8));
        f
    }

    /// The bytes to send to the panel.
    pub fn bytes(&self) -> (b: &[u8; 5000])
        ensures
            b@ == self@,
    {
        &self.buffer
    }

    /// Paints every pixel: black (every byte `0x00`) when `on`, else white (`0xFF`).
    pub fn clear(&mut self, on: bool)
        ensures
            final(self)@ == Seq::new(BUFFER_LEN as nat, |i: int| if on { 0x00u8 } else { 0xFFu8 }),
    {
        self.buffer = [match on {
            true => 0x00,
            _ => 0xFF,
        }; 5000];
        assert(final(self)@ =~= Seq::new(BUFFER_LEN as nat, |i: int| if on { 0x00u8 } else { 0xFFu8 }));
    }

    /// Whether `draw_helper` can take pixel `(x, y)` without overflowing its index
    /// arithmetic.
    pub fn draw_fits(width: u32, x: i32, y: i32) -> (b: bool)
        ensures
            b == draw_arith_fits(width, x as int, y as int),
    {
        if x < 0 || y < 0 {
            return true;
        }
        if width > u32::MAX - 7 {
            return false;
        }
        let row_bytes = (width + 7) / 8;
        let col = (x as u32) / 8;
        match row_bytes.checked_mul(y as u32) {
            Some(row_start) => row_start <= u32::MAX - col,
            None => false,
        }
    }

    /// Draws one pixel (see `drawn`). `height` plays no part.
    pub fn draw_helper(&mut self, width: u32, height: u32, x: i32, y: i32, color: BinaryColor)
        requires
            draw_arith_fits(width, x as int, y as int),
        ensures
            final(self)@ == drawn(old(self)@, width, x as int, y as int, color),
    {
        if x < 0 || y < 0 {
            return;
        }
        let index = (x as u32) / 8 + ((width + 7) / 8) * (y as u32);
        if index >= 5000 {
            return;
        }
        let bit: u8 = 0x80u8 >> ((x % 8) as u8);
        let index = index as usize;
        match color {
            BinaryColor::On => {
                self.buffer[index] = self.buffer[index] & !bit;
            },
            BinaryColor::Off => {
                self.buffer[index] = self.buffer[index] | bit;
            },
        }
        assert(final(self)@ =~= drawn(old(self)@, width, x as int, y as int, color));
    }
}

/// Whether pixel `(x, y)` is black in `buf`.
pub open spec fn is_black(buf: Seq<u8>, width: u32, x: int, y: int) -> bool {
    buf[pixel_byte(width, x, y)] & pixel_mask(x) == 0
}

proof fn lemma_mask_bits(b: u8, k: u8)
    requires
        k < 8,
    ensures
        (b & !(0x80u8 >> k)) & (0x80u8 >> k) == 0,
        (b | (0x80u8 >> k)) & (0x80u8 >> k) != 0,
        (0x80u8 >> k) != 0,
{
    assert((b & !(0x80u8 >> k)) & (0x80u8 >> k) == 0) by (bit_vector)
        requires k < 8;
    assert((b | (0x80u8 >> k)) & (0x80u8 >> k) != 0) by (bit_vector)
        requires k < 8;
    assert((0x80u8 >> k) != 0) by (bit_vector)
        requires k < 8;
}

/// Drawing a pixel inside the buffer gives it the colour drawn, and leaves every
/// other byte as it was.
pub proof fn law_drawn_pixel_takes_color(buf: Seq<u8>, width: u32, x: int, y: int, color: BinaryColor)
    requires
        buf.len() == BUFFER_LEN,
        x >= 0,
        y >= 0,
        pixel_byte(width, x, y) < BUFFER_LEN,
    ensures
        is_black(drawn(buf, width, x, y, color), width, x, y) == (color == BinaryColor::On),
        forall|j: int| 0 <= j < BUFFER_LEN && j != pixel_byte(width, x, y)
            ==> #[trigger] drawn(buf, width, x, y, color)[j] == buf[j],
{
    lemma_mask_bits(buf[pixel_byte(width, x, y)], (x % 8) as u8);
}

/// Within its byte, drawing a pixel leaves the other seven pixels as they were.
pub proof fn law_drawn_keeps_neighbours(b: u8, k: u8, m: u8)
    requires
        k < 8,
        m < 8,
        k != m,
    ensures
        (b & !(0x80u8 >> k)) & (0x80u8 >> m) == b & (0x80u8 >> m),
        (b | (0x80u8 >> k)) & (0x80u8 >> m) == b & (0x80u8 >> m),
{
    assert((b & !(0x80u8 >> k)) & (0x80u8 >> m) == b & (0x80u8 >> m)) by (bit_vector)
        requires k < 8, m < 8, k != m;
    assert((b | (0x80u8 >> k)) & (0x80u8 >> m) == b & (0x80u8 >> m)) by (bit_vector)
        requires k < 8, m < 8, k != m;
}

/// Drawing a pixel changes no other pixel, not even those that share its byte:
/// bit `k` of byte `j` keeps its value unless it is the bit of pixel `(x, y)`,
/// which is bit `7 - x % 8` of byte `x / 8 + (width + 7) / 8 * y`.
pub proof fn law_draw_changes_only_its_pixel(
    buf: Seq<u8>,
    width: u32,
    x: int,
    y: int,
    color: BinaryColor,
    j: int,
    k: u8,
)
    requires
        buf.len() == BUFFER_LEN,
        0 <= j < BUFFER_LEN,
        k < 8,
        !(x >= 0 && y >= 0 && j == x / 8 + (width as int + 7) / 8 * y && k == 7 - x % 8),
    ensures
        (drawn(buf, width, x, y, color)[j] >> k) & 1 == (buf[j] >> k) & 1,
{
    if !(x < 0 || y < 0 || pixel_byte(width, x, y) >= BUFFER_LEN) && j == pixel_byte(width, x, y) {
        let r = (x % 8) as u8;
        let b = buf[j];
        assert(k + r != 7);
        assert(((b & !(0x80u8 >> r)) >> k) & 1 == (b >> k) & 1) by (bit_vector)
            requires r < 8, k < 8, k + r != 7;
        assert(((b | (0x80u8 >> r)) >> k) & 1 == (b >> k) & 1) by (bit_vector)
            requires r < 8, k < 8, k + r != 7;
    }
}

/// Drawing a pixel that lies in the buffer gives its bit (bit `7 - x % 8` of byte
/// `x / 8 + (width + 7) / 8 * y`) the colour drawn: 0 for black, 1 for white.
pub proof fn law_draw_sets_its_pixel(buf: Seq<u8>, width: u32, x: int, y: int, color: BinaryColor)
    requires
        buf.len() == BUFFER_LEN,
        x >= 0,
        y >= 0,
        x / 8 + (width as int + 7) / 8 * y < BUFFER_LEN,
    ensures
        (drawn(buf, width, x, y, color)[x / 8 + (width as int + 7) / 8 * y] >> ((7 - x % 8) as u8))
            & 1 == (if color == BinaryColor::On { 0u8 } else { 1u8 }),
{
    let r = (x % 8) as u8;
    let t = (7 - x % 8) as u8;
    let b = buf[x / 8 + (width as int + 7) / 8 * y];
    assert(((b & !(0x80u8 >> r)) >> t) & 1 == 0) by (bit_vector)
        requires r < 8, t + r == 7;
    assert(((b | (0x80u8 >> r)) >> t) & 1 == 1) by (bit_vector)
        requires r < 8, t + r == 7;
}

/// Drawing the same pixel twice in one colour is drawing it once.
pub proof fn law_draw_idempotent(buf: Seq<u8>, width: u32, x: int, y: int, color: BinaryColor)
    requires
        buf.len() == BUFFER_LEN,
    ensures
        drawn(drawn(buf, width, x, y, color), width, x, y, color) == drawn(buf, width, x, y, color),
{
    if !(x < 0 || y < 0 || pixel_byte(width, x, y) >= BUFFER_LEN) {
        let i = pixel_byte(width, x, y);
        let b = buf[i];
        let m = pixel_mask(x);
        assert((b & !m) & !m == b & !m) by (bit_vector);
        assert((b | m) | m == b | m) by (bit_vector);
        assert(drawn(drawn(buf, width, x, y, color), width, x, y, color) =~= drawn(buf, width, x, y, color));
    }
}

} // verus!
