//! The off-screen back buffer that every drawing routine renders into.
//!
//! A `Canvas` is a `width x height` grid of 24-bit pixels stored as packed
//! bytes, three per pixel, in the channel order that the display reports:
//! format `0` stores blue, green, red; any other format stores red, green, blue.
//! All drawing clips to the grid: coordinates outside it are ignored.
use vstd::prelude::*;

verus! {

/// Largest back buffer in bytes: a 3840 x 2160 screen at three bytes per pixel.
pub const MAX_BUFFER_BYTES: u64 = 24_883_200;

/// Width used when the reported screen does not fit the back buffer.
pub const FALLBACK_WIDTH: u64 = 1920;

/// Height used when the reported screen does not fit the back buffer.
pub const FALLBACK_HEIGHT: u64 = 1080;

/// A color as red, green and blue channels.
pub type Rgb = (u8, u8, u8);

/// Result of mixing one channel `src` over `dst` with opacity `a` (0..=255).
pub open spec fn blend_channel(src: u8, dst: u8, a: u8) -> u8 {
    let v = src * a + dst * (255 - a);
    ((v + 1 + v / 256) / 256) as u8
}

/// Result of mixing the color `src` over `dst` with opacity `a`.
pub open spec fn blend(src: Rgb, dst: Rgb, a: u8) -> Rgb {
    (blend_channel(src.0, dst.0, a), blend_channel(src.1, dst.1, a), blend_channel(src.2, dst.2, a))
}

/// Offset of the first of the three bytes of pixel `(x, y)` in a grid `w`
/// pixels wide.
pub open spec fn byte_offset(w: int, x: int, y: int) -> int {
    (y * w + x) * 3
}

/// The color held by the three bytes at `o`: blue, green, red for format 0,
/// red, green, blue otherwise.
pub open spec fn decode(format: u32, bytes: Seq<u8>, o: int) -> Rgb {
    if format == 0 {
        (bytes[o + 2], bytes[o + 1], bytes[o])
    } else {
        (bytes[o], bytes[o + 1], bytes[o + 2])
    }
}

/// The pixel grid and its byte storage.
pub struct Canvas {
    width: i32,
    height: i32,
    format: u32,
    buf: Vec<u8>,
}

/// Screen size that the back buffer is set up with for a reported screen size:
/// the reported size when it fits `MAX_BUFFER_BYTES`, else 1920 x 1080.
pub open spec fn fitted_size(width: u64, height: u64) -> (int, int) {
    if width * height * 3 > MAX_BUFFER_BYTES {
        (FALLBACK_WIDTH as int, FALLBACK_HEIGHT as int)
    } else {
        (width as int, height as int)
    }
}

/// `y1 * w + x1 == y2 * w + x2` with both `x` in `0..w` forces equal coordinates.
pub proof fn lemma_cell_index_unique(w: int, x1: int, y1: int, x2: int, y2: int)
    requires
        0 <= x1 < w,
        0 <= x2 < w,
        y1 * w + x1 == y2 * w + x2,
    ensures
        x1 == x2,
        y1 == y2,
{
    if y1 < y2 {
        assert(y1 * w + w <= y2 * w) by (nonlinear_arith)
            requires
                y1 < y2,
                w > 0,
        ;
    } else if y2 < y1 {
        assert(y2 * w + w <= y1 * w) by (nonlinear_arith)
            requires
                y2 < y1,
                w > 0,
        ;
    }
}

/// A cell inside a `w x h` grid has a row-major index below `w * h`.
pub proof fn lemma_cell_index_bound(w: int, h: int, x: int, y: int)
    requires
        0 <= x < w,
        0 <= y < h,
    ensures
        0 <= y * w + x < w * h,
        y * w + x + 1 <= w * h,
{
    assert(0 <= y * w) by (nonlinear_arith)
        requires
            0 <= y,
            0 <= w,
    ;
    assert(y * w + w <= h * w) by (nonlinear_arith)
        requires
            y < h,
            0 <= w,
    ;
    assert(h * w == w * h) by (nonlinear_arith);
}

/// Opacity 0 keeps the destination channel and opacity 255 yields the source.
pub proof fn law_blend_extremes(s: u8, d: u8)
    ensures
        blend_channel(s, d, 0) == d,
        blend_channel(s, d, 255) == s,
{
    let v: int = s * 255;
    let t: int = d * 255;
    assert(((v + 1 + v / 256) / 256) == s) by (nonlinear_arith)
        requires
            v == s * 255,
            0 <= s < 256,
    ;
    assert(((t + 1 + t / 256) / 256) == d) by (nonlinear_arith)
        requires
            t == d * 255,
            0 <= d < 256,
    ;
    assert(s * 255 + d * (255 - 255) == v);
    assert(s * 0 + d * (255 - 0) == t);
}

impl Canvas {
    #[verifier::type_invariant]
    spec fn well_formed(self) -> bool {
        &&& 0 <= self.width
        &&& 0 <= self.height
        &&& self.width * self.height * 3 <= MAX_BUFFER_BYTES
        &&& self.buf@.len() == self.width * self.height * 3
    }

    /// Screen width in pixels.
    pub closed spec fn spec_width(&self) -> int {
        self.width as int
    }

    /// Screen height in pixels.
    pub closed spec fn spec_height(&self) -> int {
        self.height as int
    }

    /// Pixel format reported by the display (`0` is blue-green-red byte order).
    pub closed spec fn spec_format(&self) -> u32 {
        self.format
    }

    /// Whether `(x, y)` is a pixel of the canvas.
    pub open spec fn in_bounds(&self, x: int, y: int) -> bool {
        0 <= x < self.spec_width() && 0 <= y < self.spec_height()
    }

    /// Two canvases have the same size and format.
    pub open spec fn same_shape(&self, other: &Canvas) -> bool {
        &&& self.spec_width() == other.spec_width()
        &&& self.spec_height() == other.spec_height()
        &&& self.spec_format() == other.spec_format()
    }

    /// Byte offset of the first byte of pixel `(x, y)`.
    closed spec fn offset(&self, x: int, y: int) -> int {
        byte_offset(self.width as int, x, y)
    }

    /// The stored bytes, three per pixel, row after row.
    pub closed spec fn bytes(&self) -> Seq<u8> {
        self.buf@
    }

    /// The stored bytes: three per pixel, row after row, each pixel's color
    /// decoded from them in the display's channel order.
    pub fn as_bytes(&self) -> (b: &[u8])
        ensures
            b@ == self.bytes(),
            b@.len() == self.spec_width() * self.spec_height() * 3,
            self.spec_width() * self.spec_height() * 3 <= MAX_BUFFER_BYTES,
            forall|x: int, y: int|
                self.in_bounds(x, y) ==> #[trigger] self.pixel(x, y) == decode(
                    self.spec_format(),
                    b@,
                    byte_offset(self.spec_width(), x, y),
                ),
    {
        proof {
            use_type_invariant(self);
        }
        self.buf.as_slice()
    }

    /// The color of pixel `(x, y)`.
    pub closed spec fn pixel(&self, x: int, y: int) -> Rgb {
        decode(self.format, self.buf@, self.offset(x, y))
    }

    /// A black back buffer for a screen of the reported size; a screen whose
    /// pixels do not fit `MAX_BUFFER_BYTES` gets a 1920 x 1080 buffer instead.
    pub fn new(width: u64, height: u64, format: u32) -> (c: Canvas)
        requires
            width <= i32::MAX,
            height <= i32::MAX,
        ensures
            c.spec_width() == fitted_size(width, height).0,
            c.spec_height() == fitted_size(width, height).1,
            c.spec_format() == format,
            forall|x: int, y: int| c.in_bounds(x, y) ==> #[trigger] c.pixel(x, y) == (0u8, 0u8, 0u8),
    {
        assert(width * height <= i32::MAX * i32::MAX) by (nonlinear_arith)
            requires
                width <= i32::MAX,
                height <= i32::MAX,
        ;
        let (w, h): (u64, u64) = if width * height * 3 > MAX_BUFFER_BYTES {
            (FALLBACK_WIDTH, FALLBACK_HEIGHT)
        } else {
            (width, height)
        };
        let n: usize = (w * h * 3) as usize;
        let mut buf: Vec<u8> = Vec::new();
        let mut i: usize = 0;
        while i < n
            invariant
                i <= n,
                buf@.len() == i,
                forall|j: int| 0 <= j < i ==> buf@[j] == 0u8,
            decreases n - i,
        {
            buf.push(0u8);
            i = i + 1;
        }
        let c = Canvas { width: w as i32, height: h as i32, format, buf };
        proof {
            assert forall|x: int, y: int| c.in_bounds(x, y) implies #[trigger] c.pixel(x, y) == (
                0u8,
                0u8,
                0u8,
            ) by {
                lemma_cell_index_bound(c.width as int, c.height as int, x, y);
            }
        }
        c
    }

    /// Replaces every stored byte with the byte at the same place in `src`,
    /// which holds as many bytes as the canvas.
    pub fn load_bytes(&mut self, src: &[u8])
        requires
            src@.len() == old(self).bytes().len(),
        ensures
            final(self).same_shape(old(self)),
            final(self).bytes() == src@,
        no_unwind
    {
        proof {
            use_type_invariant(&*self);
        }
        let n = self.buf.len();
        let mut i: usize = 0;
        while i < n
            invariant
                i <= n,
                n == self.buf@.len(),
                n == src@.len(),
                self.width == old(self).width,
                self.height == old(self).height,
                self.format == old(self).format,
                0 <= self.width,
                0 <= self.height,
                self.width * self.height * 3 <= MAX_BUFFER_BYTES,
                self.buf@.len() == self.width * self.height * 3,
                forall|k: int| 0 <= k < i ==> self.buf@[k] == src@[k],
            decreases n - i,
        {
            self.buf[i] = src[i];
            i = i + 1;
        }
        assert(self.buf@ =~= src@);
    }

    /// Screen width in pixels.
    pub fn width(&self) -> (w: i32)
        ensures
            w == self.spec_width(),
            w >= 0,
    {
        proof {
            use_type_invariant(self);
        }
        self.width
    }

    /// Screen height in pixels.
    pub fn height(&self) -> (h: i32)
        ensures
            h == self.spec_height(),
            h >= 0,
    {
        proof {
            use_type_invariant(self);
        }
        self.height
    }

    /// Pixel format reported by the display.
    pub fn format(&self) -> (f: u32)
        ensures
            f == self.spec_format(),
    {
        self.format
    }

    /// The color of pixel `(x, y)`, or `None` outside the canvas.
    pub fn get_pixel(&self, x: i32, y: i32) -> (p: Option<Rgb>)
        ensures
            p == (if self.in_bounds(x as int, y as int) {
                Some(self.pixel(x as int, y as int))
            } else {
                None
            }),
    {
        proof {
            use_type_invariant(self);
        }
        if x >= 0 && x < self.width && y >= 0 && y < self.height {
            proof {
                lemma_cell_index_bound(self.width as int, self.height as int, x as int, y as int);
            }
            let o: usize = ((y * self.width + x) * 3) as usize;
            if self.format == 0 {
                Some((self.buf[o + 2], self.buf[o + 1], self.buf[o]))
            } else {
                Some((self.buf[o], self.buf[o + 1], self.buf[o + 2]))
            }
        } else {
            None
        }
    }

    /// Stores `c` at the in-bounds pixel `(x, y)`.
    fn put(&mut self, x: i32, y: i32, c: Rgb)
        requires
            old(self).in_bounds(x as int, y as int),
        ensures
            final(self).same_shape(old(self)),
            forall|px: int, py: int|
                final(self).in_bounds(px, py) ==> #[trigger] final(self).pixel(px, py) == (if px
                    == x && py == y {
                    c
                } else {
                    old(self).pixel(px, py)
                }),
        no_unwind
    {
        proof {
            use_type_invariant(&*self);
            lemma_cell_index_bound(self.width as int, self.height as int, x as int, y as int);
        }
        let ghost before = *self;
        let o: usize = ((y * self.width + x) * 3) as usize;
        if self.format == 0 {
            self.buf[o] = c.2;
            self.buf[o + 1] = c.1;
            self.buf[o + 2] = c.0;
        } else {
            self.buf[o] = c.0;
            self.buf[o + 1] = c.1;
            self.buf[o + 2] = c.2;
        }
        proof {
            assert forall|px: int, py: int| self.in_bounds(px, py) implies #[trigger] self.pixel(
                px,
                py,
            ) == (if px == x && py == y {
                c
            } else {
                before.pixel(px, py)
            }) by {
                lemma_cell_index_bound(self.width as int, self.height as int, px, py);
                if !(px == x && py == y) {
                    if py * self.width + px == y * self.width + x {
                        lemma_cell_index_unique(self.width as int, px, py, x as int, y as int);
                    }
                }
            }
        }
    }

    /// Sets pixel `(x, y)` to the color `(r, g, b)`; does nothing outside the canvas.
    pub fn draw_pixel(&mut self, x: i32, y: i32, r: u8, g: u8, b: u8)
        ensures
            final(self).same_shape(old(self)),
            forall|px: int, py: int|
                final(self).in_bounds(px, py) ==> #[trigger] final(self).pixel(px, py) == (if px
                    == x && py == y {
                    (r, g, b)
                } else {
                    old(self).pixel(px, py)
                }),
    {
        proof {
            use_type_invariant(&*self);
        }
        if x >= 0 && x < self.width && y >= 0 && y < self.height {
            self.put(x, y, (r, g, b));
        }
    }

    /// Mixes the color `(r, g, b)` with opacity `alpha` over pixel `(x, y)`;
    /// does nothing outside the canvas.
    pub fn draw_pixel_alpha(&mut self, x: i32, y: i32, r: u8, g: u8, b: u8, alpha: u8)
        ensures
            final(self).same_shape(old(self)),
            forall|px: int, py: int|
                final(self).in_bounds(px, py) ==> #[trigger] final(self).pixel(px, py) == (if px
                    == x && py == y {
                    blend((r, g, b), old(self).pixel(px, py), alpha)
                } else {
                    old(self).pixel(px, py)
                }),
    {
        proof {
            use_type_invariant(&*self);
        }
        if x >= 0 && x < self.width && y >= 0 && y < self.height {
            let ghost d = self.pixel(x as int, y as int);
            proof {
                law_blend_extremes(r, d.0);
                law_blend_extremes(g, d.1);
                law_blend_extremes(b, d.2);
            }
            if alpha == 0 {
                return;
            }
            if alpha == 255 {
                self.put(x, y, (r, g, b));
                return;
            }
            let dest = match self.get_pixel(x, y) {
                Some(p) => p,
                None => (0u8, 0u8, 0u8),
            };
            let mixed = (
                mix_channel(r, dest.0, alpha),
                mix_channel(g, dest.1, alpha),
                mix_channel(b, dest.2, alpha),
            );
            self.put(x, y, mixed);
        }
    }
}

/// One channel of an alpha blend, in integer arithmetic with rounding.
fn mix_channel(src: u8, dst: u8, alpha: u8) -> (c: u8)
    ensures
        c == blend_channel(src, dst, alpha),
{
    let a: u32 = alpha as u32;
    let inv: u32 = 255 - a;
    assert((src as u32) * a + (dst as u32) * inv <= 65025) by (nonlinear_arith)
        requires
            src <= 255,
            dst <= 255,
            a <= 255,
            inv == 255 - a,
    ;
    let v: u32 = (src as u32) * a + (dst as u32) * inv;
    assert((v >> 8) == v / 256) by (bit_vector);
    let t: u32 = v + 1 + (v >> 8);
    let res: u32 = t >> 8;
    assert((t >> 8) == t / 256) by (bit_vector);
    assert(res <= 255);
    res as u8
}

} // verus!
