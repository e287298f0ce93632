//! Text drawn with an 8 x 16 bitmap font: scaled blocky glyphs, and glyphs
//! resampled to any cell size with four-sample anti-aliasing.
use vstd::prelude::*;
use crate::canvas::{Canvas, Rgb, blend};
use vstd::string::StrSliceExecFns;

verus! {

/// An 8 x 16 bitmap font for the 128 ASCII characters: glyph `c` has 16 rows,
/// each a byte whose most significant bit is the leftmost pixel.
pub struct Font {
    glyphs: Vec<[u8; 16]>,
}

/// Whether pixel `col` (0 leftmost) of the glyph row `bits` is set.
pub open spec fn row_bit(bits: u8, col: int) -> bool {
    (bits & (0x80u8 >> (col as u8))) != 0
}

/// Block index of offset `v` in blocks of `s` pixels, for `v >= 0` and `s > 0`.
proof fn lemma_block_of(v: int, k: int, s: int)
    requires
        s > 0,
        k * s <= v < k * s + s,
    ensures
        v / s == k,
{
    assert(v / s == k) by (nonlinear_arith)
        requires
            s > 0,
            k * s <= v < k * s + s,
    ;
}

/// Offset `v >= 0` lies in block `v / s` of `s` pixels.
proof fn lemma_block_bounds(v: int, s: int)
    requires
        s > 0,
        v >= 0,
    ensures
        (v / s) * s <= v < (v / s) * s + s,
        v / s >= 0,
{
    assert((v / s) * s <= v < (v / s) * s + s) by (nonlinear_arith)
        requires
            s > 0,
            v >= 0,
    ;
    assert(v / s >= 0) by (nonlinear_arith)
        requires
            s > 0,
            v >= 0,
    ;
}

impl Font {
    #[verifier::type_invariant]
    spec fn well_formed(self) -> bool {
        self.glyphs@.len() == 128
    }

    /// Row `row` of the glyph for character code `code`.
    pub closed spec fn glyph_row(&self, code: int, row: int) -> u8 {
        self.glyphs@[code]@[row]
    }

    /// A font from its 128 glyphs; `None` for any other number of glyphs.
    pub fn new(glyphs: Vec<[u8; 16]>) -> (f: Option<Font>)
        ensures
            f.is_some() == (glyphs@.len() == 128),
            f matches Some(font) ==> forall|code: int, row: int|
                0 <= code < 128 && 0 <= row < 16 ==> #[trigger] font.glyph_row(code, row)
                    == glyphs@[code]@[row],
    {
        if glyphs.len() == 128 {
            Some(Font { glyphs })
        } else {
            None
        }
    }

    fn row(&self, code: usize, row: usize) -> (b: u8)
        requires
            code < 128,
            row < 16,
        ensures
            b == self.glyph_row(code as int, row as int),
    {
        proof {
            use_type_invariant(self);
        }
        self.glyphs[code][row]
    }
}

/// Whether the glyph for character code `code`, drawn at `(x, y)` with each
/// font pixel a `scale x scale` block, covers pixel `(px, py)`.
pub open spec fn char_covers(font: &Font, code: int, x: int, y: int, scale: int, px: int, py: int) -> bool {
    let dx = px - x;
    let dy = py - y;
    &&& 0 <= code < 128
    &&& scale > 0
    &&& 0 <= dx < 8 * scale
    &&& 0 <= dy < 16 * scale
    &&& row_bit(font.glyph_row(code, dy / scale), dx / scale)
}

/// A glyph drawn at `(x, y)` with blocks of `scale` pixels stays within
/// `i32`: the offset of its last row of blocks, and its last column and row
/// of pixels.
pub open spec fn char_fits(x: int, y: int, scale: int) -> bool {
    scale > 0 ==> {
        &&& 15 * scale <= i32::MAX
        &&& x + 8 * scale - 1 <= i32::MAX
        &&& y + 16 * scale - 1 <= i32::MAX
    }
}

fn fill_block(canvas: &mut Canvas, x: i32, y: i32, scale: i32, r: u8, g: u8, b: u8)
    requires
        scale > 0,
        x + scale - 1 <= i32::MAX,
        y + scale - 1 <= i32::MAX,
    ensures
        final(canvas).same_shape(old(canvas)),
        forall|px: int, py: int|
            final(canvas).in_bounds(px, py) ==> #[trigger] final(canvas).pixel(px, py) == (if x
                <= px < x + scale && y <= py < y + scale {
                (r, g, b)
            } else {
                old(canvas).pixel(px, py)
            }),
{
    // The canvas is never wider or taller than `i32::MAX`, so a block reaching
    // past it is cut there without changing which pixels it covers.
    let _ = canvas.width();
    let _ = canvas.height();
    let w = if x <= i32::MAX - scale { scale } else { i32::MAX - x };
    let h = if y <= i32::MAX - scale { scale } else { i32::MAX - y };
    crate::graphics::raster::draw_rect(canvas, x, y, w, h, r, g, b);
}

/// Draws the ASCII character `c` with its top-left corner at `(x, y)`, each
/// font pixel as a `scale x scale` block of `(r, g, b)`; characters outside
/// ASCII draw nothing.
pub fn draw_char(
    canvas: &mut Canvas,
    font: &Font,
    x: i32,
    y: i32,
    c: char,
    r: u8,
    g: u8,
    b: u8,
    scale: i32,
)
    requires
        char_fits(x as int, y as int, scale as int),
    ensures
        final(canvas).same_shape(old(canvas)),
        forall|px: int, py: int|
            final(canvas).in_bounds(px, py) ==> #[trigger] final(canvas).pixel(px, py) == (if char_covers(
                font,
                c as int,
                x as int,
                y as int,
                scale as int,
                px,
                py,
            ) {
                (r, g, b)
            } else {
                old(canvas).pixel(px, py)
            }),
{
    let code = c as u32;
    if code >= 128 {
        return;
    }
    if scale <= 0 {
        return;
    }
    let ghost before = *canvas;
    let ghost code_i = c as int;
    let mut row: i32 = 0;
    while row < 16
        invariant
            0 <= row <= 16,
            code < 128,
            code_i == code,
            scale > 0,
            char_fits(x as int, y as int, scale as int),
            canvas.same_shape(&before),
            forall|px: int, py: int|
                canvas.in_bounds(px, py) ==> #[trigger] canvas.pixel(px, py) == (if char_covers(
                    font,
                    code_i,
                    x as int,
                    y as int,
                    scale as int,
                    px,
                    py,
                ) && (py - y) / (scale as int) < row {
                    (r, g, b)
                } else {
                    before.pixel(px, py)
                }),
        decreases 16 - row,
    {
        let bits = font.row(code as usize, row as usize);
        let mut col: i32 = 0;
        while col < 8
            invariant
                0 <= row < 16,
                0 <= col <= 8,
                code < 128,
                code_i == code,
                scale > 0,
                bits == font.glyph_row(code_i, row as int),
                char_fits(x as int, y as int, scale as int),
                canvas.same_shape(&before),
                forall|px: int, py: int|
                    canvas.in_bounds(px, py) ==> #[trigger] canvas.pixel(px, py) == (if char_covers(
                        font,
                        code_i,
                        x as int,
                        y as int,
                        scale as int,
                        px,
                        py,
                    ) && ((py - y) / (scale as int) < row || ((py - y) / (scale as int) == row && (px
                        - x) / (scale as int) < col)) {
                        (r, g, b)
                    } else {
                        before.pixel(px, py)
                    }),
            decreases 8 - col,
        {
            let ghost pre = *canvas;
            assert(col * scale + scale <= 8 * scale) by (nonlinear_arith)
                requires
                    col < 8,
                    scale > 0,
            ;
            assert(row * scale + scale <= 16 * scale) by (nonlinear_arith)
                requires
                    row < 16,
                    scale > 0,
            ;
            assert(0 <= col * scale && 0 <= row * scale) by (nonlinear_arith)
                requires
                    col >= 0,
                    row >= 0,
                    scale > 0,
            ;
            let bx = x + col * scale;
            let by = y + row * scale;
            let set = (bits & (0x80u8 >> (col as u8))) != 0;
            if set {
                fill_block(canvas, bx, by, scale, r, g, b);
            }
            proof {
                assert forall|px: int, py: int| canvas.in_bounds(px, py) implies #[trigger] canvas.pixel(
                    px,
                    py,
                ) == (if char_covers(
                    font,
                    code_i,
                    x as int,
                    y as int,
                    scale as int,
                    px,
                    py,
                ) && ((py - y) / (scale as int) < row || ((py - y) / (scale as int) == row && (px
                    - x) / (scale as int) < col + 1)) {
                    (r, g, b)
                } else {
                    before.pixel(px, py)
                }) by {
                    let dx = px - x;
                    let dy = py - y;
                    if bx <= px < bx + scale && by <= py < by + scale {
                        lemma_block_of(dx, col as int, scale as int);
                        lemma_block_of(dy, row as int, scale as int);
                    } else if 0 <= dx && 0 <= dy {
                        lemma_block_bounds(dx, scale as int);
                        lemma_block_bounds(dy, scale as int);
                    }
                }
            }
            col = col + 1;
        }
        proof {
            assert forall|px: int, py: int| canvas.in_bounds(px, py) implies #[trigger] canvas.pixel(
                px,
                py,
            ) == (if char_covers(font, code_i, x as int, y as int, scale as int, px, py) && (py
                - y) / (scale as int) < row + 1 {
                (r, g, b)
            } else {
                before.pixel(px, py)
            }) by {
                if px - x >= 0 {
                    lemma_block_bounds(px - x, scale as int);
                }
                if char_covers(font, code_i, x as int, y as int, scale as int, px, py) {
                    assert((px - x) / (scale as int) < 8) by (nonlinear_arith)
                        requires
                            0 <= px - x < 8 * scale,
                            scale > 0,
                    ;
                }
            }
        }
        row = row + 1;
    }
    proof {
        assert forall|px: int, py: int| canvas.in_bounds(px, py) implies #[trigger] canvas.pixel(
            px,
            py,
        ) == (if char_covers(font, code_i, x as int, y as int, scale as int, px, py) {
            (r, g, b)
        } else {
            before.pixel(px, py)
        }) by {
            if char_covers(font, code_i, x as int, y as int, scale as int, px, py) {
                assert((py - y) / (scale as int) < 16) by (nonlinear_arith)
                    requires
                        0 <= py - y < 16 * scale,
                        scale > 0,
                ;
            }
        }
    }
}


/// How far the pen moves for the characters `chars`: `step` for each
/// character other than a line feed, which is skipped.
pub open spec fn advance(chars: Seq<char>, step: int) -> int
    decreases chars.len(),
{
    if chars.len() == 0 {
        0
    } else {
        advance(chars.drop_last(), step) + if chars.last() == '\n' {
            0
        } else {
            step
        }
    }
}

/// Whether the characters `chars` drawn from `(x, y)` with blocks of `scale`
/// pixels, each one `8 * scale + 1` pixels right of the previous, cover
/// pixel `(px, py)`; line feeds are skipped.
pub open spec fn string_covers(
    font: &Font,
    chars: Seq<char>,
    x: int,
    y: int,
    scale: int,
    px: int,
    py: int,
) -> bool
    decreases chars.len(),
{
    if chars.len() == 0 {
        false
    } else {
        let prefix = chars.drop_last();
        ||| string_covers(font, prefix, x, y, scale, px, py)
        ||| (chars.last() != '\n' && char_covers(
            font,
            chars.last() as int,
            x + advance(prefix, 8 * scale + 1),
            y,
            scale,
            px,
            py,
        ))
    }
}

/// Pixel `(px, py)`, previously `old`, after `draw_char` is called for each
/// character of `chars` but line feeds, in order, the pen starting at
/// `(x, y)` and moving `8 * scale + 1` pixels right after each.
pub open spec fn drawn_char_by_char(
    old: Rgb,
    font: &Font,
    chars: Seq<char>,
    x: int,
    y: int,
    scale: int,
    c: Rgb,
    px: int,
    py: int,
) -> Rgb
    decreases chars.len(),
{
    if chars.len() == 0 {
        old
    } else {
        let prefix = chars.drop_last();
        let before = drawn_char_by_char(old, font, prefix, x, y, scale, c, px, py);
        if chars.last() != '\n' && char_covers(
            font,
            chars.last() as int,
            x + advance(prefix, 8 * scale + 1),
            y,
            scale,
            px,
            py,
        ) {
            c
        } else {
            before
        }
    }
}

/// Number of characters of `chars` other than line feeds.
pub open spec fn drawn_count(chars: Seq<char>) -> int
    decreases chars.len(),
{
    if chars.len() == 0 {
        0
    } else {
        drawn_count(chars.drop_last()) + if chars.last() == '\n' {
            0int
        } else {
            1int
        }
    }
}

/// A string is its characters: drawing `chars` with `draw_string` colors
/// each pixel as calling `draw_char` for every character but line feeds, in
/// order, would, and the pen of the character after the first `k` drawn ones
/// stands `k * (8 * scale + 1)` pixels right of `x`.
pub proof fn law_string_is_its_characters(
    old: Rgb,
    font: &Font,
    chars: Seq<char>,
    x: int,
    y: int,
    scale: int,
    c: Rgb,
    px: int,
    py: int,
)
    ensures
        drawn_char_by_char(old, font, chars, x, y, scale, c, px, py) == (if string_covers(
            font,
            chars,
            x,
            y,
            scale,
            px,
            py,
        ) {
            c
        } else {
            old
        }),
        advance(chars, 8 * scale + 1) == drawn_count(chars) * (8 * scale + 1),
    decreases chars.len(),
{
    if chars.len() > 0 {
        law_string_is_its_characters(old, font, chars.drop_last(), x, y, scale, c, px, py);
        assert(advance(chars, 8 * scale + 1) == drawn_count(chars) * (8 * scale + 1)) by (nonlinear_arith)
            requires
                advance(chars.drop_last(), 8 * scale + 1) == drawn_count(chars.drop_last()) * (8 * scale + 1),
                advance(chars, 8 * scale + 1) == advance(chars.drop_last(), 8 * scale + 1) + if chars.last()
                    == '\n' {
                    0int
                } else {
                    8 * scale + 1
                },
                drawn_count(chars) == drawn_count(chars.drop_last()) + if chars.last() == '\n' {
                    0int
                } else {
                    1int
                },
        ;
    }
}

/// Every pen position and glyph of `chars` drawn from `(x, y)` with blocks of
/// `scale` pixels stays within `i32`.
pub open spec fn string_fits(chars: Seq<char>, x: int, y: int, scale: int) -> bool {
    &&& i32::MIN <= 8 * scale + 1 <= i32::MAX
    &&& forall|i: int|
        0 <= i <= chars.len() ==> i32::MIN <= x + #[trigger] advance(chars.take(i), 8 * scale + 1)
            <= i32::MAX
    &&& forall|i: int|
        0 <= i < chars.len() ==> char_fits(
            x + #[trigger] advance(chars.take(i), 8 * scale + 1),
            y,
            scale,
        )
}

/// Draws the text `s` from `(x, y)` in `(r, g, b)`, each character as by
/// `draw_char` and `8 * scale + 1` pixels right of the previous; line feeds
/// are skipped.
pub fn draw_string(
    canvas: &mut Canvas,
    font: &Font,
    x: i32,
    y: i32,
    s: &str,
    r: u8,
    g: u8,
    b: u8,
    scale: i32,
)
    requires
        string_fits(s@, x as int, y as int, scale as int),
    ensures
        final(canvas).same_shape(old(canvas)),
        forall|px: int, py: int|
            final(canvas).in_bounds(px, py) ==> #[trigger] final(canvas).pixel(px, py) == (if string_covers(
                font,
                s@,
                x as int,
                y as int,
                scale as int,
                px,
                py,
            ) {
                (r, g, b)
            } else {
                old(canvas).pixel(px, py)
            }),
{
    let ghost before = *canvas;
    let n = s.unicode_len();
    let step = 8 * scale + 1;
    let mut cur_x = x;
    let mut i: usize = 0;
    proof {
        assert(s@.take(0) =~= Seq::<char>::empty());
    }
    while i < n
        invariant
            n == s@.len(),
            i <= n,
            step == 8 * scale + 1,
            string_fits(s@, x as int, y as int, scale as int),
            cur_x == x + advance(s@.take(i as int), step as int),
            canvas.same_shape(&before),
            forall|px: int, py: int|
                canvas.in_bounds(px, py) ==> #[trigger] canvas.pixel(px, py) == (if string_covers(
                    font,
                    s@.take(i as int),
                    x as int,
                    y as int,
                    scale as int,
                    px,
                    py,
                ) {
                    (r, g, b)
                } else {
                    before.pixel(px, py)
                }),
        decreases n - i,
    {
        let c = s.get_char(i);
        proof {
            assert(s@.take(i + 1).drop_last() =~= s@.take(i as int));
            assert(s@.take(i + 1).last() == c);
            assert(i32::MIN <= x + advance(s@.take(i + 1), step as int) <= i32::MAX);
            assert(char_fits(x + advance(s@.take(i as int), step as int), y as int, scale as int));
        }
        if c != '\n' {
            draw_char(canvas, font, cur_x, y, c, r, g, b, scale);
            cur_x = cur_x + step;
        }
        i = i + 1;
    }
    proof {
        assert(s@.take(n as int) =~= s@);
    }
}


/// Font row or column sampled for output offset `d` at quarter position `k`
/// (1 or 3) with a scale of `scale` 256ths of a font pixel per output pixel.
pub open spec fn sample_pos(d: int, k: int, scale: int) -> int {
    (((d * 4 + k) * scale) / 4) / 256
}

/// Whether the font pixel `(sx, sy)` of glyph `code` is inside the glyph and set.
pub open spec fn sample_set(font: &Font, code: int, sx: int, sy: int) -> bool {
    0 <= sx < 8 && 0 <= sy < 16 && row_bit(font.glyph_row(code, sy), sx)
}

/// How many of the four samples of output pixel `(dx, dy)` hit set font
/// pixels when glyph `code` is resampled to a `w x h` cell.
pub open spec fn smooth_count(font: &Font, code: int, w: int, h: int, dx: int, dy: int) -> int {
    let scale_x = 2048int / w;
    let scale_y = 4096int / h;
    let left = sample_pos(dx, 1, scale_x);
    let right = sample_pos(dx, 3, scale_x);
    let top = sample_pos(dy, 1, scale_y);
    let bottom = sample_pos(dy, 3, scale_y);
    (if sample_set(font, code, left, top) {
        1int
    } else {
        0int
    }) + (if sample_set(font, code, right, top) {
        1int
    } else {
        0int
    }) + (if sample_set(font, code, left, bottom) {
        1int
    } else {
        0int
    }) + (if sample_set(font, code, right, bottom) {
        1int
    } else {
        0int
    })
}

/// Opacity for `n` of four samples set: 64, 128, 192 or 255.
pub open spec fn coverage_alpha(n: int) -> u8 {
    if n == 1 {
        64
    } else if n == 2 {
        128
    } else if n == 3 {
        192
    } else {
        255
    }
}

/// The color of pixel `(px, py)`, previously `old`, once glyph `code` is
/// drawn anti-aliased into the `w x h` cell at `(x, y)` in `c`.
pub open spec fn smooth_char_pixel(
    old: Rgb,
    font: &Font,
    code: int,
    x: int,
    y: int,
    w: int,
    h: int,
    c: Rgb,
    px: int,
    py: int,
) -> Rgb {
    if 0 <= code < 128 && 0 <= px - x < w && 0 <= py - y < h && smooth_count(
        font,
        code,
        w,
        h,
        px - x,
        py - y,
    ) > 0 {
        blend(c, old, coverage_alpha(smooth_count(font, code, w, h, px - x, py - y)))
    } else {
        old
    }
}

/// An anti-aliased glyph cell of `w x h` at `(x, y)` computes within `i32`.
pub open spec fn smooth_fits(x: int, y: int, w: int, h: int) -> bool {
    &&& w != 0
    &&& h != 0
    &&& w <= 0x2000_0000
    &&& h <= 0x2000_0000
    &&& x + w - 1 <= i32::MAX
    &&& y + h - 1 <= i32::MAX
}

fn sample(d: i32, k: i32, scale: i32) -> (v: i32)
    requires
        0 <= d,
        0 <= d * 4 + k <= 0x8000_0000 - 1,
        k == 1 || k == 3,
        0 <= scale,
        (d * 4 + k) * scale <= i32::MAX,
    ensures
        v == sample_pos(d as int, k as int, scale as int),
        v >= 0,
{
    let t = ((d * 4 + k) * scale) / 4;
    assert(t >= 0);
    assert(t >> 8 == t / 256) by (bit_vector)
        requires
            t >= 0,
    ;
    t >> 8
}

fn sample_hit(font: &Font, code: usize, sx: i32, sy: i32) -> (h: bool)
    requires
        code < 128,
    ensures
        h == sample_set(font, code as int, sx as int, sy as int),
{
    if sx >= 0 && sx < 8 && sy >= 0 && sy < 16 {
        let bits = font.row(code, sy as usize);
        (bits & (0x80u8 >> (sx as u8))) != 0
    } else {
        false
    }
}

proof fn lemma_sample_bound(d: int, n: int, scale_num: int)
    requires
        0 <= d < n,
        n > 0,
        n <= 0x2000_0000,
        0 < scale_num <= 4096,
    ensures
        0 <= (d * 4 + 3) * (scale_num / n) <= 4 * scale_num,
        0 <= (d * 4 + 1) * (scale_num / n) <= (d * 4 + 3) * (scale_num / n),
        0 <= scale_num / n,
{
    assert(0 <= scale_num / n) by (nonlinear_arith)
        requires
            n > 0,
            scale_num > 0,
    ;
    assert((scale_num / n) * n <= scale_num) by (nonlinear_arith)
        requires
            n > 0,
            scale_num > 0,
    ;
    assert((d * 4 + 3) * (scale_num / n) <= (n * 4) * (scale_num / n)) by (nonlinear_arith)
        requires
            0 <= d < n,
            0 <= scale_num / n,
    ;
    assert((n * 4) * (scale_num / n) == 4 * ((scale_num / n) * n)) by (nonlinear_arith);
    assert(0 <= (d * 4 + 1) * (scale_num / n) <= (d * 4 + 3) * (scale_num / n)) by (nonlinear_arith)
        requires
            0 <= d,
            0 <= scale_num / n,
    ;
}

/// Draws the ASCII character `c` resampled to a `size_w x size_h` cell with
/// its top-left corner at `(x, y)`: each output pixel samples the glyph at four
/// points and is blended in `(r, g, b)` at opacity 64, 128, 192 or 255 for one
/// to four set samples. Characters outside ASCII draw nothing.
pub fn draw_char_smooth(
    canvas: &mut Canvas,
    font: &Font,
    x: i32,
    y: i32,
    c: char,
    r: u8,
    g: u8,
    b: u8,
    size_w: i32,
    size_h: i32,
)
    requires
        (c as int) < 128 ==> smooth_fits(x as int, y as int, size_w as int, size_h as int),
    ensures
        final(canvas).same_shape(old(canvas)),
        forall|px: int, py: int|
            final(canvas).in_bounds(px, py) ==> #[trigger] final(canvas).pixel(px, py)
                == smooth_char_pixel(
                old(canvas).pixel(px, py),
                font,
                c as int,
                x as int,
                y as int,
                size_w as int,
                size_h as int,
                (r, g, b),
                px,
                py,
            ),
{
    let code = c as u32;
    if code >= 128 {
        return;
    }
    let code = code as usize;
    let scale_x = (8 * 256) / size_w;
    let scale_y = (16 * 256) / size_h;
    let ghost before = *canvas;
    let mut dy: i32 = 0;
    while dy < size_h
        invariant
            0 <= dy,
            size_h > 0 ==> dy <= size_h,
            code == c as int,
            code < 128,
            smooth_fits(x as int, y as int, size_w as int, size_h as int),
            size_h > 0 ==> scale_y == 4096int / (size_h as int),
            size_w > 0 ==> scale_x == 2048int / (size_w as int),
            canvas.same_shape(&before),
            forall|px: int, py: int|
                canvas.in_bounds(px, py) ==> #[trigger] canvas.pixel(px, py) == (if py - y < dy {
                    smooth_char_pixel(
                        before.pixel(px, py),
                        font,
                        code as int,
                        x as int,
                        y as int,
                        size_w as int,
                        size_h as int,
                        (r, g, b),
                        px,
                        py,
                    )
                } else {
                    before.pixel(px, py)
                }),
        decreases size_h - dy,
    {
        proof {
            lemma_sample_bound(dy as int, size_h as int, 4096);
        }
        let sy_top = sample(dy, 1, scale_y);
        let sy_bottom = sample(dy, 3, scale_y);
        let mut dx: i32 = 0;
        while dx < size_w
            invariant
                0 <= dy < size_h,
                0 <= dx,
                size_w > 0 ==> dx <= size_w,
                code == c as int,
                code < 128,
                smooth_fits(x as int, y as int, size_w as int, size_h as int),
                scale_y == 4096int / (size_h as int),
                size_w > 0 ==> scale_x == 2048int / (size_w as int),
                sy_top == sample_pos(dy as int, 1, scale_y as int),
                sy_bottom == sample_pos(dy as int, 3, scale_y as int),
                canvas.same_shape(&before),
                forall|px: int, py: int|
                    canvas.in_bounds(px, py) ==> #[trigger] canvas.pixel(px, py) == (if py - y < dy
                        || (py - y == dy && px - x < dx) {
                        smooth_char_pixel(
                            before.pixel(px, py),
                            font,
                            code as int,
                            x as int,
                            y as int,
                            size_w as int,
                            size_h as int,
                            (r, g, b),
                            px,
                            py,
                        )
                    } else {
                        before.pixel(px, py)
                    }),
            decreases size_w - dx,
        {
            proof {
                lemma_sample_bound(dx as int, size_w as int, 2048);
            }
            let sx_left = sample(dx, 1, scale_x);
            let sx_right = sample(dx, 3, scale_x);
            let mut active: u32 = 0;
            if sample_hit(font, code, sx_left, sy_top) {
                active = active + 1;
            }
            if sample_hit(font, code, sx_right, sy_top) {
                active = active + 1;
            }
            if sample_hit(font, code, sx_left, sy_bottom) {
                active = active + 1;
            }
            if sample_hit(font, code, sx_right, sy_bottom) {
                active = active + 1;
            }
            if active > 0 {
                let alpha: u8 = if active == 1 {
                    64
                } else if active == 2 {
                    128
                } else if active == 3 {
                    192
                } else {
                    255
                };
                canvas.draw_pixel_alpha(x + dx, y + dy, r, g, b, alpha);
            }
            dx = dx + 1;
        }
        dy = dy + 1;
    }
}

/// The color of pixel `(px, py)`, previously `old`, once the characters
/// `chars` are drawn anti-aliased from `(x, y)` in `w x h` cells, each
/// `w + 1` pixels right of the previous (line feeds skipped), in turn.
pub open spec fn smooth_string_pixel(
    old: Rgb,
    font: &Font,
    chars: Seq<char>,
    x: int,
    y: int,
    w: int,
    h: int,
    c: Rgb,
    px: int,
    py: int,
) -> Rgb
    decreases chars.len(),
{
    if chars.len() == 0 {
        old
    } else {
        let prefix = chars.drop_last();
        let prev = smooth_string_pixel(old, font, prefix, x, y, w, h, c, px, py);
        if chars.last() == '\n' {
            prev
        } else {
            smooth_char_pixel(
                prev,
                font,
                chars.last() as int,
                x + advance(prefix, w + 1),
                y,
                w,
                h,
                c,
                px,
                py,
            )
        }
    }
}

/// Every pen position and cell of `chars` drawn from `(x, y)` in `w x h`
/// cells stays within `i32`.
pub open spec fn smooth_string_fits(chars: Seq<char>, x: int, y: int, w: int, h: int) -> bool {
    &&& w + 1 <= i32::MAX
    &&& forall|i: int|
        0 <= i <= chars.len() ==> i32::MIN <= x + #[trigger] advance(chars.take(i), w + 1)
            <= i32::MAX
    &&& forall|i: int|
        0 <= i < chars.len() && (chars[i] as int) < 128 ==> smooth_fits(
            x + #[trigger] advance(chars.take(i), w + 1),
            y,
            w,
            h,
        )
}

/// Draws the text `s` anti-aliased from `(x, y)` in `(r, g, b)`, each
/// character as by `draw_char_smooth` in a `char_w x char_h` cell and
/// `char_w + 1` pixels right of the previous; line feeds are skipped.
pub fn draw_string_smooth(
    canvas: &mut Canvas,
    font: &Font,
    x: i32,
    y: i32,
    s: &str,
    r: u8,
    g: u8,
    b: u8,
    char_w: i32,
    char_h: i32,
)
    requires
        smooth_string_fits(s@, x as int, y as int, char_w as int, char_h as int),
    ensures
        final(canvas).same_shape(old(canvas)),
        forall|px: int, py: int|
            final(canvas).in_bounds(px, py) ==> #[trigger] final(canvas).pixel(px, py)
                == smooth_string_pixel(
                old(canvas).pixel(px, py),
                font,
                s@,
                x as int,
                y as int,
                char_w as int,
                char_h as int,
                (r, g, b),
                px,
                py,
            ),
{
    let ghost before = *canvas;
    let n = s.unicode_len();
    let mut cur_x = x;
    let mut i: usize = 0;
    proof {
        assert(s@.take(0) =~= Seq::<char>::empty());
    }
    while i < n
        invariant
            n == s@.len(),
            i <= n,
            smooth_string_fits(s@, x as int, y as int, char_w as int, char_h as int),
            cur_x == x + advance(s@.take(i as int), char_w + 1),
            canvas.same_shape(&before),
            forall|px: int, py: int|
                canvas.in_bounds(px, py) ==> #[trigger] canvas.pixel(px, py)
                    == smooth_string_pixel(
                    before.pixel(px, py),
                    font,
                    s@.take(i as int),
                    x as int,
                    y as int,
                    char_w as int,
                    char_h as int,
                    (r, g, b),
                    px,
                    py,
                ),
        decreases n - i,
    {
        let c = s.get_char(i);
        proof {
            assert(s@.take(i + 1).drop_last() =~= s@.take(i as int));
            assert(s@.take(i + 1).last() == c);
            assert(i32::MIN <= x + advance(s@.take(i + 1), char_w + 1) <= i32::MAX);
            if (c as int) < 128 {
                assert(smooth_fits(
                    x + advance(s@.take(i as int), char_w + 1),
                    y as int,
                    char_w as int,
                    char_h as int,
                ));
            }
        }
        if c != '\n' {
            draw_char_smooth(canvas, font, cur_x, y, c, r, g, b, char_w, char_h);
            cur_x = cur_x + (char_w + 1);
        }
        i = i + 1;
    }
    proof {
        assert(s@.take(n as int) =~= s@);
    }
}

} // verus!
