//! Filled and outlined rectangles, rounded rectangles, lines and gradients.
use vstd::prelude::*;
use crate::canvas::{Canvas, Rgb, blend};

verus! {

/// Whether `(px, py)` lies in the rectangle with corner `(x, y)` and size `w x h`.
pub open spec fn in_rect(px: int, py: int, x: int, y: int, w: int, h: int) -> bool {
    x <= px < x + w && y <= py < y + h
}

/// The rectangle's right and bottom edges do not overflow `i32` when it is non-empty.
pub open spec fn rect_fits(x: i32, y: i32, w: i32, h: i32) -> bool {
    (w > 0 && h > 0) ==> (x + w <= i32::MAX && y + h <= i32::MAX)
}

fn max_i32(a: i32, b: i32) -> (m: i32)
    ensures
        m == (if a >= b { a } else { b }),
{
    if a >= b { a } else { b }
}

fn min_i32(a: i32, b: i32) -> (m: i32)
    ensures
        m == (if a <= b { a } else { b }),
{
    if a <= b { a } else { b }
}

/// Fills the rectangle with corner `(x, y)` and size `w x h` with `(r, g, b)`,
/// clipped to the canvas.
pub fn draw_rect(canvas: &mut Canvas, x: i32, y: i32, w: i32, h: i32, r: u8, g: u8, b: u8)
    requires
        rect_fits(x, y, w, h),
    ensures
        final(canvas).same_shape(old(canvas)),
        forall|px: int, py: int|
            final(canvas).in_bounds(px, py) ==> #[trigger] final(canvas).pixel(px, py) == (if in_rect(
                px,
                py,
                x as int,
                y as int,
                w as int,
                h as int,
            ) {
                (r, g, b)
            } else {
                old(canvas).pixel(px, py)
            }),
{
    if w <= 0 || h <= 0 {
        return;
    }
    let sw = canvas.width();
    let sh = canvas.height();
    let start_y = max_i32(0, y);
    let end_y = min_i32(sh, y + h);
    let start_x = max_i32(0, x);
    let end_x = min_i32(sw, x + w);
    if start_x >= end_x || start_y >= end_y {
        return;
    }
    let ghost before = *canvas;
    let mut cy = start_y;
    while cy < end_y
        invariant
            start_y <= cy <= end_y,
            start_x < end_x,
            canvas.same_shape(&before),
            sw == before.spec_width(),
            sh == before.spec_height(),
            start_y == (if 0 >= y { 0 } else { y }),
            end_y == (if sh <= y + h { sh as int } else { y + h }),
            start_x == (if 0 >= x { 0 } else { x }),
            end_x == (if sw <= x + w { sw as int } else { x + w }),
            forall|px: int, py: int|
                canvas.in_bounds(px, py) ==> #[trigger] canvas.pixel(px, py) == (if in_rect(
                    px,
                    py,
                    x as int,
                    y as int,
                    w as int,
                    h as int,
                ) && py < cy {
                    (r, g, b)
                } else {
                    before.pixel(px, py)
                }),
        decreases end_y - cy,
    {
        let mut cx = start_x;
        while cx < end_x
            invariant
                start_y <= cy < end_y,
                start_x <= cx <= end_x,
                canvas.same_shape(&before),
                sw == before.spec_width(),
                sh == before.spec_height(),
                start_y == (if 0 >= y { 0 } else { y }),
                end_y == (if sh <= y + h { sh as int } else { y + h }),
                start_x == (if 0 >= x { 0 } else { x }),
                end_x == (if sw <= x + w { sw as int } else { x + w }),
                forall|px: int, py: int|
                    canvas.in_bounds(px, py) ==> #[trigger] canvas.pixel(px, py) == (if in_rect(
                        px,
                        py,
                        x as int,
                        y as int,
                        w as int,
                        h as int,
                    ) && (py < cy || (py == cy && px < cx)) {
                        (r, g, b)
                    } else {
                        before.pixel(px, py)
                    }),
            decreases end_x - cx,
        {
            canvas.draw_pixel(cx, cy, r, g, b);
            cx = cx + 1;
        }
        cy = cy + 1;
    }
}

/// Mixes `(r, g, b)` with opacity `alpha` over every pixel of the rectangle with
/// corner `(x, y)` and size `w x h`, clipped to the canvas.
pub fn draw_rect_alpha(
    canvas: &mut Canvas,
    x: i32,
    y: i32,
    w: i32,
    h: i32,
    r: u8,
    g: u8,
    b: u8,
    alpha: u8,
)
    requires
        rect_fits(x, y, w, h),
    ensures
        final(canvas).same_shape(old(canvas)),
        forall|px: int, py: int|
            final(canvas).in_bounds(px, py) ==> #[trigger] final(canvas).pixel(px, py) == (if in_rect(
                px,
                py,
                x as int,
                y as int,
                w as int,
                h as int,
            ) {
                blend((r, g, b), old(canvas).pixel(px, py), alpha)
            } else {
                old(canvas).pixel(px, py)
            }),
{
    if w <= 0 || h <= 0 {
        return;
    }
    let sw = canvas.width();
    let sh = canvas.height();
    let start_y = max_i32(0, y);
    let end_y = min_i32(sh, y + h);
    let start_x = max_i32(0, x);
    let end_x = min_i32(sw, x + w);
    if start_x >= end_x || start_y >= end_y {
        return;
    }
    let ghost before = *canvas;
    let mut cy = start_y;
    while cy < end_y
        invariant
            start_y <= cy <= end_y,
            start_x < end_x,
            canvas.same_shape(&before),
            sw == before.spec_width(),
            sh == before.spec_height(),
            start_y == (if 0 >= y { 0 } else { y }),
            end_y == (if sh <= y + h { sh as int } else { y + h }),
            start_x == (if 0 >= x { 0 } else { x }),
            end_x == (if sw <= x + w { sw as int } else { x + w }),
            forall|px: int, py: int|
                canvas.in_bounds(px, py) ==> #[trigger] canvas.pixel(px, py) == (if in_rect(
                    px,
                    py,
                    x as int,
                    y as int,
                    w as int,
                    h as int,
                ) && py < cy {
                    blend((r, g, b), before.pixel(px, py), alpha)
                } else {
                    before.pixel(px, py)
                }),
        decreases end_y - cy,
    {
        let mut cx = start_x;
        while cx < end_x
            invariant
                start_y <= cy < end_y,
                start_x <= cx <= end_x,
                canvas.same_shape(&before),
                sw == before.spec_width(),
                sh == before.spec_height(),
                start_y == (if 0 >= y { 0 } else { y }),
                end_y == (if sh <= y + h { sh as int } else { y + h }),
                start_x == (if 0 >= x { 0 } else { x }),
                end_x == (if sw <= x + w { sw as int } else { x + w }),
                forall|px: int, py: int|
                    canvas.in_bounds(px, py) ==> #[trigger] canvas.pixel(px, py) == (if in_rect(
                        px,
                        py,
                        x as int,
                        y as int,
                        w as int,
                        h as int,
                    ) && (py < cy || (py == cy && px < cx)) {
                        blend((r, g, b), before.pixel(px, py), alpha)
                    } else {
                        before.pixel(px, py)
                    }),
            decreases end_x - cx,
        {
            canvas.draw_pixel_alpha(cx, cy, r, g, b, alpha);
            cx = cx + 1;
        }
        cy = cy + 1;
    }
}


/// Whether `(px, py)` lies in the outline of thickness `t` of the rectangle with
/// corner `(x, y)` and size `w x h`: in its top, bottom, left or right band.
pub open spec fn in_outline(px: int, py: int, x: int, y: int, w: int, h: int, t: int) -> bool {
    ||| in_rect(px, py, x, y, w, t)
    ||| in_rect(px, py, x, y + h - t, w, t)
    ||| in_rect(px, py, x, y, t, h)
    ||| in_rect(px, py, x + w - t, y, t, h)
}

/// Draws the outline of thickness `thickness` of the rectangle with corner
/// `(x, y)` and size `w x h` in `(r, g, b)`: its top, bottom, left and right bands.
pub fn draw_rect_outline(
    canvas: &mut Canvas,
    x: i32,
    y: i32,
    w: i32,
    h: i32,
    r: u8,
    g: u8,
    b: u8,
    thickness: i32,
)
    requires
        i32::MIN <= y + h <= i32::MAX,
        i32::MIN <= x + w <= i32::MAX,
        i32::MIN <= y + h - thickness <= i32::MAX,
        i32::MIN <= x + w - thickness <= i32::MAX,
        rect_fits(x, y, w, thickness),
        rect_fits(x, (y + h - thickness) as i32, w, thickness),
        rect_fits(x, y, thickness, h),
        rect_fits((x + w - thickness) as i32, y, thickness, h),
    ensures
        final(canvas).same_shape(old(canvas)),
        forall|px: int, py: int|
            final(canvas).in_bounds(px, py) ==> #[trigger] final(canvas).pixel(px, py) == (if in_outline(
                px,
                py,
                x as int,
                y as int,
                w as int,
                h as int,
                thickness as int,
            ) {
                (r, g, b)
            } else {
                old(canvas).pixel(px, py)
            }),
{
    draw_rect(canvas, x, y, w, thickness, r, g, b);
    draw_rect(canvas, x, y + h - thickness, w, thickness, r, g, b);
    draw_rect(canvas, x, y, thickness, h, r, g, b);
    draw_rect(canvas, x + w - thickness, y, thickness, h, r, g, b);
}

/// Channel value of row `y` in a vertical gradient from `c1` at the top to
/// `c2` at the bottom of a screen `sh` rows high (integer division rounding
/// toward zero).
pub open spec fn gradient_channel(c1: u8, c2: u8, y: int, sh: int) -> u8 {
    let d = (c2 - c1) * y;
    let q = if d >= 0 {
        d / sh
    } else {
        -((-d) / sh)
    };
    (c1 + q) as u8
}

/// One channel of a gradient row.
fn gradient_value(c1: u8, c2: u8, y: i32, sh: i32) -> (v: u8)
    requires
        0 <= y < sh,
    ensures
        v == gradient_channel(c1, c2, y as int, sh as int),
{
    let diff: i64 = (c2 as i64) - (c1 as i64);
    assert(-255 * (y as i64) <= diff * (y as i64) <= 255 * (y as i64)) by (nonlinear_arith)
        requires
            -255 <= diff <= 255,
            0 <= y,
    ;
    let d: i64 = diff * (y as i64);
    let q: i64 = if d >= 0 {
        d / (sh as i64)
    } else {
        -((-d) / (sh as i64))
    };
    ((c1 as i64) + q) as u8
}

/// Fills the whole canvas with a vertical gradient from `(r1, g1, b1)` at the
/// top row to (nearly) `(r2, g2, b2)` at the bottom.
pub fn draw_gradient(canvas: &mut Canvas, r1: u8, g1: u8, b1: u8, r2: u8, g2: u8, b2: u8)
    ensures
        final(canvas).same_shape(old(canvas)),
        forall|px: int, py: int|
            final(canvas).in_bounds(px, py) ==> #[trigger] final(canvas).pixel(px, py) == (
                gradient_channel(r1, r2, py, old(canvas).spec_height()),
                gradient_channel(g1, g2, py, old(canvas).spec_height()),
                gradient_channel(b1, b2, py, old(canvas).spec_height()),
            ),
{
    let sw = canvas.width();
    let sh = canvas.height();
    let ghost before = *canvas;
    let mut y: i32 = 0;
    while y < sh
        invariant
            0 <= y <= sh,
            0 <= sw,
            sw == before.spec_width(),
            sh == before.spec_height(),
            canvas.same_shape(&before),
            forall|px: int, py: int|
                canvas.in_bounds(px, py) ==> #[trigger] canvas.pixel(px, py) == (if py < y {
                    (
                        gradient_channel(r1, r2, py, sh as int),
                        gradient_channel(g1, g2, py, sh as int),
                        gradient_channel(b1, b2, py, sh as int),
                    )
                } else {
                    before.pixel(px, py)
                }),
        decreases sh - y,
    {
        let r = gradient_value(r1, r2, y, sh);
        let g = gradient_value(g1, g2, y, sh);
        let b = gradient_value(b1, b2, y, sh);
        let mut x: i32 = 0;
        while x < sw
            invariant
                0 <= y < sh,
                0 <= sw,
                0 <= x <= sw,
                sw == before.spec_width(),
                sh == before.spec_height(),
                canvas.same_shape(&before),
                r == gradient_channel(r1, r2, y as int, sh as int),
                g == gradient_channel(g1, g2, y as int, sh as int),
                b == gradient_channel(b1, b2, y as int, sh as int),
                forall|px: int, py: int|
                    canvas.in_bounds(px, py) ==> #[trigger] canvas.pixel(px, py) == (if py < y || (
                    py == y && px < x) {
                        (
                            gradient_channel(r1, r2, py, sh as int),
                            gradient_channel(g1, g2, py, sh as int),
                            gradient_channel(b1, b2, py, sh as int),
                        )
                    } else {
                        before.pixel(px, py)
                    }),
            decreases sw - x,
        {
            canvas.draw_pixel(x, y, r, g, b);
            x = x + 1;
        }
        y = y + 1;
    }
}


/// Opacity `alpha` scaled by a coverage `cov` out of 255.
pub open spec fn scaled_alpha(alpha: u8, cov: u8) -> u8 {
    ((alpha * cov) / 255) as u8
}

/// Where pixel `(px, py)` falls in the corner squares of side `rad` of the
/// rectangle with corner `(x, y)` and size `w x h`: the loop position
/// `(dx, dy)` inside its square and the coverage-table cell `(i, j)`, whose
/// center lies `i + 0.5` columns and `j + 0.5` rows from the corner circle's
/// center. Checked top-left, top-right, bottom-left, bottom-right.
pub open spec fn corner_position(px: int, py: int, x: int, y: int, w: int, h: int, rad: int) -> Option<
    (int, int, int, int),
> {
    let right = x + w - rad;
    let bottom = y + h - rad;
    if x <= px < x + rad && y <= py < y + rad {
        Some((px - x, py - y, rad - 1 - (px - x), rad - 1 - (py - y)))
    } else if right <= px < right + rad && y <= py < y + rad {
        Some((px - right, py - y, px - right, rad - 1 - (py - y)))
    } else if x <= px < x + rad && bottom <= py < bottom + rad {
        Some((px - x, py - bottom, rad - 1 - (px - x), py - bottom))
    } else if right <= px < right + rad && bottom <= py < bottom + rad {
        Some((px - right, py - bottom, px - right, py - bottom))
    } else {
        None
    }
}

/// The coverage stored for cell `(i, j)` of a table for corner radius `rad`.
pub open spec fn table_cov(fill: Seq<u8>, rad: int, i: int, j: int) -> u8 {
    fill[i * rad + j]
}

/// The color of pixel `(px, py)`, previously `old`, after the corner pass:
/// corner pixels outside the excluded rectangle are blended with opacity
/// `alpha` scaled by their cell's coverage.
pub open spec fn after_corners(
    old: Rgb,
    px: int,
    py: int,
    fill: Seq<u8>,
    x: int,
    y: int,
    w: int,
    h: int,
    rad: int,
    c: Rgb,
    alpha: u8,
    ex: int,
    ey: int,
    ew: int,
    eh: int,
) -> Rgb {
    match corner_position(px, py, x, y, w, h, rad) {
        Some(pos) => if in_rect(px, py, ex, ey, ew, eh) {
            old
        } else {
            blend(c, old, scaled_alpha(alpha, table_cov(fill, rad, pos.2, pos.3)))
        },
        None => old,
    }
}

/// Blends the corner pixel `(px, py)` with coverage `cov` unless it is in
/// the excluded rectangle.
fn blend_corner_pixel(
    canvas: &mut Canvas,
    px: i32,
    py: i32,
    cov: u8,
    r: u8,
    g: u8,
    b: u8,
    alpha: u8,
    ex: i32,
    ey: i32,
    ew: i32,
    eh: i32,
)
    requires
        i32::MIN <= ex + ew <= i32::MAX,
        i32::MIN <= ey + eh <= i32::MAX,
    ensures
        final(canvas).same_shape(old(canvas)),
        forall|qx: int, qy: int|
            final(canvas).in_bounds(qx, qy) ==> #[trigger] final(canvas).pixel(qx, qy) == (if qx
                == px && qy == py && !in_rect(
                qx,
                qy,
                ex as int,
                ey as int,
                ew as int,
                eh as int,
            ) {
                blend((r, g, b), old(canvas).pixel(qx, qy), scaled_alpha(alpha, cov))
            } else {
                old(canvas).pixel(qx, qy)
            }),
{
    if !(px >= ex && px < ex + ew && py >= ey && py < ey + eh) {
        let a = scale_alpha(alpha, cov);
        canvas.draw_pixel_alpha(px, py, r, g, b, a);
    }
}

/// Opacity `alpha` scaled by the coverage `cov` out of 255.
fn scale_alpha(alpha: u8, cov: u8) -> (a: u8)
    ensures
        a == scaled_alpha(alpha, cov),
{
    assert((alpha as u32) * (cov as u32) <= 255 * 255) by (nonlinear_arith)
        requires
            alpha <= 255,
            cov <= 255,
    ;
    let v: u32 = (alpha as u32) * (cov as u32) / 255;
    v as u8
}

/// Blends the four corner squares of side `rad` of the rectangle with corner
/// `(x, y)` and size `w x h`, each pixel with opacity `alpha` scaled by the
/// coverage `fill` gives its cell, skipping pixels in the excluded rectangle
/// with corner `(ex, ey)` and size `ew x eh`.
pub(crate) fn blend_corners(
    canvas: &mut Canvas,
    fill: &Vec<u8>,
    x: i32,
    y: i32,
    w: i32,
    h: i32,
    rad: i32,
    r: u8,
    g: u8,
    b: u8,
    alpha: u8,
    ex: i32,
    ey: i32,
    ew: i32,
    eh: i32,
)
    requires
        0 < rad,
        2 * rad <= w,
        2 * rad <= h,
        fill@.len() == rad * rad,
        x + w <= i32::MAX,
        y + h <= i32::MAX,
        i32::MIN <= ex + ew <= i32::MAX,
        i32::MIN <= ey + eh <= i32::MAX,
    ensures
        final(canvas).same_shape(old(canvas)),
        forall|px: int, py: int|
            final(canvas).in_bounds(px, py) ==> #[trigger] final(canvas).pixel(px, py)
                == after_corners(
                old(canvas).pixel(px, py),
                px,
                py,
                fill@,
                x as int,
                y as int,
                w as int,
                h as int,
                rad as int,
                (r, g, b),
                alpha,
                ex as int,
                ey as int,
                ew as int,
                eh as int,
            ),
{
    let ghost before = *canvas;
    let flen = fill.len();
    let right = x + w - rad;
    let bottom = y + h - rad;
    let mut dy: i32 = 0;
    while dy < rad
        invariant
            0 < rad,
            2 * rad <= w,
            2 * rad <= h,
            0 <= dy <= rad,
            fill@.len() == rad * rad,
            flen == fill@.len(),
            x + w <= i32::MAX,
            y + h <= i32::MAX,
            right == x + w - rad,
            bottom == y + h - rad,
            i32::MIN <= ex + ew <= i32::MAX,
            i32::MIN <= ey + eh <= i32::MAX,
            canvas.same_shape(&before),
            forall|px: int, py: int|
                canvas.in_bounds(px, py) ==> #[trigger] canvas.pixel(px, py) == (match corner_position(
                    px,
                    py,
                    x as int,
                    y as int,
                    w as int,
                    h as int,
                    rad as int,
                ) {
                    Some(pos) => if pos.1 < dy {
                        after_corners(
                            before.pixel(px, py),
                            px,
                            py,
                            fill@,
                            x as int,
                            y as int,
                            w as int,
                            h as int,
                            rad as int,
                            (r, g, b),
                            alpha,
                            ex as int,
                            ey as int,
                            ew as int,
                            eh as int,
                        )
                    } else {
                        before.pixel(px, py)
                    },
                    None => before.pixel(px, py),
                }),
        decreases rad - dy,
    {
        let mut dx: i32 = 0;
        while dx < rad
            invariant
                0 < rad,
                2 * rad <= w,
                2 * rad <= h,
                0 <= dy < rad,
                0 <= dx <= rad,
                fill@.len() == rad * rad,
                flen == fill@.len(),
                x + w <= i32::MAX,
                y + h <= i32::MAX,
                right == x + w - rad,
                bottom == y + h - rad,
                i32::MIN <= ex + ew <= i32::MAX,
                i32::MIN <= ey + eh <= i32::MAX,
                canvas.same_shape(&before),
                forall|px: int, py: int|
                    canvas.in_bounds(px, py) ==> #[trigger] canvas.pixel(px, py) == (match corner_position(
                        px,
                        py,
                        x as int,
                        y as int,
                        w as int,
                        h as int,
                        rad as int,
                    ) {
                        Some(pos) => if pos.1 < dy || (pos.1 == dy && pos.0 < dx) {
                            after_corners(
                                before.pixel(px, py),
                                px,
                                py,
                                fill@,
                                x as int,
                                y as int,
                                w as int,
                                h as int,
                                rad as int,
                                (r, g, b),
                                alpha,
                                ex as int,
                                ey as int,
                                ew as int,
                                eh as int,
                            )
                        } else {
                            before.pixel(px, py)
                        },
                        None => before.pixel(px, py),
                    }),
            decreases rad - dx,
        {
            let ri = rad - 1 - dx;
            let rj = rad - 1 - dy;
            proof {
                crate::canvas::lemma_cell_index_bound(rad as int, rad as int, rj as int, ri as int);
                crate::canvas::lemma_cell_index_bound(rad as int, rad as int, rj as int, dx as int);
                crate::canvas::lemma_cell_index_bound(rad as int, rad as int, dy as int, ri as int);
                crate::canvas::lemma_cell_index_bound(rad as int, rad as int, dy as int, dx as int);
            }
            let n = rad as usize;
            let c_tl = fill[(ri as usize) * n + (rj as usize)];
            let c_tr = fill[(dx as usize) * n + (rj as usize)];
            let c_bl = fill[(ri as usize) * n + (dy as usize)];
            let c_br = fill[(dx as usize) * n + (dy as usize)];
            blend_corner_pixel(canvas, x + dx, y + dy, c_tl, r, g, b, alpha, ex, ey, ew, eh);
            blend_corner_pixel(canvas, right + dx, y + dy, c_tr, r, g, b, alpha, ex, ey, ew, eh);
            blend_corner_pixel(canvas, x + dx, bottom + dy, c_bl, r, g, b, alpha, ex, ey, ew, eh);
            blend_corner_pixel(
                canvas,
                right + dx,
                bottom + dy,
                c_br,
                r,
                g,
                b,
                alpha,
                ex,
                ey,
                ew,
                eh,
            );
            dx = dx + 1;
        }
        dy = dy + 1;
    }
}


/// Coverage of the corner cells of rounded shapes, for each radius from 0 up:
/// the table for radius `r` holds `r * r` values, row `i` and column `j`
/// giving the share (0 to 255) of the cell centered `i + 0.5` columns and
/// `j + 0.5` rows from the corner circle's center that the shape covers.
pub struct CornerTable {
    fills: Vec<Vec<u8>>,
}

impl CornerTable {
    #[verifier::type_invariant]
    spec fn well_formed(self) -> bool {
        forall|r: int| 0 <= r < self.fills@.len() ==> (#[trigger] self.fills@[r])@.len() == r * r
    }

    /// Number of radii covered (radii `0..len`).
    pub closed spec fn spec_len(&self) -> int {
        self.fills@.len() as int
    }

    /// The coverage values for radius `r`.
    pub closed spec fn fill(&self, r: int) -> Seq<u8> {
        self.fills@[r]@
    }

    /// A table from per-radius coverage values; `None` unless entry `r` holds
    /// exactly `r * r` values for every `r`.
    pub fn from_fills(fills: Vec<Vec<u8>>) -> (t: Option<CornerTable>)
        ensures
            t.is_some() == (forall|r: int| 0 <= r < fills@.len() ==> (#[trigger] fills@[r])@.len() == r * r),
            t matches Some(tab) ==> tab.spec_len() == fills@.len() && forall|r: int|
                0 <= r < fills@.len() ==> #[trigger] tab.fill(r) == fills@[r]@,
    {
        let mut i: usize = 0;
        while i < fills.len()
            invariant
                i <= fills@.len(),
                forall|r: int| 0 <= r < i ==> (#[trigger] fills@[r])@.len() == r * r,
            decreases fills@.len() - i,
        {
            assert((i as u128) * (i as u128) <= u128::MAX) by (nonlinear_arith)
                requires
                    i <= usize::MAX,
                    usize::MAX <= u64::MAX,
            ;
            if (fills[i].len() as u128) != (i as u128) * (i as u128) {
                return None;
            }
            i = i + 1;
        }
        Some(CornerTable { fills })
    }

    /// Number of radii covered.
    pub fn len(&self) -> (n: usize)
        ensures
            n == self.spec_len(),
    {
        self.fills.len()
    }

    pub(crate) fn fill_for(&self, r: usize) -> (f: &Vec<u8>)
        requires
            r < self.spec_len(),
        ensures
            f@ == self.fill(r as int),
            f@.len() == r * r,
    {
        proof {
            use_type_invariant(self);
        }
        &self.fills[r]
    }
}

/// Corner radius actually drawn for a `w x h` rectangle: at most half of
/// each side.
pub open spec fn effective_radius(w: int, h: int, radius: int) -> int {
    let m = if w / 2 <= h / 2 {
        w / 2
    } else {
        h / 2
    };
    if radius <= m {
        radius
    } else {
        m
    }
}

/// `d` blended with `c` at opacity `a` when `cond` holds, else `d`.
pub open spec fn blend_if(cond: bool, c: Rgb, d: Rgb, a: u8) -> Rgb {
    if cond {
        blend(c, d, a)
    } else {
        d
    }
}

/// The color of pixel `(px, py)`, previously `old`, after a rounded rectangle
/// with corner `(x, y)`, size `w x h` and corner radius `radius` is blended
/// over it in `c` at opacity `alpha`: its top, middle and bottom bands in
/// turn, then its corner cells scaled by the coverage in `fill`.
pub open spec fn rounded_rect_pixel(
    old: Rgb,
    px: int,
    py: int,
    fill: Seq<u8>,
    x: int,
    y: int,
    w: int,
    h: int,
    radius: int,
    c: Rgb,
    alpha: u8,
) -> Rgb {
    if w <= 0 || h <= 0 {
        old
    } else {
        let rad = effective_radius(w, h, radius);
        let p1 = blend_if(in_rect(px, py, x + rad, y, w - 2 * rad, rad), c, old, alpha);
        let p2 = blend_if(in_rect(px, py, x, y + rad, w, h - 2 * rad), c, p1, alpha);
        let p3 = blend_if(in_rect(px, py, x + rad, y + h - rad, w - 2 * rad, rad), c, p2, alpha);
        after_corners(p3, px, py, fill, x, y, w, h, rad, c, alpha, 0, 0, 0, 0)
    }
}

/// The rounded rectangle's bands and corners compute within `i32`.
pub open spec fn rounded_fits(x: int, y: int, w: int, h: int, radius: int) -> bool {
    (w > 0 && h > 0) ==> {
        let rad = effective_radius(w, h, radius);
        &&& x + w <= i32::MAX
        &&& y + h <= i32::MAX
        &&& i32::MIN <= 2 * rad
        &&& w - 2 * rad <= i32::MAX
        &&& h - 2 * rad <= i32::MAX
        &&& y + h - rad <= i32::MAX
        &&& i32::MIN <= x + rad
        &&& i32::MIN <= y + rad
    }
}

fn effective_radius_exec(w: i32, h: i32, radius: i32) -> (rad: i32)
    requires
        w > 0,
        h > 0,
    ensures
        rad == effective_radius(w as int, h as int, radius as int),
        rad <= w / 2,
        rad <= h / 2,
{
    let hw = w / 2;
    let hh = h / 2;
    let m = if hw <= hh { hw } else { hh };
    if radius <= m { radius } else { m }
}

/// Blends a rounded rectangle with corner `(x, y)`, size `w x h` and corner
/// radius `radius` (at most half of each side) in `(r, g, b)` at opacity
/// `alpha`; corner pixels are blended in proportion to their coverage in
/// `corners`.
pub fn draw_rounded_rect_alpha(
    canvas: &mut Canvas,
    corners: &CornerTable,
    x: i32,
    y: i32,
    w: i32,
    h: i32,
    radius: i32,
    r: u8,
    g: u8,
    b: u8,
    alpha: u8,
)
    requires
        rounded_fits(x as int, y as int, w as int, h as int, radius as int),
        (w > 0 && h > 0) ==> effective_radius(w as int, h as int, radius as int)
            < corners.spec_len(),
    ensures
        final(canvas).same_shape(old(canvas)),
        forall|px: int, py: int|
            final(canvas).in_bounds(px, py) ==> #[trigger] final(canvas).pixel(px, py)
                == rounded_rect_pixel(
                old(canvas).pixel(px, py),
                px,
                py,
                corners.fill(effective_radius(w as int, h as int, radius as int)),
                x as int,
                y as int,
                w as int,
                h as int,
                radius as int,
                (r, g, b),
                alpha,
            ),
{
    if w <= 0 || h <= 0 {
        return;
    }
    let rad = effective_radius_exec(w, h, radius);
    draw_rect_alpha(canvas, x + rad, y, w - 2 * rad, rad, r, g, b, alpha);
    draw_rect_alpha(canvas, x, y + rad, w, h - 2 * rad, r, g, b, alpha);
    draw_rect_alpha(canvas, x + rad, y + h - rad, w - 2 * rad, rad, r, g, b, alpha);
    if rad > 0 {
        let fill = corners.fill_for(rad as usize);
        blend_corners(canvas, fill, x, y, w, h, rad, r, g, b, alpha, 0, 0, 0, 0);
    }
}

/// Blends a rounded rectangle at full opacity (see `draw_rounded_rect_alpha`).
pub fn draw_rounded_rect(
    canvas: &mut Canvas,
    corners: &CornerTable,
    x: i32,
    y: i32,
    w: i32,
    h: i32,
    radius: i32,
    r: u8,
    g: u8,
    b: u8,
)
    requires
        rounded_fits(x as int, y as int, w as int, h as int, radius as int),
        (w > 0 && h > 0) ==> effective_radius(w as int, h as int, radius as int)
            < corners.spec_len(),
    ensures
        final(canvas).same_shape(old(canvas)),
        forall|px: int, py: int|
            final(canvas).in_bounds(px, py) ==> #[trigger] final(canvas).pixel(px, py)
                == rounded_rect_pixel(
                old(canvas).pixel(px, py),
                px,
                py,
                corners.fill(effective_radius(w as int, h as int, radius as int)),
                x as int,
                y as int,
                w as int,
                h as int,
                radius as int,
                (r, g, b),
                255,
            ),
{
    draw_rounded_rect_alpha(canvas, corners, x, y, w, h, radius, r, g, b, 255);
}


/// The color of pixel `(px, py)`, previously `old`, after the outline of
/// thickness `t` of a rounded rectangle with corner `(x, y)`, size `w x h` and
/// corner radius `radius` is blended over it in `c` at opacity `alpha`: its
/// top, bottom, left and right bands in turn, then its corner cells scaled by
/// the ring coverage in `fill`.
pub open spec fn rounded_outline_pixel(
    old: Rgb,
    px: int,
    py: int,
    fill: Seq<u8>,
    x: int,
    y: int,
    w: int,
    h: int,
    radius: int,
    t: int,
    c: Rgb,
    alpha: u8,
) -> Rgb {
    if w <= 0 || h <= 0 {
        old
    } else {
        let rad = effective_radius(w, h, radius);
        let p1 = blend_if(in_rect(px, py, x + rad, y, w - 2 * rad, t), c, old, alpha);
        let p2 = blend_if(in_rect(px, py, x + rad, y + h - t, w - 2 * rad, t), c, p1, alpha);
        let p3 = blend_if(in_rect(px, py, x, y + rad, t, h - 2 * rad), c, p2, alpha);
        let p4 = blend_if(in_rect(px, py, x + w - t, y + rad, t, h - 2 * rad), c, p3, alpha);
        after_corners(p4, px, py, fill, x, y, w, h, rad, c, alpha, 0, 0, 0, 0)
    }
}

/// The rounded outline's bands and corners compute within `i32`.
pub open spec fn outline_fits(x: int, y: int, w: int, h: int, radius: int, t: int) -> bool {
    (w > 0 && h > 0) ==> {
        let rad = effective_radius(w, h, radius);
        &&& rounded_fits(x, y, w, h, radius)
        &&& i32::MIN <= y + h - t <= i32::MAX
        &&& i32::MIN <= x + w - t <= i32::MAX
        &&& (t > 0 && w - 2 * rad > 0) ==> x + rad + w - 2 * rad <= i32::MAX && y + t
            <= i32::MAX && y + h - t + t <= i32::MAX
        &&& (t > 0 && h - 2 * rad > 0) ==> x + t <= i32::MAX && y + rad + h - 2 * rad
            <= i32::MAX && x + w - t + t <= i32::MAX
    }
}

/// Blends the outline of thickness `thickness` of a rounded rectangle with
/// corner `(x, y)`, size `w x h` and corner radius `radius` (at most half of
/// each side) in `(r, g, b)` at opacity `alpha`; corner pixels are blended in
/// proportion to their coverage in `ring` (a table for this thickness).
pub fn draw_rounded_rect_outline_alpha(
    canvas: &mut Canvas,
    ring: &CornerTable,
    x: i32,
    y: i32,
    w: i32,
    h: i32,
    radius: i32,
    r: u8,
    g: u8,
    b: u8,
    thickness: i32,
    alpha: u8,
)
    requires
        outline_fits(x as int, y as int, w as int, h as int, radius as int, thickness as int),
        (w > 0 && h > 0) ==> effective_radius(w as int, h as int, radius as int)
            < ring.spec_len(),
    ensures
        final(canvas).same_shape(old(canvas)),
        forall|px: int, py: int|
            final(canvas).in_bounds(px, py) ==> #[trigger] final(canvas).pixel(px, py)
                == rounded_outline_pixel(
                old(canvas).pixel(px, py),
                px,
                py,
                ring.fill(effective_radius(w as int, h as int, radius as int)),
                x as int,
                y as int,
                w as int,
                h as int,
                radius as int,
                thickness as int,
                (r, g, b),
                alpha,
            ),
{
    if w <= 0 || h <= 0 {
        return;
    }
    let rad = effective_radius_exec(w, h, radius);
    draw_rect_alpha(canvas, x + rad, y, w - 2 * rad, thickness, r, g, b, alpha);
    draw_rect_alpha(canvas, x + rad, y + h - thickness, w - 2 * rad, thickness, r, g, b, alpha);
    draw_rect_alpha(canvas, x, y + rad, thickness, h - 2 * rad, r, g, b, alpha);
    draw_rect_alpha(canvas, x + w - thickness, y + rad, thickness, h - 2 * rad, r, g, b, alpha);
    if rad > 0 {
        let fill = ring.fill_for(rad as usize);
        blend_corners(canvas, fill, x, y, w, h, rad, r, g, b, alpha, 0, 0, 0, 0);
    }
}

/// Blends the outline of a rounded rectangle at full opacity (see
/// `draw_rounded_rect_outline_alpha`).
pub fn draw_rounded_rect_outline(
    canvas: &mut Canvas,
    ring: &CornerTable,
    x: i32,
    y: i32,
    w: i32,
    h: i32,
    radius: i32,
    r: u8,
    g: u8,
    b: u8,
    thickness: i32,
)
    requires
        outline_fits(x as int, y as int, w as int, h as int, radius as int, thickness as int),
        (w > 0 && h > 0) ==> effective_radius(w as int, h as int, radius as int)
            < ring.spec_len(),
    ensures
        final(canvas).same_shape(old(canvas)),
        forall|px: int, py: int|
            final(canvas).in_bounds(px, py) ==> #[trigger] final(canvas).pixel(px, py)
                == rounded_outline_pixel(
                old(canvas).pixel(px, py),
                px,
                py,
                ring.fill(effective_radius(w as int, h as int, radius as int)),
                x as int,
                y as int,
                w as int,
                h as int,
                radius as int,
                thickness as int,
                (r, g, b),
                255,
            ),
{
    draw_rounded_rect_outline_alpha(canvas, ring, x, y, w, h, radius, r, g, b, thickness, 255);
}


/// Absolute value.
pub open spec fn abs_int(v: int) -> int {
    if v >= 0 {
        v
    } else {
        -v
    }
}

/// The points Bresenham's algorithm visits from `(cx, cy)` with error term
/// `err` toward `(x1, y1)`, given the segment's extents `dx`, `dy` and step
/// directions `sx`, `sy`, for at most `fuel` points.
pub open spec fn line_from(
    x1: int,
    y1: int,
    dx: int,
    dy: int,
    sx: int,
    sy: int,
    cx: int,
    cy: int,
    err: int,
    fuel: nat,
) -> Seq<(int, int)>
    decreases fuel,
{
    if fuel == 0 {
        seq![]
    } else if cx == x1 && cy == y1 {
        seq![(cx, cy)]
    } else {
        let e2 = 2 * err;
        let err1 = if e2 > -dy {
            err - dy
        } else {
            err
        };
        let nx = if e2 > -dy {
            cx + sx
        } else {
            cx
        };
        let err2 = if e2 < dx {
            err1 + dx
        } else {
            err1
        };
        let ny = if e2 < dx {
            cy + sy
        } else {
            cy
        };
        seq![(cx, cy)] + line_from(x1, y1, dx, dy, sx, sy, nx, ny, err2, (fuel - 1) as nat)
    }
}

/// The pixels of the segment from `(x0, y0)` to `(x1, y1)` in the order
/// Bresenham's algorithm visits them.
pub open spec fn line_path(x0: int, y0: int, x1: int, y1: int) -> Seq<(int, int)> {
    let dx = abs_int(x1 - x0);
    let dy = abs_int(y1 - y0);
    let sx = if x0 < x1 {
        1int
    } else {
        -1int
    };
    let sy = if y0 < y1 {
        1int
    } else {
        -1int
    };
    line_from(x1, y1, dx, dy, sx, sy, x0, y0, dx - dy, (dx + dy + 1) as nat)
}

/// The segment's extents are small enough for Bresenham's doubled error term,
/// which reaches up to three times the larger extent, to stay within `i32`.
pub open spec fn line_fits(x0: int, y0: int, x1: int, y1: int) -> bool {
    &&& abs_int(x1 - x0) <= 0x2AAA_AAAA
    &&& abs_int(y1 - y0) <= 0x2AAA_AAAA
}

/// Bresenham's error term never lets a coordinate run past the end point.
proof fn lemma_no_overshoot(dx: int, dy: int, k: int, m: int)
    requires
        0 <= k <= dx,
        0 <= m <= dy,
    ensures
        (k == dx && m < dy) ==> dx - dy + m * dx - k * dy <= -dy,
        (m == dy && k < dx) ==> dx - dy + m * dx - k * dy >= dx,
{
    if k == dx && m < dy {
        assert(dx - dy + m * dx - k * dy == -(dx * (dy - m - 1)) - dy) by (nonlinear_arith)
            requires
                k == dx,
        ;
        assert(dx * (dy - m - 1) >= 0) by (nonlinear_arith)
            requires
                dx >= 0,
                dy - m - 1 >= 0,
        ;
    }
    if m == dy && k < dx {
        assert(dx - dy + m * dx - k * dy == dx - dy + dy * (dx - k)) by (nonlinear_arith)
            requires
                m == dy,
        ;
        assert(dy * (dx - k) >= dy) by (nonlinear_arith)
            requires
                dy >= 0,
                dx - k >= 1,
        ;
    }
}

/// One step of Bresenham's algorithm keeps its bookkeeping: the error term in
/// terms of the steps taken, the step counts within the extents, and the error
/// term within `-2 dy ..= 2 dx`.
proof fn lemma_step(dx: int, dy: int, k: int, m: int, err: int)
    requires
        0 <= k <= dx,
        0 <= m <= dy,
        !(k == dx && m == dy),
        err == dx - dy + m * dx - k * dy,
        -2 * dy <= err <= 2 * dx,
        -3 * dy <= 2 * err <= 3 * dx,
    ensures
        ({
            let e2 = 2 * err;
            let k1 = if e2 > -dy {
                k + 1
            } else {
                k
            };
            let m1 = if e2 < dx {
                m + 1
            } else {
                m
            };
            let err1 = if e2 > -dy {
                err - dy
            } else {
                err
            };
            let err2 = if e2 < dx {
                err1 + dx
            } else {
                err1
            };
            &&& k1 <= dx
            &&& m1 <= dy
            &&& (dx - k1) + (dy - m1) < (dx - k) + (dy - m)
            &&& err2 == dx - dy + m1 * dx - k1 * dy
            &&& -2 * dy <= err2 <= 2 * dx
            &&& -3 * dy <= 2 * err2 <= 3 * dx
        }),
{
    lemma_no_overshoot(dx, dy, k, m);
    assert((m + 1) * dx == m * dx + dx) by (nonlinear_arith);
    assert((k + 1) * dy == k * dy + dy) by (nonlinear_arith);
}

/// Sets every pixel of the segment from `(x0, y0)` to `(x1, y1)`, as
/// Bresenham's algorithm traces it, to `(r, g, b)`.
pub fn draw_line(canvas: &mut Canvas, x0: i32, y0: i32, x1: i32, y1: i32, r: u8, g: u8, b: u8)
    requires
        line_fits(x0 as int, y0 as int, x1 as int, y1 as int),
    ensures
        final(canvas).same_shape(old(canvas)),
        forall|px: int, py: int|
            final(canvas).in_bounds(px, py) ==> #[trigger] final(canvas).pixel(px, py) == (if line_path(
                x0 as int,
                y0 as int,
                x1 as int,
                y1 as int,
            ).contains((px, py)) {
                (r, g, b)
            } else {
                old(canvas).pixel(px, py)
            }),
{
    trace_line(canvas, x0, y0, x1, y1, r, g, b, false);
}

/// Draws the segment from `(x0, y0)` to `(x1, y1)` two pixels thick: each
/// pixel Bresenham's algorithm traces, and its neighbour below (for segments
/// at least as wide as tall) or to its right (for steeper ones).
pub fn draw_line_thick(canvas: &mut Canvas, x0: i32, y0: i32, x1: i32, y1: i32, r: u8, g: u8, b: u8)
    requires
        line_fits(x0 as int, y0 as int, x1 as int, y1 as int),
        x0 < i32::MAX,
        x1 < i32::MAX,
        y0 < i32::MAX,
        y1 < i32::MAX,
    ensures
        final(canvas).same_shape(old(canvas)),
        forall|px: int, py: int|
            final(canvas).in_bounds(px, py) ==> #[trigger] final(canvas).pixel(px, py) == (if thick_line_covers(
                x0 as int,
                y0 as int,
                x1 as int,
                y1 as int,
                px,
                py,
            ) {
                (r, g, b)
            } else {
                old(canvas).pixel(px, py)
            }),
{
    trace_line(canvas, x0, y0, x1, y1, r, g, b, true);
}

/// Whether the two-pixel-thick segment from `(x0, y0)` to `(x1, y1)` covers
/// `(px, py)`.
pub open spec fn thick_line_covers(x0: int, y0: int, x1: int, y1: int, px: int, py: int) -> bool {
    let path = line_path(x0, y0, x1, y1);
    ||| path.contains((px, py))
    ||| (abs_int(x1 - x0) >= abs_int(y1 - y0) && path.contains((px, py - 1)))
    ||| (abs_int(x1 - x0) < abs_int(y1 - y0) && path.contains((px - 1, py)))
}

/// Traces Bresenham's path from `(x0, y0)` to `(x1, y1)` in `(r, g, b)`,
/// with each pixel's neighbour too when `thick`.
fn trace_line(
    canvas: &mut Canvas,
    x0: i32,
    y0: i32,
    x1: i32,
    y1: i32,
    r: u8,
    g: u8,
    b: u8,
    thick: bool,
)
    requires
        line_fits(x0 as int, y0 as int, x1 as int, y1 as int),
        thick ==> x0 < i32::MAX && x1 < i32::MAX && y0 < i32::MAX && y1 < i32::MAX,
    ensures
        final(canvas).same_shape(old(canvas)),
        forall|px: int, py: int|
            final(canvas).in_bounds(px, py) ==> #[trigger] final(canvas).pixel(px, py) == (if (thick
                && thick_line_covers(x0 as int, y0 as int, x1 as int, y1 as int, px, py)) || (!thick
                && line_path(x0 as int, y0 as int, x1 as int, y1 as int).contains((px, py))) {
                (r, g, b)
            } else {
                old(canvas).pixel(px, py)
            }),
{
    let ghost before = *canvas;
    let ghost path = line_path(x0 as int, y0 as int, x1 as int, y1 as int);
    let dx: i32 = if x1 >= x0 { x1 - x0 } else { x0 - x1 };
    let dy: i32 = if y1 >= y0 { y1 - y0 } else { y0 - y1 };
    let sx: i32 = if x0 < x1 { 1 } else { -1 };
    let sy: i32 = if y0 < y1 { 1 } else { -1 };
    let wide = dx >= dy;
    let mut err: i32 = dx - dy;
    let mut cx = x0;
    let mut cy = y0;
    let ghost mut k: int = 0;
    let ghost mut m: int = 0;
    let ghost mut fuel: nat = (dx + dy + 1) as nat;
    let ghost mut drawn: Seq<(int, int)> = seq![];
    loop
        invariant_except_break
            0 <= k <= dx,
            0 <= m <= dy,
            cx == (if sx == 1 { x0 + k } else { x0 - k }),
            cy == (if sy == 1 { y0 + m } else { y0 - m }),
            err == dx - dy + m * dx - k * dy,
            -2 * dy <= err <= 2 * dx,
            -3 * dy <= 2 * err <= 3 * dx,
            fuel >= (dx - k) + (dy - m) + 1,
            path == drawn + line_from(
                x1 as int,
                y1 as int,
                dx as int,
                dy as int,
                sx as int,
                sy as int,
                cx as int,
                cy as int,
                err as int,
                fuel,
            ),
        invariant
            dx == abs_int(x1 - x0),
            dy == abs_int(y1 - y0),
            dx <= 0x2AAA_AAAA,
            dy <= 0x2AAA_AAAA,
            sx == (if x0 < x1 { 1int } else { -1int }),
            sy == (if y0 < y1 { 1int } else { -1int }),
            wide == (dx >= dy),
            path == line_path(x0 as int, y0 as int, x1 as int, y1 as int),
            thick ==> x0 < i32::MAX && x1 < i32::MAX && y0 < i32::MAX && y1 < i32::MAX,
            canvas.same_shape(&before),
            forall|px: int, py: int|
                canvas.in_bounds(px, py) ==> #[trigger] canvas.pixel(px, py) == (if drawn.contains(
                    (px, py),
                ) || (thick && ((wide && drawn.contains((px, py - 1))) || (!wide && drawn.contains(
                    (px - 1, py),
                )))) {
                    (r, g, b)
                } else {
                    before.pixel(px, py)
                }),
        ensures
            drawn == path,
        decreases (dx - k) + (dy - m),
    {
        let ghost pre = *canvas;
        let ghost drawn0 = drawn;
        canvas.draw_pixel(cx, cy, r, g, b);
        if thick {
            if wide {
                canvas.draw_pixel(cx, cy + 1, r, g, b);
            } else {
                canvas.draw_pixel(cx + 1, cy, r, g, b);
            }
        }
        proof {
            drawn = drawn.push((cx as int, cy as int));
            assert forall|px: int, py: int| canvas.in_bounds(px, py) implies #[trigger] canvas.pixel(
                px,
                py,
            ) == (if drawn.contains((px, py)) || (thick && ((wide && drawn.contains((px, py - 1)))
                || (!wide && drawn.contains((px - 1, py))))) {
                (r, g, b)
            } else {
                before.pixel(px, py)
            }) by {
                let q = (cx as int, cy as int);
                vstd::seq_lib::lemma_seq_contains_after_push(drawn0, q, (px, py));
                vstd::seq_lib::lemma_seq_contains_after_push(drawn0, q, (px, py - 1));
                vstd::seq_lib::lemma_seq_contains_after_push(drawn0, q, (px - 1, py));
            }
        }
        if cx == x1 && cy == y1 {
            proof {
                assert(line_from(
                    x1 as int,
                    y1 as int,
                    dx as int,
                    dy as int,
                    sx as int,
                    sy as int,
                    cx as int,
                    cy as int,
                    err as int,
                    fuel,
                ) == seq![(cx as int, cy as int)]);
                assert(path =~= drawn);
            }
            break;
        }
        proof {
            if k == dx && m == dy {
                assert(cx == x1 && cy == y1);
            }
            lemma_step(dx as int, dy as int, k, m, err as int);
        }
        let e2 = err * 2;
        let ghost rest = line_from(
            x1 as int,
            y1 as int,
            dx as int,
            dy as int,
            sx as int,
            sy as int,
            cx as int,
            cy as int,
            err as int,
            fuel,
        );
        if e2 > -dy {
            err = err - dy;
            cx = cx + sx;
            proof {
                k = k + 1;
            }
        }
        if e2 < dx {
            err = err + dx;
            cy = cy + sy;
            proof {
                m = m + 1;
            }
        }
        proof {
            let f1 = (fuel - 1) as nat;
            assert(rest == seq![(drawn.last().0, drawn.last().1)] + line_from(
                x1 as int,
                y1 as int,
                dx as int,
                dy as int,
                sx as int,
                sy as int,
                cx as int,
                cy as int,
                err as int,
                f1,
            ));
            assert(path =~= drawn + line_from(
                x1 as int,
                y1 as int,
                dx as int,
                dy as int,
                sx as int,
                sy as int,
                cx as int,
                cy as int,
                err as int,
                f1,
            ));
            fuel = f1;
        }
    }
}


proof fn lemma_line_from_ends(
    x0: int,
    y0: int,
    x1: int,
    y1: int,
    dx: int,
    dy: int,
    sx: int,
    sy: int,
    k: int,
    m: int,
    err: int,
    fuel: nat,
)
    requires
        dx == abs_int(x1 - x0),
        dy == abs_int(y1 - y0),
        sx == (if x0 < x1 { 1int } else { -1int }),
        sy == (if y0 < y1 { 1int } else { -1int }),
        0 <= k <= dx,
        0 <= m <= dy,
        err == dx - dy + m * dx - k * dy,
        -2 * dy <= err <= 2 * dx,
        -3 * dy <= 2 * err <= 3 * dx,
        fuel >= (dx - k) + (dy - m) + 1,
    ensures
        ({
            let cx = if sx == 1 { x0 + k } else { x0 - k };
            let cy = if sy == 1 { y0 + m } else { y0 - m };
            let path = line_from(x1, y1, dx, dy, sx, sy, cx, cy, err, fuel);
            &&& path.len() > 0
            &&& path[0] == (cx, cy)
            &&& path.last() == (x1, y1)
        }),
    decreases fuel,
{
    let cx = if sx == 1 { x0 + k } else { x0 - k };
    let cy = if sy == 1 { y0 + m } else { y0 - m };
    if cx == x1 && cy == y1 {
    } else {
        lemma_step(dx, dy, k, m, err);
        let e2 = 2 * err;
        let k1 = if e2 > -dy { k + 1 } else { k };
        let m1 = if e2 < dx { m + 1 } else { m };
        let err1 = if e2 > -dy { err - dy } else { err };
        let err2 = if e2 < dx { err1 + dx } else { err1 };
        lemma_line_from_ends(x0, y0, x1, y1, dx, dy, sx, sy, k1, m1, err2, (fuel - 1) as nat);
    }
}

/// A line starts at its first end point and finishes at its second: Bresenham's
/// path from `(x0, y0)` to `(x1, y1)` visits `(x0, y0)` first and `(x1, y1)` last.
pub proof fn law_line_joins_end_points(x0: int, y0: int, x1: int, y1: int)
    ensures
        line_path(x0, y0, x1, y1).len() > 0,
        line_path(x0, y0, x1, y1)[0] == (x0, y0),
        line_path(x0, y0, x1, y1).last() == (x1, y1),
{
    let dx = abs_int(x1 - x0);
    let dy = abs_int(y1 - y0);
    let sx = if x0 < x1 { 1int } else { -1int };
    let sy = if y0 < y1 { 1int } else { -1int };
    lemma_line_from_ends(x0, y0, x1, y1, dx, dy, sx, sy, 0, 0, dx - dy, (dx + dy + 1) as nat);
}

/// `path` moved by `(ox, oy)`.
pub open spec fn shifted_path(path: Seq<(int, int)>, ox: int, oy: int) -> Seq<(int, int)> {
    path.map_values(|p: (int, int)| (p.0 + ox, p.1 + oy))
}

proof fn lemma_line_from_shift(
    x1: int,
    y1: int,
    dx: int,
    dy: int,
    sx: int,
    sy: int,
    cx: int,
    cy: int,
    err: int,
    fuel: nat,
    ox: int,
    oy: int,
)
    ensures
        line_from(x1 + ox, y1 + oy, dx, dy, sx, sy, cx + ox, cy + oy, err, fuel) == shifted_path(
            line_from(x1, y1, dx, dy, sx, sy, cx, cy, err, fuel),
            ox,
            oy,
        ),
    decreases fuel,
{
    let a = line_from(x1 + ox, y1 + oy, dx, dy, sx, sy, cx + ox, cy + oy, err, fuel);
    let b = line_from(x1, y1, dx, dy, sx, sy, cx, cy, err, fuel);
    if fuel == 0 {
        assert(a =~= shifted_path(b, ox, oy));
    } else if cx == x1 && cy == y1 {
        assert(a =~= shifted_path(b, ox, oy));
    } else {
        let e2 = 2 * err;
        let err1 = if e2 > -dy { err - dy } else { err };
        let nx = if e2 > -dy { cx + sx } else { cx };
        let err2 = if e2 < dx { err1 + dx } else { err1 };
        let ny = if e2 < dx { cy + sy } else { cy };
        lemma_line_from_shift(x1, y1, dx, dy, sx, sy, nx, ny, err2, (fuel - 1) as nat, ox, oy);
        assert(nx + ox == (if e2 > -dy { (cx + ox) + sx } else { cx + ox }));
        assert(ny + oy == (if e2 < dx { (cy + oy) + sy } else { cy + oy }));
        let rest = line_from(x1, y1, dx, dy, sx, sy, nx, ny, err2, (fuel - 1) as nat);
        assert(b == seq![(cx, cy)] + rest);
        assert(a == seq![(cx + ox, cy + oy)] + shifted_path(rest, ox, oy));
        assert(a =~= shifted_path(b, ox, oy));
    }
}

/// Moving both end points of a segment moves Bresenham's path with them: the
/// path from `(x0 + ox, y0 + oy)` to `(x1 + ox, y1 + oy)` is the path from
/// `(x0, y0)` to `(x1, y1)`, every point moved by `(ox, oy)`.
pub proof fn law_line_path_moves_with_end_points(x0: int, y0: int, x1: int, y1: int, ox: int, oy: int)
    ensures
        line_path(x0 + ox, y0 + oy, x1 + ox, y1 + oy) == shifted_path(line_path(x0, y0, x1, y1), ox, oy),
{
    let dx = abs_int(x1 - x0);
    let dy = abs_int(y1 - y0);
    let sx = if x0 < x1 { 1int } else { -1int };
    let sy = if y0 < y1 { 1int } else { -1int };
    lemma_line_from_shift(x1, y1, dx, dy, sx, sy, x0, y0, dx - dy, (dx + dy + 1) as nat, ox, oy);
}

/// A thick line is two lines: the pixels `draw_line_thick` colors are those
/// of `draw_line` between the same end points together with those of
/// `draw_line` between the end points moved one row down (for segments at
/// least as wide as tall) or one column right (for steeper ones).
pub proof fn law_thick_line_is_two_lines(x0: int, y0: int, x1: int, y1: int, px: int, py: int)
    ensures
        thick_line_covers(x0, y0, x1, y1, px, py) == (line_path(x0, y0, x1, y1).contains((px, py)) || (if abs_int(x1 - x0)
            >= abs_int(y1 - y0) {
            line_path(x0, y0 + 1, x1, y1 + 1).contains((px, py))
        } else {
            line_path(x0 + 1, y0, x1 + 1, y1).contains((px, py))
        })),
{
    let path = line_path(x0, y0, x1, y1);
    let (ox, oy) = if abs_int(x1 - x0) >= abs_int(y1 - y0) { (0int, 1int) } else { (1int, 0int) };
    law_line_path_moves_with_end_points(x0, y0, x1, y1, ox, oy);
    let moved = line_path(x0 + ox, y0 + oy, x1 + ox, y1 + oy);
    assert(moved == shifted_path(path, ox, oy));
    if path.contains((px - ox, py - oy)) {
        let k = choose|k: int| 0 <= k < path.len() && path[k] == (px - ox, py - oy);
        assert(moved[k] == (px, py));
        assert(moved.contains((px, py)));
    }
    if moved.contains((px, py)) {
        let k = choose|k: int| 0 <= k < moved.len() && moved[k] == (px, py);
        assert(path[k] == (px - ox, py - oy));
        assert(path.contains((px - ox, py - oy)));
    }
    if abs_int(x1 - x0) >= abs_int(y1 - y0) {
        assert(line_path(x0, y0 + 1, x1, y1 + 1) == moved);
    } else {
        assert(line_path(x0 + 1, y0, x1 + 1, y1) == moved);
    }
}

} // verus!
