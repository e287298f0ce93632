//! Soft drop shadows around windows. Shadow shapes are blended everywhere
//! except over the window's own rectangle, which is drawn on top afterwards.
use vstd::prelude::*;
use crate::canvas::{Canvas, Rgb, blend};
use crate::graphics::raster::{
    in_rect, rect_fits, draw_rect_alpha, blend_if, effective_radius, after_corners, blend_corners,
    CornerTable, rounded_rect_pixel,
};

verus! {

/// Whether `(px, py)` is in the rectangle `(x, y, w, h)` but not in the
/// excluded rectangle `(ex, ey, ew, eh)`.
pub open spec fn in_rect_outside(
    px: int,
    py: int,
    x: int,
    y: int,
    w: int,
    h: int,
    ex: int,
    ey: int,
    ew: int,
    eh: int,
) -> bool {
    in_rect(px, py, x, y, w, h) && !in_rect(px, py, ex, ey, ew, eh)
}

fn max_i32(a: i32, b: i32) -> (m: i32)
    ensures
        m == (if a >= b { a } else { b }),
{
    if a >= b { a } else { b }
}

fn min_i32(a: i32, b: i32) -> (m: i32)
    ensures
        m == (if a <= b { a } else { b }),
{
    if a <= b { a } else { b }
}

/// Mixes `(r, g, b)` at opacity `alpha` over the rectangle with corner
/// `(x, y)` and size `w x h`, except over the rectangle with corner `(ex, ey)`
/// and size `ew x eh`.
pub fn draw_rect_alpha_exclude(
    canvas: &mut Canvas,
    x: i32,
    y: i32,
    w: i32,
    h: i32,
    r: u8,
    g: u8,
    b: u8,
    alpha: u8,
    ex: i32,
    ey: i32,
    ew: i32,
    eh: i32,
)
    requires
        rect_fits(x, y, w, h),
        (w > 0 && h > 0) ==> i32::MIN <= ex + ew <= i32::MAX && i32::MIN <= ey + eh <= i32::MAX,
    ensures
        final(canvas).same_shape(old(canvas)),
        forall|px: int, py: int|
            final(canvas).in_bounds(px, py) ==> #[trigger] final(canvas).pixel(px, py) == blend_if(
                in_rect_outside(
                    px,
                    py,
                    x as int,
                    y as int,
                    w as int,
                    h as int,
                    ex as int,
                    ey as int,
                    ew as int,
                    eh as int,
                ),
                (r, g, b),
                old(canvas).pixel(px, py),
                alpha,
            ),
{
    if w <= 0 || h <= 0 {
        return;
    }
    let x1 = x;
    let y1 = y;
    let x2 = x + w;
    let y2 = y + h;
    let ex1 = ex;
    let ey1 = ey;
    let ex2 = ex + ew;
    let ey2 = ey + eh;
    let ix1 = max_i32(x1, ex1);
    let iy1 = max_i32(y1, ey1);
    let ix2 = min_i32(x2, ex2);
    let iy2 = min_i32(y2, ey2);
    if ix1 >= ix2 || iy1 >= iy2 {
        draw_rect_alpha(canvas, x, y, w, h, r, g, b, alpha);
        return;
    }
    if iy1 > y1 {
        draw_rect_alpha(canvas, x1, y1, x2 - x1, iy1 - y1, r, g, b, alpha);
    }
    if iy2 < y2 {
        draw_rect_alpha(canvas, x1, iy2, x2 - x1, y2 - iy2, r, g, b, alpha);
    }
    if ix1 > x1 {
        draw_rect_alpha(canvas, x1, iy1, ix1 - x1, iy2 - iy1, r, g, b, alpha);
    }
    if ix2 < x2 {
        draw_rect_alpha(canvas, ix2, iy1, x2 - ix2, iy2 - iy1, r, g, b, alpha);
    }
}

/// Blends a rectangular piece of a window's shadow: the rectangle with corner
/// `(x, y)` and size `w x h`, except over the window `(win_x, win_y, win_w, win_h)`.
pub fn draw_shadow_rect_alpha(
    canvas: &mut Canvas,
    x: i32,
    y: i32,
    w: i32,
    h: i32,
    r: u8,
    g: u8,
    b: u8,
    alpha: u8,
    win_x: i32,
    win_y: i32,
    win_w: i32,
    win_h: i32,
)
    requires
        rect_fits(x, y, w, h),
        (w > 0 && h > 0) ==> i32::MIN <= win_x + win_w <= i32::MAX && i32::MIN <= win_y + win_h
            <= i32::MAX,
    ensures
        final(canvas).same_shape(old(canvas)),
        forall|px: int, py: int|
            final(canvas).in_bounds(px, py) ==> #[trigger] final(canvas).pixel(px, py) == blend_if(
                in_rect_outside(
                    px,
                    py,
                    x as int,
                    y as int,
                    w as int,
                    h as int,
                    win_x as int,
                    win_y as int,
                    win_w as int,
                    win_h as int,
                ),
                (r, g, b),
                old(canvas).pixel(px, py),
                alpha,
            ),
{
    draw_rect_alpha_exclude(canvas, x, y, w, h, r, g, b, alpha, win_x, win_y, win_w, win_h);
}


/// The color of pixel `(px, py)`, previously `old`, after a rounded shadow
/// shape with corner `(x, y)`, size `w x h` and corner radius `radius` is
/// blended over it in `c` at opacity `alpha` everywhere but over the window
/// `(wx, wy, ww, wh)`: its top, middle and bottom bands in turn, then its
/// corner cells scaled by the coverage in `fill`.
pub open spec fn shadow_rounded_pixel(
    old: Rgb,
    px: int,
    py: int,
    fill: Seq<u8>,
    x: int,
    y: int,
    w: int,
    h: int,
    radius: int,
    c: Rgb,
    alpha: u8,
    wx: int,
    wy: int,
    ww: int,
    wh: int,
) -> Rgb {
    if w <= 0 || h <= 0 {
        old
    } else {
        let rad = effective_radius(w, h, radius);
        let p1 = blend_if(
            in_rect_outside(px, py, x + rad, y, w - 2 * rad, rad, wx, wy, ww, wh),
            c,
            old,
            alpha,
        );
        let p2 = blend_if(
            in_rect_outside(px, py, x, y + rad, w, h - 2 * rad, wx, wy, ww, wh),
            c,
            p1,
            alpha,
        );
        let p3 = blend_if(
            in_rect_outside(px, py, x + rad, y + h - rad, w - 2 * rad, rad, wx, wy, ww, wh),
            c,
            p2,
            alpha,
        );
        after_corners(p3, px, py, fill, x, y, w, h, rad, c, alpha, wx, wy, ww, wh)
    }
}

/// The rounded shadow shape's bands, corners and window test compute within `i32`.
pub open spec fn shadow_fits(
    x: int,
    y: int,
    w: int,
    h: int,
    radius: int,
    wx: int,
    wy: int,
    ww: int,
    wh: int,
) -> bool {
    (w > 0 && h > 0) ==> {
        let rad = effective_radius(w, h, radius);
        &&& x + w <= i32::MAX
        &&& y + h <= i32::MAX
        &&& i32::MIN <= 2 * rad
        &&& w - 2 * rad <= i32::MAX
        &&& h - 2 * rad <= i32::MAX
        &&& y + h - rad <= i32::MAX
        &&& i32::MIN <= x + rad
        &&& i32::MIN <= y + rad
        &&& i32::MIN <= wx + ww <= i32::MAX
        &&& i32::MIN <= wy + wh <= i32::MAX
    }
}

/// Blends a rounded piece of a window's shadow: the rounded rectangle with
/// corner `(x, y)`, size `w x h` and corner radius `radius` (at most half of
/// each side), except over the window `(win_x, win_y, win_w, win_h)`; corner
/// pixels are blended in proportion to their coverage in `corners`.
pub fn draw_shadow_rounded_rect_alpha(
    canvas: &mut Canvas,
    corners: &CornerTable,
    x: i32,
    y: i32,
    w: i32,
    h: i32,
    radius: i32,
    r: u8,
    g: u8,
    b: u8,
    alpha: u8,
    win_x: i32,
    win_y: i32,
    win_w: i32,
    win_h: i32,
)
    requires
        shadow_fits(
            x as int,
            y as int,
            w as int,
            h as int,
            radius as int,
            win_x as int,
            win_y as int,
            win_w as int,
            win_h as int,
        ),
        (w > 0 && h > 0) ==> effective_radius(w as int, h as int, radius as int)
            < corners.spec_len(),
    ensures
        final(canvas).same_shape(old(canvas)),
        forall|px: int, py: int|
            final(canvas).in_bounds(px, py) ==> #[trigger] final(canvas).pixel(px, py)
                == shadow_rounded_pixel(
                old(canvas).pixel(px, py),
                px,
                py,
                corners.fill(effective_radius(w as int, h as int, radius as int)),
                x as int,
                y as int,
                w as int,
                h as int,
                radius as int,
                (r, g, b),
                alpha,
                win_x as int,
                win_y as int,
                win_w as int,
                win_h as int,
            ),
{
    if w <= 0 || h <= 0 {
        return;
    }
    let hw = w / 2;
    let hh = h / 2;
    let m = if hw <= hh { hw } else { hh };
    let rad = if radius <= m { radius } else { m };
    draw_shadow_rect_alpha(
        canvas,
        x + rad,
        y,
        w - 2 * rad,
        rad,
        r,
        g,
        b,
        alpha,
        win_x,
        win_y,
        win_w,
        win_h,
    );
    draw_shadow_rect_alpha(
        canvas,
        x,
        y + rad,
        w,
        h - 2 * rad,
        r,
        g,
        b,
        alpha,
        win_x,
        win_y,
        win_w,
        win_h,
    );
    draw_shadow_rect_alpha(
        canvas,
        x + rad,
        y + h - rad,
        w - 2 * rad,
        rad,
        r,
        g,
        b,
        alpha,
        win_x,
        win_y,
        win_w,
        win_h,
    );
    if rad > 0 {
        let fill = corners.fill_for(rad as usize);
        blend_corners(canvas, fill, x, y, w, h, rad, r, g, b, alpha, win_x, win_y, win_w, win_h);
    }
}


/// Opacity of the shadow layer reaching `d` pixels out from a window: the
/// inner layers fall off as `24 * (1 - (d / 10)^2)` (23, 20, 15 and 8), and
/// the outermost layer, ten pixels out where that falloff reaches nothing,
/// keeps half the opacity of the one inside it (4), so that all five layers
/// darken what lies under them.
pub open spec fn shadow_layer_alpha(d: int) -> int {
    if d >= 10 {
        4
    } else {
        24 * (100 - d * d) / 100
    }
}

/// Pixel `(px, py)`, previously `old`, after the shadow layer `d` pixels out
/// from the window `(wx, wy, ww, wh)`: a black rounded shape grown by `d` on
/// each side, shifted three pixels down, with corner radius `14 + d`.
pub open spec fn shadow_layer_pixel(
    old: Rgb,
    px: int,
    py: int,
    t: &CornerTable,
    wx: int,
    wy: int,
    ww: int,
    wh: int,
    d: int,
) -> Rgb {
    let a = shadow_layer_alpha(d);
    if a > 0 {
        shadow_rounded_pixel(
            old,
            px,
            py,
            t.fill(effective_radius(ww + 2 * d, wh + 2 * d, 14 + d)),
            wx - d,
            wy - d + 3,
            ww + 2 * d,
            wh + 2 * d,
            14 + d,
            (0u8, 0u8, 0u8),
            a as u8,
            wx,
            wy,
            ww,
            wh,
        )
    } else {
        old
    }
}

/// Pixel `(px, py)`, previously `old`, after the shadow layers `2, 4, ..., d`
/// pixels out, innermost first.
pub open spec fn shadow_layers_pixel(
    old: Rgb,
    px: int,
    py: int,
    t: &CornerTable,
    wx: int,
    wy: int,
    ww: int,
    wh: int,
    d: int,
) -> Rgb
    decreases d,
{
    if d < 2 {
        old
    } else {
        shadow_layer_pixel(shadow_layers_pixel(old, px, py, t, wx, wy, ww, wh, d - 2), px, py, t, wx, wy, ww, wh, d)
    }
}

/// Pixel `(px, py)`, previously `old`, after the window `(wx, wy, ww, wh)`
/// casts its shadow: unchanged while shadows are off, else the layers two to
/// ten pixels out.
pub open spec fn window_shadow_pixel(
    old: Rgb,
    px: int,
    py: int,
    t: &CornerTable,
    enabled: bool,
    wx: int,
    wy: int,
    ww: int,
    wh: int,
) -> Rgb {
    if enabled {
        shadow_layers_pixel(old, px, py, t, wx, wy, ww, wh, 10)
    } else {
        old
    }
}

/// The shadow layer `d` pixels out computes its shape within `i32`.
pub open spec fn shadow_layer_fits(wx: int, wy: int, ww: int, wh: int, d: int) -> bool {
    &&& i32::MIN <= wx - d
    &&& i32::MIN <= wy - d
    &&& wy - d + 3 <= i32::MAX
    &&& ww + 2 * d <= i32::MAX
    &&& wh + 2 * d <= i32::MAX
    &&& shadow_fits(wx - d, wy - d + 3, ww + 2 * d, wh + 2 * d, 14 + d, wx, wy, ww, wh)
}

/// Every visible shadow layer of the window computes within `i32`.
pub open spec fn window_shadow_fits(wx: int, wy: int, ww: int, wh: int) -> bool {
    &&& shadow_layer_fits(wx, wy, ww, wh, 2)
    &&& shadow_layer_fits(wx, wy, ww, wh, 4)
    &&& shadow_layer_fits(wx, wy, ww, wh, 6)
    &&& shadow_layer_fits(wx, wy, ww, wh, 8)
    &&& shadow_layer_fits(wx, wy, ww, wh, 10)
}

/// Draws the soft shadow of the window `(win_x, win_y, win_w, win_h)` when
/// shadows are enabled: five concentric rounded black layers two, four, six,
/// eight and ten pixels out, shifted three pixels down, fading outwards, never
/// over the window.
pub fn draw_window_shadow(
    canvas: &mut Canvas,
    corners: &CornerTable,
    shadows_enabled: bool,
    win_x: i32,
    win_y: i32,
    win_w: i32,
    win_h: i32,
)
    requires
        shadows_enabled ==> window_shadow_fits(win_x as int, win_y as int, win_w as int, win_h as int),
        shadows_enabled ==> corners.spec_len() > 24,
    ensures
        final(canvas).same_shape(old(canvas)),
        forall|px: int, py: int|
            final(canvas).in_bounds(px, py) ==> #[trigger] final(canvas).pixel(px, py)
                == window_shadow_pixel(
                old(canvas).pixel(px, py),
                px,
                py,
                corners,
                shadows_enabled,
                win_x as int,
                win_y as int,
                win_w as int,
                win_h as int,
            ),
{
    if !shadows_enabled {
        return;
    }
    let shadow_shift_y: i32 = 3;
    let mut d: i32 = 2;
    while d <= 10
        invariant
            2 <= d <= 12,
            d % 2 == 0,
            shadow_shift_y == 3,
            window_shadow_fits(win_x as int, win_y as int, win_w as int, win_h as int),
            corners.spec_len() > 24,
            canvas.same_shape(old(canvas)),
            forall|px: int, py: int|
                canvas.in_bounds(px, py) ==> #[trigger] canvas.pixel(px, py) == shadow_layers_pixel(
                    old(canvas).pixel(px, py),
                    px,
                    py,
                    corners,
                    win_x as int,
                    win_y as int,
                    win_w as int,
                    win_h as int,
                    d - 2,
                ),
        decreases 12 - d,
    {
        assert(4 <= d * d <= 100) by (nonlinear_arith)
            requires
                2 <= d <= 10,
        ;
        let alpha: i32 = if d >= 10 {
            4
        } else {
            24 * (100 - d * d) / 100
        };
        assert(alpha == shadow_layer_alpha(d as int));
        let ghost before = *canvas;
        if alpha > 0 {
            assert(d == 2 || d == 4 || d == 6 || d == 8 || d == 10);
            assert(shadow_layer_fits(win_x as int, win_y as int, win_w as int, win_h as int, d as int));
            draw_shadow_rounded_rect_alpha(
                canvas,
                corners,
                win_x - d,
                win_y - d + shadow_shift_y,
                win_w + 2 * d,
                win_h + 2 * d,
                14 + d,
                0,
                0,
                0,
                alpha as u8,
                win_x,
                win_y,
                win_w,
                win_h,
            );
        }
        assert forall|px: int, py: int| canvas.in_bounds(px, py) implies #[trigger] canvas.pixel(px, py)
            == shadow_layers_pixel(
            old(canvas).pixel(px, py),
            px,
            py,
            corners,
            win_x as int,
            win_y as int,
            win_w as int,
            win_h as int,
            d as int,
        ) by {
            assert(before.in_bounds(px, py));
        }
        d = d + 2;
    }
}

/// A window's shadow never covers the window: every pixel inside the window's
/// rectangle keeps its color under a rounded shadow shape.
pub proof fn law_shadow_spares_window(
    old: Rgb,
    px: int,
    py: int,
    fill: Seq<u8>,
    x: int,
    y: int,
    w: int,
    h: int,
    radius: int,
    c: Rgb,
    alpha: u8,
    wx: int,
    wy: int,
    ww: int,
    wh: int,
)
    requires
        in_rect(px, py, wx, wy, ww, wh),
    ensures
        shadow_rounded_pixel(old, px, py, fill, x, y, w, h, radius, c, alpha, wx, wy, ww, wh)
            == old,
{
}


proof fn lemma_layers_spare_window(
    old: Rgb,
    px: int,
    py: int,
    t: &CornerTable,
    wx: int,
    wy: int,
    ww: int,
    wh: int,
    d: int,
)
    requires
        in_rect(px, py, wx, wy, ww, wh),
    ensures
        shadow_layers_pixel(old, px, py, t, wx, wy, ww, wh, d) == old,
    decreases d,
{
    if d >= 2 {
        lemma_layers_spare_window(old, px, py, t, wx, wy, ww, wh, d - 2);
    }
}

/// However many layers a window's shadow has, pixels inside the window keep
/// their color: the shadow is only ever drawn around it.
pub proof fn law_window_shadow_spares_window(
    old: Rgb,
    px: int,
    py: int,
    t: &CornerTable,
    enabled: bool,
    wx: int,
    wy: int,
    ww: int,
    wh: int,
)
    requires
        in_rect(px, py, wx, wy, ww, wh),
    ensures
        window_shadow_pixel(old, px, py, t, enabled, wx, wy, ww, wh) == old,
{
    lemma_layers_spare_window(old, px, py, t, wx, wy, ww, wh, 10);
}

/// A window's shadow has five visible layers: every one of the layers two,
/// four, six, eight and ten pixels out has a nonzero opacity, fading outwards.
pub proof fn law_shadow_has_five_layers()
    ensures
        shadow_layer_alpha(2) > shadow_layer_alpha(4) > shadow_layer_alpha(6) > shadow_layer_alpha(8)
            > shadow_layer_alpha(10) > 0,
        shadow_layer_alpha(2) <= 255,
{
}

/// Outside the window, a shadow shape is a plain rounded rectangle: every
/// pixel not in the window's rectangle takes the color the same rounded
/// rectangle, drawn without an excluded window, would give it.
pub proof fn law_shadow_outside_window_is_rounded_rect(
    old: Rgb,
    px: int,
    py: int,
    fill: Seq<u8>,
    x: int,
    y: int,
    w: int,
    h: int,
    radius: int,
    c: Rgb,
    alpha: u8,
    wx: int,
    wy: int,
    ww: int,
    wh: int,
)
    requires
        !in_rect(px, py, wx, wy, ww, wh),
    ensures
        shadow_rounded_pixel(old, px, py, fill, x, y, w, h, radius, c, alpha, wx, wy, ww, wh)
            == rounded_rect_pixel(old, px, py, fill, x, y, w, h, radius, c, alpha),
{
}

} // verus!
