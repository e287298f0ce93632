//! Icons built from rounded rectangles: the sidebar icons, the folder and
//! document icons of the file manager, and the dock's icons, whose parts are
//! placed by metrics scaled to the icon's size.
use vstd::prelude::*;
use crate::canvas::{Canvas, Rgb};
use crate::graphics::raster::{
    CornerTable, draw_rounded_rect_alpha, draw_rect_alpha, rounded_rect_pixel, effective_radius,
    blend_if, in_rect, rounded_fits, rounded_outline_pixel, outline_fits,
    draw_rounded_rect_outline_alpha, draw_line_thick, thick_line_covers, line_fits,
};
use crate::file_manager::state::trunc_div;

verus! {

/// Pixel `(px, py)`, previously `old`, under a rounded rectangle drawn with
/// the coverage table `t`.
pub open spec fn rr(
    old: Rgb,
    px: int,
    py: int,
    t: &CornerTable,
    x: int,
    y: int,
    w: int,
    h: int,
    radius: int,
    c: Rgb,
    alpha: u8,
) -> Rgb {
    rounded_rect_pixel(old, px, py, t.fill(effective_radius(w, h, radius)), x, y, w, h, radius, c, alpha)
}

/// Pixel `(px, py)`, previously `old`, under a blended rectangle.
pub open spec fn ra(old: Rgb, px: int, py: int, x: int, y: int, w: int, h: int, c: Rgb, alpha: u8) -> Rgb {
    blend_if(in_rect(px, py, x, y, w, h), c, old, alpha)
}

/// An icon at `(x, y)` with shapes reaching 48 pixels right and down stays within `i32`.
pub open spec fn icon_fits(x: int, y: int) -> bool {
    i32::MIN <= x && x + 48 <= i32::MAX && i32::MIN <= y && y + 48 <= i32::MAX
}

/// Pixel `(px, py)`, previously `old`, under the tiny folder icon at `(x, y)`.
pub open spec fn tiny_folder_pixel(old: Rgb, px: int, py: int, t: &CornerTable, x: int, y: int) -> Rgb {
    let p1 = rr(old, px, py, t, x + 1, y, 8, 4, 2, (61u8, 174u8, 233u8), 255);
    let p2 = rr(p1, px, py, t, x, y + 3, 16, 10, 3, (47u8, 140u8, 215u8), 255);
    rr(p2, px, py, t, x + 1, y + 4, 14, 3, 1, (120u8, 200u8, 255u8), 45)
}

/// Draws the file manager's tiny folder icon (16 x 13) at `(x, y)`: a tab,
/// the folder body and a translucent highlight.
pub fn draw_tiny_folder_icon(canvas: &mut Canvas, corners: &CornerTable, x: i32, y: i32)
    requires
        icon_fits(x as int, y as int),
        corners.spec_len() > 8,
    ensures
        final(canvas).same_shape(old(canvas)),
        forall|px: int, py: int|
            final(canvas).in_bounds(px, py) ==> #[trigger] final(canvas).pixel(px, py)
                == tiny_folder_pixel(old(canvas).pixel(px, py), px, py, corners, x as int, y as int),
{
    draw_rounded_rect_alpha(canvas, corners, x + 1, y, 8, 4, 2, 61, 174, 233, 255);
    draw_rounded_rect_alpha(canvas, corners, x, y + 3, 16, 10, 3, 47, 140, 215, 255);
    draw_rounded_rect_alpha(canvas, corners, x + 1, y + 4, 14, 3, 1, 120, 200, 255, 45);
}

/// Pixel `(px, py)`, previously `old`, under the tiny document icon at `(x, y)`.
pub open spec fn tiny_file_pixel(old: Rgb, px: int, py: int, t: &CornerTable, x: int, y: int) -> Rgb {
    let p1 = rr(old, px, py, t, x + 2, y, 12, 14, 2, (215u8, 220u8, 232u8), 255);
    let p2 = rr(p1, px, py, t, x + 9, y, 5, 5, 1, (175u8, 180u8, 198u8), 255);
    let p3 = ra(p2, px, py, x + 4, y + 5, 7, 1, (130u8, 135u8, 155u8), 210);
    let p4 = ra(p3, px, py, x + 4, y + 8, 7, 1, (130u8, 135u8, 155u8), 180);
    ra(p4, px, py, x + 4, y + 11, 5, 1, (130u8, 135u8, 155u8), 150)
}

/// Draws the file manager's tiny document icon (12 x 14) at `(x, y)`: the
/// page, its folded corner and three text lines.
pub fn draw_tiny_file_icon(canvas: &mut Canvas, corners: &CornerTable, x: i32, y: i32)
    requires
        icon_fits(x as int, y as int),
        corners.spec_len() > 8,
    ensures
        final(canvas).same_shape(old(canvas)),
        forall|px: int, py: int|
            final(canvas).in_bounds(px, py) ==> #[trigger] final(canvas).pixel(px, py)
                == tiny_file_pixel(old(canvas).pixel(px, py), px, py, corners, x as int, y as int),
{
    draw_rounded_rect_alpha(canvas, corners, x + 2, y, 12, 14, 2, 215, 220, 232, 255);
    draw_rounded_rect_alpha(canvas, corners, x + 9, y, 5, 5, 1, 175, 180, 198, 255);
    draw_rect_alpha(canvas, x + 4, y + 5, 7, 1, 130, 135, 155, 210);
    draw_rect_alpha(canvas, x + 4, y + 8, 7, 1, 130, 135, 155, 180);
    draw_rect_alpha(canvas, x + 4, y + 11, 5, 1, 130, 135, 155, 150);
}

/// Pixel `(px, py)`, previously `old`, under sidebar icon `id` at `(x, y)`:
/// 0 files (a folder), 1 console (a terminal window), 2 metrics (a bar
/// chart); other ids draw nothing.
pub open spec fn sidebar_icon_pixel(
    old: Rgb,
    px: int,
    py: int,
    t: &CornerTable,
    id: u8,
    x: int,
    y: int,
) -> Rgb {
    if id == 0 {
        let p1 = rr(old, px, py, t, x + 2, y + 2, 22, 8, 4, (55u8, 155u8, 230u8), 255);
        let p2 = rr(p1, px, py, t, x, y + 8, 44, 34, 7, (48u8, 142u8, 218u8), 255);
        let p3 = rr(p2, px, py, t, x + 3, y + 9, 38, 8, 3, (130u8, 210u8, 255u8), 45);
        rr(p3, px, py, t, x + 2, y + 32, 40, 6, 3, (25u8, 90u8, 160u8), 60)
    } else if id == 1 {
        let p1 = rr(old, px, py, t, x + 2, y + 2, 44, 42, 8, (22u8, 24u8, 36u8), 255);
        let p2 = rr(p1, px, py, t, x + 2, y + 2, 44, 14, 8, (38u8, 42u8, 60u8), 255);
        let p3 = ra(p2, px, py, x + 2, y + 8, 44, 8, (38u8, 42u8, 60u8), 255);
        let p4 = rr(p3, px, py, t, x + 8, y + 5, 6, 6, 3, (232u8, 74u8, 58u8), 255);
        let p5 = rr(p4, px, py, t, x + 18, y + 5, 6, 6, 3, (242u8, 186u8, 26u8), 255);
        let p6 = rr(p5, px, py, t, x + 28, y + 5, 6, 6, 3, (56u8, 200u8, 90u8), 255);
        let p7 = ra(p6, px, py, x + 8, y + 22, 20, 3, (61u8, 174u8, 233u8), 210);
        let p8 = ra(p7, px, py, x + 8, y + 29, 28, 3, (200u8, 205u8, 215u8), 90);
        ra(p8, px, py, x + 8, y + 36, 16, 3, (200u8, 205u8, 215u8), 60)
    } else if id == 2 {
        let p1 = rr(old, px, py, t, x + 2, y + 2, 44, 42, 8, (26u8, 30u8, 46u8), 255);
        let p2 = rr(p1, px, py, t, x + 6, y + 26, 8, 14, 3, (61u8, 174u8, 233u8), 255);
        let p3 = rr(p2, px, py, t, x + 18, y + 16, 8, 24, 3, (90u8, 200u8, 150u8), 255);
        let p4 = rr(p3, px, py, t, x + 30, y + 21, 8, 19, 3, (180u8, 100u8, 230u8), 255);
        ra(p4, px, py, x + 4, y + 38, 38, 1, (255u8, 255u8, 255u8), 30)
    } else {
        old
    }
}

/// Draws sidebar icon `id` at `(x, y)` (see `sidebar_icon_pixel`).
pub fn draw_icon(canvas: &mut Canvas, corners: &CornerTable, id: u8, x: i32, y: i32)
    requires
        icon_fits(x as int, y as int),
        corners.spec_len() > 8,
    ensures
        final(canvas).same_shape(old(canvas)),
        forall|px: int, py: int|
            final(canvas).in_bounds(px, py) ==> #[trigger] final(canvas).pixel(px, py)
                == sidebar_icon_pixel(old(canvas).pixel(px, py), px, py, corners, id, x as int, y as int),
{
    if id == 0 {
        draw_rounded_rect_alpha(canvas, corners, x + 2, y + 2, 22, 8, 4, 55, 155, 230, 255);
        draw_rounded_rect_alpha(canvas, corners, x, y + 8, 44, 34, 7, 48, 142, 218, 255);
        draw_rounded_rect_alpha(canvas, corners, x + 3, y + 9, 38, 8, 3, 130, 210, 255, 45);
        draw_rounded_rect_alpha(canvas, corners, x + 2, y + 32, 40, 6, 3, 25, 90, 160, 60);
    } else if id == 1 {
        draw_rounded_rect_alpha(canvas, corners, x + 2, y + 2, 44, 42, 8, 22, 24, 36, 255);
        draw_rounded_rect_alpha(canvas, corners, x + 2, y + 2, 44, 14, 8, 38, 42, 60, 255);
        draw_rect_alpha(canvas, x + 2, y + 8, 44, 8, 38, 42, 60, 255);
        draw_rounded_rect_alpha(canvas, corners, x + 8, y + 5, 6, 6, 3, 232, 74, 58, 255);
        draw_rounded_rect_alpha(canvas, corners, x + 18, y + 5, 6, 6, 3, 242, 186, 26, 255);
        draw_rounded_rect_alpha(canvas, corners, x + 28, y + 5, 6, 6, 3, 56, 200, 90, 255);
        draw_rect_alpha(canvas, x + 8, y + 22, 20, 3, 61, 174, 233, 210);
        draw_rect_alpha(canvas, x + 8, y + 29, 28, 3, 200, 205, 215, 90);
        draw_rect_alpha(canvas, x + 8, y + 36, 16, 3, 200, 205, 215, 60);
    } else if id == 2 {
        draw_rounded_rect_alpha(canvas, corners, x + 2, y + 2, 44, 42, 8, 26, 30, 46, 255);
        draw_rounded_rect_alpha(canvas, corners, x + 6, y + 26, 8, 14, 3, 61, 174, 233, 255);
        draw_rounded_rect_alpha(canvas, corners, x + 18, y + 16, 8, 24, 3, 90, 200, 150, 255);
        draw_rounded_rect_alpha(canvas, corners, x + 30, y + 21, 8, 19, 3, 180, 100, 230, 255);
        draw_rect_alpha(canvas, x + 4, y + 38, 38, 1, 255, 255, 255, 30);
    }
}


/// A rounded rectangle drawn with the coverage table `t` computes within
/// `i32` and finds its corner radius in the table.
pub open spec fn rr_ok(t: &CornerTable, x: int, y: int, w: int, h: int, radius: int) -> bool {
    &&& rounded_fits(x, y, w, h, radius)
    &&& (w > 0 && h > 0) ==> effective_radius(w, h, radius) < t.spec_len()
}

/// Pixel `(px, py)`, previously `old`, under a rounded outline drawn with the
/// ring coverage table `ring`.
pub open spec fn ol(
    old: Rgb,
    px: int,
    py: int,
    ring: &CornerTable,
    x: int,
    y: int,
    w: int,
    h: int,
    radius: int,
    thickness: int,
    c: Rgb,
    alpha: u8,
) -> Rgb {
    rounded_outline_pixel(
        old,
        px,
        py,
        ring.fill(effective_radius(w, h, radius)),
        x,
        y,
        w,
        h,
        radius,
        thickness,
        c,
        alpha,
    )
}

/// A rounded outline drawn with the ring table `ring` computes within `i32`
/// and finds its corner radius in the table.
pub open spec fn ol_ok(ring: &CornerTable, x: int, y: int, w: int, h: int, radius: int, thickness: int) -> bool {
    &&& outline_fits(x, y, w, h, radius, thickness)
    &&& (w > 0 && h > 0) ==> effective_radius(w, h, radius) < ring.spec_len()
}

/// A blended rectangle's right and bottom edges stay within `i32`.
pub open spec fn ra_ok(x: int, y: int, w: int, h: int) -> bool {
    (w > 0 && h > 0) ==> x + w <= i32::MAX && y + h <= i32::MAX
}

/// `v`, raised to `lo` when smaller.
pub open spec fn at_least(v: int, lo: int) -> int {
    if v >= lo {
        v
    } else {
        lo
    }
}

fn at_least_exec(v: i32, lo: i32) -> (m: i32)
    ensures
        m == at_least(v as int, lo as int),
{
    if v >= lo {
        v
    } else {
        lo
    }
}

/// Pixel `(px, py)`, previously `old`, under a dock icon's rounded box of side
/// `size` at `(x, y)` with corner radius `r`: filled in `fill`, then outlined
/// one pixel thick in `edge` at opacity `edge_alpha`.
pub open spec fn icon_box_pixel(
    old: Rgb,
    px: int,
    py: int,
    t: &CornerTable,
    ring: &CornerTable,
    x: int,
    y: int,
    size: int,
    r: int,
    fill: Rgb,
    edge: Rgb,
    edge_alpha: u8,
) -> Rgb {
    let p1 = rr(old, px, py, t, x, y, size, size, r, fill, 255);
    ol(p1, px, py, ring, x, y, size, size, r, 1, edge, edge_alpha)
}

/// The dock icon's box computes within `i32` and finds its radius in both tables.
pub open spec fn icon_box_ok(t: &CornerTable, ring: &CornerTable, x: int, y: int, size: int, r: int) -> bool {
    rr_ok(t, x, y, size, size, r) && ol_ok(ring, x, y, size, size, r, 1)
}

fn draw_icon_box(
    canvas: &mut Canvas,
    t: &CornerTable,
    ring: &CornerTable,
    x: i32,
    y: i32,
    size: i32,
    r: i32,
    fill: Rgb,
    edge: Rgb,
    edge_alpha: u8,
)
    requires
        icon_box_ok(t, ring, x as int, y as int, size as int, r as int),
    ensures
        final(canvas).same_shape(old(canvas)),
        forall|px: int, py: int|
            final(canvas).in_bounds(px, py) ==> #[trigger] final(canvas).pixel(px, py)
                == icon_box_pixel(
                old(canvas).pixel(px, py),
                px,
                py,
                t,
                ring,
                x as int,
                y as int,
                size as int,
                r as int,
                fill,
                edge,
                edge_alpha,
            ),
{
    draw_rounded_rect_alpha(canvas, t, x, y, size, size, r, fill.0, fill.1, fill.2, 255);
    draw_rounded_rect_outline_alpha(canvas, ring, x, y, size, size, r, edge.0, edge.1, edge.2, 1, edge_alpha);
}

/// Pixel `(px, py)`, previously `old`, under the dock's radiation icon of side
/// `size` at `(x, y)`, whose box has corner radius `corner` (at least 3): an
/// orange-edged violet box with an orange core and three blades around its
/// center.
pub open spec fn radiation_icon_pixel(
    old: Rgb,
    px: int,
    py: int,
    t: &CornerTable,
    ring: &CornerTable,
    x: int,
    y: int,
    size: int,
    corner: int,
) -> Rgb {
    let orange = (235u8, 140u8, 40u8);
    let cx = x + trunc_div(size, 2);
    let cy = y + trunc_div(size, 2);
    let p1 = icon_box_pixel(old, px, py, t, ring, x, y, size, at_least(corner, 3), (32u8, 28u8, 44u8), orange, 100);
    let p2 = rr(p1, px, py, t, cx - 3, cy - 3, 6, 6, 3, orange, 255);
    let p3 = ra(p2, px, py, cx - 2, cy - 13, 4, 7, orange, 255);
    let p4 = ra(p3, px, py, cx - 10, cy + 5, 7, 4, orange, 255);
    ra(p4, px, py, cx + 3, cy + 5, 7, 4, orange, 255)
}

/// The radiation icon's shapes compute within `i32` and find their radii in
/// the tables.
pub open spec fn radiation_icon_fits(
    t: &CornerTable,
    ring: &CornerTable,
    x: int,
    y: int,
    size: int,
    corner: int,
) -> bool {
    let cx = x + trunc_div(size, 2);
    let cy = y + trunc_div(size, 2);
    &&& icon_box_ok(t, ring, x, y, size, at_least(corner, 3))
    &&& i32::MIN <= cx - 10 && cx + 10 <= i32::MAX
    &&& i32::MIN <= cy - 13 && cy + 9 <= i32::MAX
    &&& t.spec_len() > 3
}

/// Draws the dock's radiation icon of side `size` at `(x, y)`; `corner` is
/// the box's corner radius as the dock scales it, raised to at least 3.
pub fn draw_vector_radiation_icon(
    canvas: &mut Canvas,
    t: &CornerTable,
    ring: &CornerTable,
    x: i32,
    y: i32,
    size: i32,
    corner: i32,
)
    requires
        radiation_icon_fits(t, ring, x as int, y as int, size as int, corner as int),
    ensures
        final(canvas).same_shape(old(canvas)),
        forall|px: int, py: int|
            final(canvas).in_bounds(px, py) ==> #[trigger] final(canvas).pixel(px, py)
                == radiation_icon_pixel(
                old(canvas).pixel(px, py),
                px,
                py,
                t,
                ring,
                x as int,
                y as int,
                size as int,
                corner as int,
            ),
{
    let r = at_least_exec(corner, 3);
    draw_icon_box(canvas, t, ring, x, y, size, r, (32, 28, 44), (235, 140, 40), 100);
    let cx = x + size / 2;
    let cy = y + size / 2;
    draw_rounded_rect_alpha(canvas, t, cx - 3, cy - 3, 6, 6, 3, 235, 140, 40, 255);
    draw_rect_alpha(canvas, cx - 2, cy - 13, 4, 7, 235, 140, 40, 255);
    draw_rect_alpha(canvas, cx - 10, cy + 5, 7, 4, 235, 140, 40, 255);
    draw_rect_alpha(canvas, cx + 3, cy + 5, 7, 4, 235, 140, 40, 255);
}

/// Pixel `(px, py)`, previously `old`, under a two-pixel-thick segment from
/// `(x0, y0)` to `(x1, y1)` in `c`.
pub open spec fn tl(old: Rgb, px: int, py: int, x0: int, y0: int, x1: int, y1: int, c: Rgb) -> Rgb {
    if thick_line_covers(x0, y0, x1, y1, px, py) {
        c
    } else {
        old
    }
}

/// A two-pixel-thick segment computes within `i32`.
pub open spec fn tl_ok(x0: int, y0: int, x1: int, y1: int) -> bool {
    &&& line_fits(x0, y0, x1, y1)
    &&& x0 < i32::MAX && x1 < i32::MAX && y0 < i32::MAX && y1 < i32::MAX
}

/// Whether `v` is a value of `i32`.
pub open spec fn in_i32(v: int) -> bool {
    i32::MIN <= v <= i32::MAX
}

/// Where the dock's terminal icon puts its parts, as offsets from the icon's
/// corner scaled to its size: the box's corner radius, the three window dots
/// (side, corner radius, top, left edges) and the prompt chevron (left end,
/// top, width).
#[derive(Clone, Copy, Debug, PartialEq, Eq)]
pub struct TerminalIconMetrics {
    pub corner: i32,
    pub dot: i32,
    pub dot_radius: i32,
    pub dot_top: i32,
    pub dot1_left: i32,
    pub dot2_left: i32,
    pub dot3_left: i32,
    pub prompt_left: i32,
    pub prompt_top: i32,
    pub prompt_width: i32,
}

/// Pixel `(px, py)`, previously `old`, under the dock's terminal icon of side
/// `size` at `(x, y)` laid out by `m`: a dark box, red, yellow and green
/// window dots (at least two pixels wide) and a `>` prompt.
pub open spec fn terminal_icon_pixel(
    old: Rgb,
    px: int,
    py: int,
    t: &CornerTable,
    ring: &CornerTable,
    x: int,
    y: int,
    size: int,
    m: TerminalIconMetrics,
) -> Rgb {
    let d = at_least(m.dot as int, 2);
    let rd = at_least(m.dot_radius as int, 1);
    let dy = y + m.dot_top;
    let x0 = x + m.prompt_left;
    let y0 = y + m.prompt_top;
    let pw = m.prompt_width as int;
    let ink = (230u8, 235u8, 250u8);
    let p1 = icon_box_pixel(old, px, py, t, ring, x, y, size, at_least(m.corner as int, 3), (20u8, 22u8, 34u8), (60u8, 65u8, 80u8), 100);
    let p2 = rr(p1, px, py, t, x + m.dot1_left, dy, d, d, rd, (230u8, 72u8, 58u8), 255);
    let p3 = rr(p2, px, py, t, x + m.dot2_left, dy, d, d, rd, (240u8, 185u8, 25u8), 255);
    let p4 = rr(p3, px, py, t, x + m.dot3_left, dy, d, d, rd, (39u8, 201u8, 63u8), 255);
    let p5 = tl(p4, px, py, x0, y0, x0 + pw, y0 + trunc_div(pw, 2), ink);
    tl(p5, px, py, x0 + pw, y0 + trunc_div(pw, 2), x0, y0 + pw, ink)
}

/// The terminal icon's shapes compute within `i32` and find their radii in
/// the tables.
pub open spec fn terminal_icon_fits(
    t: &CornerTable,
    ring: &CornerTable,
    x: int,
    y: int,
    size: int,
    m: TerminalIconMetrics,
) -> bool {
    let d = at_least(m.dot as int, 2);
    let rd = at_least(m.dot_radius as int, 1);
    let dy = y + m.dot_top;
    let x0 = x + m.prompt_left;
    let y0 = y + m.prompt_top;
    let pw = m.prompt_width as int;
    &&& icon_box_ok(t, ring, x, y, size, at_least(m.corner as int, 3))
    &&& in_i32(dy) && in_i32(x + m.dot1_left) && in_i32(x + m.dot2_left) && in_i32(x + m.dot3_left)
    &&& rr_ok(t, x + m.dot1_left, dy, d, d, rd)
    &&& rr_ok(t, x + m.dot2_left, dy, d, d, rd)
    &&& rr_ok(t, x + m.dot3_left, dy, d, d, rd)
    &&& in_i32(x0) && in_i32(y0) && in_i32(x0 + pw) && in_i32(y0 + trunc_div(pw, 2)) && in_i32(y0 + pw)
    &&& tl_ok(x0, y0, x0 + pw, y0 + trunc_div(pw, 2))
    &&& tl_ok(x0 + pw, y0 + trunc_div(pw, 2), x0, y0 + pw)
}

/// Draws the dock's terminal icon of side `size` at `(x, y)`, laid out by `m`.
pub fn draw_vector_terminal_icon(
    canvas: &mut Canvas,
    t: &CornerTable,
    ring: &CornerTable,
    x: i32,
    y: i32,
    size: i32,
    m: TerminalIconMetrics,
)
    requires
        terminal_icon_fits(t, ring, x as int, y as int, size as int, m),
    ensures
        final(canvas).same_shape(old(canvas)),
        forall|px: int, py: int|
            final(canvas).in_bounds(px, py) ==> #[trigger] final(canvas).pixel(px, py)
                == terminal_icon_pixel(
                old(canvas).pixel(px, py),
                px,
                py,
                t,
                ring,
                x as int,
                y as int,
                size as int,
                m,
            ),
{
    let r = at_least_exec(m.corner, 3);
    draw_icon_box(canvas, t, ring, x, y, size, r, (20, 22, 34), (60, 65, 80), 100);
    let d = at_least_exec(m.dot, 2);
    let rd = at_least_exec(m.dot_radius, 1);
    let dot_y = y + m.dot_top;
    draw_rounded_rect_alpha(canvas, t, x + m.dot1_left, dot_y, d, d, rd, 230, 72, 58, 255);
    draw_rounded_rect_alpha(canvas, t, x + m.dot2_left, dot_y, d, d, rd, 240, 185, 25, 255);
    draw_rounded_rect_alpha(canvas, t, x + m.dot3_left, dot_y, d, d, rd, 39, 201, 63, 255);
    let px = x + m.prompt_left;
    let py = y + m.prompt_top;
    let pw = m.prompt_width;
    draw_line_thick(canvas, px, py, px + pw, py + pw / 2, 230, 235, 250);
    draw_line_thick(canvas, px + pw, py + pw / 2, px, py + pw, 230, 235, 250);
}

/// Where the dock's metrics icon puts its parts, as offsets from the icon's
/// corner scaled to its size: the box's corner radius, the bars' width and
/// corner radius, and each bar's left edge, top and height.
#[derive(Clone, Copy, Debug, PartialEq, Eq)]
pub struct MetricsIconMetrics {
    pub corner: i32,
    pub bar_width: i32,
    pub bar_radius: i32,
    pub bar1_left: i32,
    pub bar1_top: i32,
    pub bar1_height: i32,
    pub bar2_left: i32,
    pub bar2_top: i32,
    pub bar2_height: i32,
    pub bar3_left: i32,
    pub bar3_top: i32,
    pub bar3_height: i32,
}

/// Pixel `(px, py)`, previously `old`, under the dock's metrics icon of side
/// `size` at `(x, y)` laid out by `m`: a slate box and blue, green and
/// violet bars (at least two pixels wide).
pub open spec fn metrics_icon_pixel(
    old: Rgb,
    px: int,
    py: int,
    t: &CornerTable,
    ring: &CornerTable,
    x: int,
    y: int,
    size: int,
    m: MetricsIconMetrics,
) -> Rgb {
    let bw = at_least(m.bar_width as int, 2);
    let br = at_least(m.bar_radius as int, 1);
    let p1 = icon_box_pixel(old, px, py, t, ring, x, y, size, at_least(m.corner as int, 3), (32u8, 36u8, 54u8), (80u8, 85u8, 105u8), 80);
    let p2 = rr(p1, px, py, t, x + m.bar1_left, y + m.bar1_top, bw, m.bar1_height as int, br, (61u8, 174u8, 233u8), 255);
    let p3 = rr(p2, px, py, t, x + m.bar2_left, y + m.bar2_top, bw, m.bar2_height as int, br, (90u8, 200u8, 150u8), 255);
    rr(p3, px, py, t, x + m.bar3_left, y + m.bar3_top, bw, m.bar3_height as int, br, (180u8, 100u8, 230u8), 255)
}

/// The metrics icon's shapes compute within `i32` and find their radii in
/// the tables.
pub open spec fn metrics_icon_fits(
    t: &CornerTable,
    ring: &CornerTable,
    x: int,
    y: int,
    size: int,
    m: MetricsIconMetrics,
) -> bool {
    let bw = at_least(m.bar_width as int, 2);
    let br = at_least(m.bar_radius as int, 1);
    &&& icon_box_ok(t, ring, x, y, size, at_least(m.corner as int, 3))
    &&& in_i32(x + m.bar1_left) && in_i32(y + m.bar1_top)
    &&& in_i32(x + m.bar2_left) && in_i32(y + m.bar2_top)
    &&& in_i32(x + m.bar3_left) && in_i32(y + m.bar3_top)
    &&& rr_ok(t, x + m.bar1_left, y + m.bar1_top, bw, m.bar1_height as int, br)
    &&& rr_ok(t, x + m.bar2_left, y + m.bar2_top, bw, m.bar2_height as int, br)
    &&& rr_ok(t, x + m.bar3_left, y + m.bar3_top, bw, m.bar3_height as int, br)
}

/// Draws the dock's metrics icon of side `size` at `(x, y)`, laid out by `m`.
pub fn draw_vector_metrics_icon(
    canvas: &mut Canvas,
    t: &CornerTable,
    ring: &CornerTable,
    x: i32,
    y: i32,
    size: i32,
    m: MetricsIconMetrics,
)
    requires
        metrics_icon_fits(t, ring, x as int, y as int, size as int, m),
    ensures
        final(canvas).same_shape(old(canvas)),
        forall|px: int, py: int|
            final(canvas).in_bounds(px, py) ==> #[trigger] final(canvas).pixel(px, py)
                == metrics_icon_pixel(
                old(canvas).pixel(px, py),
                px,
                py,
                t,
                ring,
                x as int,
                y as int,
                size as int,
                m,
            ),
{
    let r = at_least_exec(m.corner, 3);
    draw_icon_box(canvas, t, ring, x, y, size, r, (32, 36, 54), (80, 85, 105), 80);
    let bw = at_least_exec(m.bar_width, 2);
    let br = at_least_exec(m.bar_radius, 1);
    draw_rounded_rect_alpha(canvas, t, x + m.bar1_left, y + m.bar1_top, bw, m.bar1_height, br, 61, 174, 233, 255);
    draw_rounded_rect_alpha(canvas, t, x + m.bar2_left, y + m.bar2_top, bw, m.bar2_height, br, 90, 200, 150, 255);
    draw_rounded_rect_alpha(canvas, t, x + m.bar3_left, y + m.bar3_top, bw, m.bar3_height, br, 180, 100, 230, 255);
}

/// Where the dock's folder icon puts its parts, as offsets from the icon's
/// corner scaled to its size: the tab's and body's corner radii, the tab's
/// rectangle, the body's top and height, and the highlight's rectangle.
#[derive(Clone, Copy, Debug, PartialEq, Eq)]
pub struct FolderIconMetrics {
    pub tab_radius: i32,
    pub body_radius: i32,
    pub tab_left: i32,
    pub tab_top: i32,
    pub tab_width: i32,
    pub tab_height: i32,
    pub body_top: i32,
    pub body_height: i32,
    pub shine_left: i32,
    pub shine_top: i32,
    pub shine_width: i32,
    pub shine_height: i32,
}

/// Pixel `(px, py)`, previously `old`, under the dock's folder icon of side
/// `size` at `(x, y)` laid out by `m`: a light blue tab, the blue body the
/// full width of the icon, and a faint highlight across it.
pub open spec fn folder_icon_pixel(
    old: Rgb,
    px: int,
    py: int,
    t: &CornerTable,
    x: int,
    y: int,
    size: int,
    m: FolderIconMetrics,
) -> Rgb {
    let p1 = rr(old, px, py, t, x + m.tab_left, y + m.tab_top, m.tab_width as int, m.tab_height as int, at_least(m.tab_radius as int, 2), (55u8, 155u8, 230u8), 255);
    let p2 = rr(p1, px, py, t, x, y + m.body_top, size, m.body_height as int, at_least(m.body_radius as int, 3), (48u8, 142u8, 218u8), 255);
    rr(p2, px, py, t, x + m.shine_left, y + m.shine_top, m.shine_width as int, m.shine_height as int, at_least(m.tab_radius as int, 1), (130u8, 210u8, 255u8), 45)
}

/// The folder icon's shapes compute within `i32` and find their radii in the
/// table.
pub open spec fn folder_icon_fits(t: &CornerTable, x: int, y: int, size: int, m: FolderIconMetrics) -> bool {
    &&& in_i32(x + m.tab_left) && in_i32(y + m.tab_top) && in_i32(y + m.body_top)
    &&& in_i32(x + m.shine_left) && in_i32(y + m.shine_top)
    &&& rr_ok(t, x + m.tab_left, y + m.tab_top, m.tab_width as int, m.tab_height as int, at_least(m.tab_radius as int, 2))
    &&& rr_ok(t, x, y + m.body_top, size, m.body_height as int, at_least(m.body_radius as int, 3))
    &&& rr_ok(t, x + m.shine_left, y + m.shine_top, m.shine_width as int, m.shine_height as int, at_least(m.tab_radius as int, 1))
}

/// Draws the dock's folder icon of side `size` at `(x, y)`, laid out by `m`.
pub fn draw_vector_folder_icon(
    canvas: &mut Canvas,
    t: &CornerTable,
    x: i32,
    y: i32,
    size: i32,
    m: FolderIconMetrics,
)
    requires
        folder_icon_fits(t, x as int, y as int, size as int, m),
    ensures
        final(canvas).same_shape(old(canvas)),
        forall|px: int, py: int|
            final(canvas).in_bounds(px, py) ==> #[trigger] final(canvas).pixel(px, py)
                == folder_icon_pixel(old(canvas).pixel(px, py), px, py, t, x as int, y as int, size as int, m),
{
    let tab_r = at_least_exec(m.tab_radius, 2);
    draw_rounded_rect_alpha(canvas, t, x + m.tab_left, y + m.tab_top, m.tab_width, m.tab_height, tab_r, 55, 155, 230, 255);
    let body_r = at_least_exec(m.body_radius, 3);
    draw_rounded_rect_alpha(canvas, t, x, y + m.body_top, size, m.body_height, body_r, 48, 142, 218, 255);
    let shine_r = at_least_exec(m.tab_radius, 1);
    draw_rounded_rect_alpha(canvas, t, x + m.shine_left, y + m.shine_top, m.shine_width, m.shine_height, shine_r, 130, 210, 255, 45);
}

/// Where the dock's settings icon puts its parts, as offsets from the icon's
/// corner scaled to its size: the box's corner radius, the sliders' left
/// edge and width, the first slider's top and the step between sliders, and
/// each slider's knob offset along its track.
#[derive(Clone, Copy, Debug, PartialEq, Eq)]
pub struct SettingsIconMetrics {
    pub corner: i32,
    pub track_left: i32,
    pub track_width: i32,
    pub first_top: i32,
    pub step: i32,
    pub knob1: i32,
    pub knob2: i32,
    pub knob3: i32,
}

/// Pixel `(px, py)`, previously `old`, under one slider of the settings
/// icon: a thin track at `(track_x, ty)` and a blue knob `knob` along it.
pub open spec fn slider_pixel(
    old: Rgb,
    px: int,
    py: int,
    t: &CornerTable,
    track_x: int,
    ty: int,
    track_w: int,
    knob: int,
) -> Rgb {
    let p1 = rr(old, px, py, t, track_x, ty, track_w, 2, 1, (80u8, 85u8, 105u8), 180);
    rr(p1, px, py, t, track_x + knob - 4, ty - 3, 8, 8, 4, (61u8, 174u8, 233u8), 255)
}

/// A slider of the settings icon computes within `i32`.
pub open spec fn slider_ok(t: &CornerTable, track_x: int, ty: int, track_w: int, knob: int) -> bool {
    &&& in_i32(track_x + knob) && in_i32(track_x + knob - 4) && in_i32(ty - 3)
    &&& rr_ok(t, track_x, ty, track_w, 2, 1)
    &&& rr_ok(t, track_x + knob - 4, ty - 3, 8, 8, 4)
}

fn draw_slider(canvas: &mut Canvas, t: &CornerTable, track_x: i32, ty: i32, track_w: i32, knob: i32)
    requires
        slider_ok(t, track_x as int, ty as int, track_w as int, knob as int),
    ensures
        final(canvas).same_shape(old(canvas)),
        forall|px: int, py: int|
            final(canvas).in_bounds(px, py) ==> #[trigger] final(canvas).pixel(px, py)
                == slider_pixel(old(canvas).pixel(px, py), px, py, t, track_x as int, ty as int, track_w as int, knob as int),
{
    draw_rounded_rect_alpha(canvas, t, track_x, ty, track_w, 2, 1, 80, 85, 105, 180);
    draw_rounded_rect_alpha(canvas, t, track_x + knob - 4, ty - 3, 8, 8, 4, 61, 174, 233, 255);
}

/// Pixel `(px, py)`, previously `old`, under the dock's settings icon of side
/// `size` at `(x, y)` laid out by `m`: a box and three sliders, `m.step`
/// apart, top to bottom.
pub open spec fn settings_icon_pixel(
    old: Rgb,
    px: int,
    py: int,
    t: &CornerTable,
    ring: &CornerTable,
    x: int,
    y: int,
    size: int,
    m: SettingsIconMetrics,
) -> Rgb {
    let tx = x + m.track_left;
    let top = y + m.first_top;
    let tw = m.track_width as int;
    let p1 = icon_box_pixel(old, px, py, t, ring, x, y, size, at_least(m.corner as int, 3), (44u8, 48u8, 64u8), (110u8, 115u8, 140u8), 100);
    let p2 = slider_pixel(p1, px, py, t, tx, top, tw, m.knob1 as int);
    let p3 = slider_pixel(p2, px, py, t, tx, top + m.step, tw, m.knob2 as int);
    slider_pixel(p3, px, py, t, tx, top + 2 * m.step, tw, m.knob3 as int)
}

/// The settings icon's shapes compute within `i32` and find their radii in
/// the tables.
pub open spec fn settings_icon_fits(
    t: &CornerTable,
    ring: &CornerTable,
    x: int,
    y: int,
    size: int,
    m: SettingsIconMetrics,
) -> bool {
    let tx = x + m.track_left;
    let top = y + m.first_top;
    let tw = m.track_width as int;
    &&& icon_box_ok(t, ring, x, y, size, at_least(m.corner as int, 3))
    &&& in_i32(tx) && in_i32(top) && in_i32(2 * m.step) && in_i32(top + m.step) && in_i32(top + 2 * m.step)
    &&& slider_ok(t, tx, top, tw, m.knob1 as int)
    &&& slider_ok(t, tx, top + m.step, tw, m.knob2 as int)
    &&& slider_ok(t, tx, top + 2 * m.step, tw, m.knob3 as int)
}

/// Draws the dock's settings icon of side `size` at `(x, y)`, laid out by `m`.
pub fn draw_vector_settings_icon(
    canvas: &mut Canvas,
    t: &CornerTable,
    ring: &CornerTable,
    x: i32,
    y: i32,
    size: i32,
    m: SettingsIconMetrics,
)
    requires
        settings_icon_fits(t, ring, x as int, y as int, size as int, m),
    ensures
        final(canvas).same_shape(old(canvas)),
        forall|px: int, py: int|
            final(canvas).in_bounds(px, py) ==> #[trigger] final(canvas).pixel(px, py)
                == settings_icon_pixel(
                old(canvas).pixel(px, py),
                px,
                py,
                t,
                ring,
                x as int,
                y as int,
                size as int,
                m,
            ),
{
    let r = at_least_exec(m.corner, 3);
    draw_icon_box(canvas, t, ring, x, y, size, r, (44, 48, 64), (110, 115, 140), 100);
    let track_x = x + m.track_left;
    let start_y = y + m.first_top;
    draw_slider(canvas, t, track_x, start_y, m.track_width, m.knob1);
    draw_slider(canvas, t, track_x, start_y + m.step, m.track_width, m.knob2);
    draw_slider(canvas, t, track_x, start_y + 2 * m.step, m.track_width, m.knob3);
}

/// Where the dock's launchpad icon puts its parts, as lengths scaled to its
/// size: the box's corner radius, the dots' side, the gap between dots and
/// the inset of the first dot from the box's corner.
#[derive(Clone, Copy, Debug, PartialEq, Eq)]
pub struct LaunchpadIconMetrics {
    pub corner: i32,
    pub dot: i32,
    pub gap: i32,
    pub inset: i32,
}

/// Pixel `(px, py)`, previously `old`, under the launchpad dot in row `row`
/// and column `col` of the icon at `(x, y)` laid out by `m`: a translucent
/// white rounded square at least two pixels wide.
pub open spec fn launchpad_dot_pixel(
    old: Rgb,
    px: int,
    py: int,
    t: &CornerTable,
    x: int,
    y: int,
    m: LaunchpadIconMetrics,
    row: int,
    col: int,
) -> Rgb {
    let pitch = m.dot + m.gap;
    let side = at_least(m.dot as int, 2);
    rr(old, px, py, t, x + m.inset + col * pitch, y + m.inset + row * pitch, side, side, at_least(trunc_div(m.dot as int, 2), 1), (255u8, 255u8, 255u8), 230)
}

/// Pixel `(px, py)`, previously `old`, under the three dots of row `row`,
/// left to right.
pub open spec fn launchpad_row_pixel(
    old: Rgb,
    px: int,
    py: int,
    t: &CornerTable,
    x: int,
    y: int,
    m: LaunchpadIconMetrics,
    row: int,
) -> Rgb {
    let p1 = launchpad_dot_pixel(old, px, py, t, x, y, m, row, 0);
    let p2 = launchpad_dot_pixel(p1, px, py, t, x, y, m, row, 1);
    launchpad_dot_pixel(p2, px, py, t, x, y, m, row, 2)
}

/// Pixel `(px, py)`, previously `old`, under the dock's launchpad icon of
/// side `size` at `(x, y)` laid out by `m`: a grey box and a three by three
/// grid of dots, row by row.
pub open spec fn launchpad_icon_pixel(
    old: Rgb,
    px: int,
    py: int,
    t: &CornerTable,
    ring: &CornerTable,
    x: int,
    y: int,
    size: int,
    m: LaunchpadIconMetrics,
) -> Rgb {
    let p1 = icon_box_pixel(old, px, py, t, ring, x, y, size, at_least(m.corner as int, 3), (50u8, 50u8, 60u8), (100u8, 100u8, 120u8), 100);
    let p2 = launchpad_row_pixel(p1, px, py, t, x, y, m, 0);
    let p3 = launchpad_row_pixel(p2, px, py, t, x, y, m, 1);
    launchpad_row_pixel(p3, px, py, t, x, y, m, 2)
}

/// The offset `inset + k * pitch` of the dots in row or column `k` computes
/// within `i32`, and so does the dot's coordinate from `base`.
pub open spec fn launchpad_offset_ok(base: int, m: LaunchpadIconMetrics, k: int) -> bool {
    &&& in_i32(k * (m.dot + m.gap))
    &&& in_i32(m.inset + k * (m.dot + m.gap))
    &&& in_i32(base + m.inset + k * (m.dot + m.gap))
}

/// The dot in row `row` and column `col` computes within `i32` and finds its
/// radius in the table.
pub open spec fn launchpad_dot_ok(t: &CornerTable, x: int, y: int, m: LaunchpadIconMetrics, row: int, col: int) -> bool {
    let pitch = m.dot + m.gap;
    let side = at_least(m.dot as int, 2);
    rr_ok(t, x + m.inset + col * pitch, y + m.inset + row * pitch, side, side, at_least(trunc_div(m.dot as int, 2), 1))
}

/// The launchpad icon's shapes compute within `i32` and find their radii in
/// the tables.
pub open spec fn launchpad_icon_fits(
    t: &CornerTable,
    ring: &CornerTable,
    x: int,
    y: int,
    size: int,
    m: LaunchpadIconMetrics,
) -> bool {
    &&& icon_box_ok(t, ring, x, y, size, at_least(m.corner as int, 3))
    &&& in_i32(m.dot + m.gap)
    &&& forall|k: int| 0 <= k < 3 ==> launchpad_offset_ok(x, m, k) && launchpad_offset_ok(y, m, k)
    &&& forall|row: int, col: int| 0 <= row < 3 && 0 <= col < 3 ==> #[trigger] launchpad_dot_ok(t, x, y, m, row, col)
}

fn draw_launchpad_dot(canvas: &mut Canvas, t: &CornerTable, x: i32, y: i32, m: LaunchpadIconMetrics, row: i32, col: i32)
    requires
        0 <= row < 3,
        0 <= col < 3,
        in_i32(m.dot + m.gap),
        launchpad_offset_ok(x as int, m, col as int),
        launchpad_offset_ok(y as int, m, row as int),
        launchpad_dot_ok(t, x as int, y as int, m, row as int, col as int),
    ensures
        final(canvas).same_shape(old(canvas)),
        forall|px: int, py: int|
            final(canvas).in_bounds(px, py) ==> #[trigger] final(canvas).pixel(px, py)
                == launchpad_dot_pixel(old(canvas).pixel(px, py), px, py, t, x as int, y as int, m, row as int, col as int),
{
    let pitch = m.dot + m.gap;
    let dx = m.inset + col * pitch;
    let dy = m.inset + row * pitch;
    let side = at_least_exec(m.dot, 2);
    let half = m.dot / 2;
    let rad = at_least_exec(half, 1);
    draw_rounded_rect_alpha(canvas, t, x + dx, y + dy, side, side, rad, 255, 255, 255, 230);
}

/// Draws the dock's launchpad icon of side `size` at `(x, y)`, laid out by `m`.
pub fn draw_vector_launchpad_icon(
    canvas: &mut Canvas,
    t: &CornerTable,
    ring: &CornerTable,
    x: i32,
    y: i32,
    size: i32,
    m: LaunchpadIconMetrics,
)
    requires
        launchpad_icon_fits(t, ring, x as int, y as int, size as int, m),
    ensures
        final(canvas).same_shape(old(canvas)),
        forall|px: int, py: int|
            final(canvas).in_bounds(px, py) ==> #[trigger] final(canvas).pixel(px, py)
                == launchpad_icon_pixel(
                old(canvas).pixel(px, py),
                px,
                py,
                t,
                ring,
                x as int,
                y as int,
                size as int,
                m,
            ),
{
    let r = at_least_exec(m.corner, 3);
    draw_icon_box(canvas, t, ring, x, y, size, r, (50, 50, 60), (100, 100, 120), 100);
    let ghost start = *canvas;
    let mut row: i32 = 0;
    while row < 3
        invariant
            0 <= row <= 3,
            launchpad_icon_fits(t, ring, x as int, y as int, size as int, m),
            canvas.same_shape(&start),
            forall|px: int, py: int|
                canvas.in_bounds(px, py) ==> #[trigger] canvas.pixel(px, py) == launchpad_rows_pixel(
                    start.pixel(px, py),
                    px,
                    py,
                    t,
                    x as int,
                    y as int,
                    m,
                    row as int,
                ),
        decreases 3 - row,
    {
        let mut col: i32 = 0;
        let ghost row_start = *canvas;
        while col < 3
            invariant
                0 <= row < 3,
                0 <= col <= 3,
                launchpad_icon_fits(t, ring, x as int, y as int, size as int, m),
                canvas.same_shape(&row_start),
                forall|px: int, py: int|
                    canvas.in_bounds(px, py) ==> #[trigger] canvas.pixel(px, py) == launchpad_cols_pixel(
                        row_start.pixel(px, py),
                        px,
                        py,
                        t,
                        x as int,
                        y as int,
                        m,
                        row as int,
                        col as int,
                    ),
            decreases 3 - col,
        {
            assert(launchpad_offset_ok(x as int, m, col as int));
            assert(launchpad_offset_ok(y as int, m, row as int));
            assert(launchpad_dot_ok(t, x as int, y as int, m, row as int, col as int));
            let ghost before = *canvas;
            draw_launchpad_dot(canvas, t, x, y, m, row, col);
            assert forall|px: int, py: int| canvas.in_bounds(px, py) implies #[trigger] canvas.pixel(px, py)
                == launchpad_cols_pixel(row_start.pixel(px, py), px, py, t, x as int, y as int, m, row as int, col + 1) by {
                assert(before.in_bounds(px, py));
            }
            col = col + 1;
        }
        assert forall|px: int, py: int| canvas.in_bounds(px, py) implies #[trigger] canvas.pixel(px, py)
            == launchpad_rows_pixel(start.pixel(px, py), px, py, t, x as int, y as int, m, row + 1) by {
            assert(row_start.in_bounds(px, py));
            reveal_with_fuel(launchpad_cols_pixel, 4);
        }
        row = row + 1;
    }
    assert forall|px: int, py: int| canvas.in_bounds(px, py) implies #[trigger] canvas.pixel(px, py)
        == launchpad_icon_pixel(old(canvas).pixel(px, py), px, py, t, ring, x as int, y as int, size as int, m) by {
        reveal_with_fuel(launchpad_rows_pixel, 4);
    }
}

/// Pixel `(px, py)`, previously `old`, under the first `rows` rows of
/// launchpad dots.
pub open spec fn launchpad_rows_pixel(
    old: Rgb,
    px: int,
    py: int,
    t: &CornerTable,
    x: int,
    y: int,
    m: LaunchpadIconMetrics,
    rows: int,
) -> Rgb
    decreases rows,
{
    if rows <= 0 {
        old
    } else {
        launchpad_row_pixel(launchpad_rows_pixel(old, px, py, t, x, y, m, rows - 1), px, py, t, x, y, m, rows - 1)
    }
}

/// Pixel `(px, py)`, previously `old`, under the first `cols` dots of row `row`.
pub open spec fn launchpad_cols_pixel(
    old: Rgb,
    px: int,
    py: int,
    t: &CornerTable,
    x: int,
    y: int,
    m: LaunchpadIconMetrics,
    row: int,
    cols: int,
) -> Rgb
    decreases cols,
{
    if cols <= 0 {
        old
    } else {
        launchpad_dot_pixel(launchpad_cols_pixel(old, px, py, t, x, y, m, row, cols - 1), px, py, t, x, y, m, row, cols - 1)
    }
}

} // verus!
