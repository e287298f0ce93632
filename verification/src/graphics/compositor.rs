//! The mouse cursor, the Applications screen's search and card layout, and
//! the copies between the back buffer, the display and window caches.
use vstd::prelude::*;
use vstd::string::StringSliceAdditionalSpecFns;
use crate::canvas::{Canvas, Rgb, byte_offset, lemma_cell_index_unique, lemma_cell_index_bound};
use crate::state::{WindowBackingStore, BACKING_STORE_WIDTH};

verus! {

/// Height of the cursor image in pixels.
pub const CURSOR_HEIGHT: i32 = 12;

/// Width of the cursor image in pixels.
pub const CURSOR_WIDTH: i32 = 8;

/// Row `row` of the cursor image: 0 transparent, 1 black outline, 2 white fill.
pub open spec fn cursor_row(row: int) -> Seq<u8> {
    if row == 0 {
        seq![1u8, 1, 0, 0, 0, 0, 0, 0]
    } else if row == 1 {
        seq![1u8, 2, 1, 0, 0, 0, 0, 0]
    } else if row == 2 {
        seq![1u8, 2, 2, 1, 0, 0, 0, 0]
    } else if row == 3 {
        seq![1u8, 2, 2, 2, 1, 0, 0, 0]
    } else if row == 4 {
        seq![1u8, 2, 2, 2, 2, 1, 0, 0]
    } else if row == 5 {
        seq![1u8, 2, 2, 2, 2, 2, 1, 0]
    } else if row == 6 {
        seq![1u8, 2, 2, 2, 2, 2, 2, 1]
    } else if row == 7 {
        seq![1u8, 2, 2, 2, 2, 1, 1, 1]
    } else if row == 8 {
        seq![1u8, 2, 2, 1, 2, 1, 0, 0]
    } else if row == 9 {
        seq![1u8, 2, 1, 0, 1, 2, 1, 0]
    } else if row == 10 {
        seq![1u8, 1, 0, 0, 0, 1, 1, 0]
    } else {
        seq![0u8, 0, 0, 0, 0, 0, 0, 0]
    }
}

/// The cursor image cell at `(col, row)`; 0 outside the image.
pub open spec fn cursor_cell(col: int, row: int) -> u8 {
    if 0 <= row < 12 && 0 <= col < 8 {
        cursor_row(row)[col]
    } else {
        0
    }
}

/// The color of pixel `(px, py)`, previously `old`, with the cursor drawn at
/// `(cx, cy)`.
pub open spec fn with_cursor(old: Rgb, px: int, py: int, cx: int, cy: int) -> Rgb {
    let cell = cursor_cell(px - cx, py - cy);
    if cell == 1 {
        (0u8, 0u8, 0u8)
    } else if cell == 2 {
        (255u8, 255u8, 255u8)
    } else {
        old
    }
}

fn cursor_cell_exec(col: usize, row: usize) -> (c: u8)
    requires
        col < 8,
        row < 12,
    ensures
        c == cursor_cell(col as int, row as int),
{
    let line: [u8; 8] = if row == 0 {
        [1, 1, 0, 0, 0, 0, 0, 0]
    } else if row == 1 {
        [1, 2, 1, 0, 0, 0, 0, 0]
    } else if row == 2 {
        [1, 2, 2, 1, 0, 0, 0, 0]
    } else if row == 3 {
        [1, 2, 2, 2, 1, 0, 0, 0]
    } else if row == 4 {
        [1, 2, 2, 2, 2, 1, 0, 0]
    } else if row == 5 {
        [1, 2, 2, 2, 2, 2, 1, 0]
    } else if row == 6 {
        [1, 2, 2, 2, 2, 2, 2, 1]
    } else if row == 7 {
        [1, 2, 2, 2, 2, 1, 1, 1]
    } else if row == 8 {
        [1, 2, 2, 1, 2, 1, 0, 0]
    } else if row == 9 {
        [1, 2, 1, 0, 1, 2, 1, 0]
    } else if row == 10 {
        [1, 1, 0, 0, 0, 1, 1, 0]
    } else {
        [0, 0, 0, 0, 0, 0, 0, 0]
    };
    assert(line@ =~= cursor_row(row as int));
    line[col]
}

/// Draws the arrow cursor with its tip at `(cx, cy)`: a black outline around
/// a white fill, 8 pixels wide and 12 high.
pub fn draw_cursor(canvas: &mut Canvas, cx: i32, cy: i32)
    requires
        cx + 7 <= i32::MAX,
        cy + 10 <= i32::MAX,
    ensures
        final(canvas).same_shape(old(canvas)),
        forall|px: int, py: int|
            final(canvas).in_bounds(px, py) ==> #[trigger] final(canvas).pixel(px, py) == with_cursor(
                old(canvas).pixel(px, py),
                px,
                py,
                cx as int,
                cy as int,
            ),
{
    let ghost before = *canvas;
    let mut row: usize = 0;
    while row < 12
        invariant
            row <= 12,
            cx + 7 <= i32::MAX,
            cy + 10 <= i32::MAX,
            canvas.same_shape(&before),
            forall|px: int, py: int|
                canvas.in_bounds(px, py) ==> #[trigger] canvas.pixel(px, py) == (if py - cy < row {
                    with_cursor(before.pixel(px, py), px, py, cx as int, cy as int)
                } else {
                    before.pixel(px, py)
                }),
        decreases 12 - row,
    {
        let mut col: usize = 0;
        while col < 8
            invariant
                row < 12,
                col <= 8,
                cx + 7 <= i32::MAX,
                cy + 10 <= i32::MAX,
                canvas.same_shape(&before),
                forall|px: int, py: int|
                    canvas.in_bounds(px, py) ==> #[trigger] canvas.pixel(px, py) == (if py - cy < row
                        || (py - cy == row && px - cx < col) {
                        with_cursor(before.pixel(px, py), px, py, cx as int, cy as int)
                    } else {
                        before.pixel(px, py)
                    }),
            decreases 8 - col,
        {
            let cell = cursor_cell_exec(col, row);
            assert(cell != 0 ==> row <= 10);
            if cell == 1 {
                canvas.draw_pixel(cx + col as i32, cy + row as i32, 0, 0, 0);
            } else if cell == 2 {
                canvas.draw_pixel(cx + col as i32, cy + row as i32, 255, 255, 255);
            }
            col = col + 1;
        }
        row = row + 1;
    }
}

/// An application shown on the Applications screen.
pub struct AppInfo {
    /// Title shown under the icon.
    pub title: &'static str,
    /// Window identifier the application opens.
    pub id: u8,
    /// Which icon is drawn for it.
    pub icon_type: u8,
}

/// `b` in lower case when it is an ASCII capital letter.
pub open spec fn ascii_lower(b: u8) -> u8 {
    if 65 <= b <= 90 {
        (b + 32) as u8
    } else {
        b
    }
}

/// Whether `query` occurs in `title` at offset `i`, ignoring ASCII case.
pub open spec fn matches_at(title: Seq<u8>, query: Seq<u8>, i: int) -> bool {
    forall|j: int| 0 <= j < query.len() ==> #[trigger] ascii_lower(title[i + j]) == ascii_lower(query[j])
}

/// Whether `query` occurs somewhere in `title`, ignoring ASCII case.
pub open spec fn contains_ignoring_case(title: Seq<u8>, query: Seq<u8>) -> bool {
    query.len() == 0 || (query.len() <= title.len() && exists|i: int|
        0 <= i <= title.len() - query.len() && #[trigger] matches_at(title, query, i))
}

fn lower(b: u8) -> (l: u8)
    ensures
        l == ascii_lower(b),
{
    if b >= 65 && b <= 90 {
        b - 65 + 97
    } else {
        b
    }
}

/// Whether `query` is a substring of `title` when ASCII letters are compared
/// without regard to case. An empty query matches every title.
pub fn matches_search(title: &str, query: &str) -> (m: bool)
    ensures
        m == contains_ignoring_case(title.spec_bytes(), query.spec_bytes()),
{
    if query.is_empty() {
        proof {
            assert(query.spec_bytes() =~= Seq::<u8>::empty());
        }
        return true;
    }
    let q = query.as_bytes();
    let t = query_title_bytes(title);
    if q.len() > t.len() {
        return false;
    }
    let tl = t.len();
    let last = tl - q.len();
    let mut i: usize = 0;
    while i <= last
        invariant
            tl == t@.len(),
            q@.len() >= 1,
            last == t@.len() - q@.len(),
            q@.len() <= t@.len(),
            t@ == title.spec_bytes(),
            q@ == query.spec_bytes(),
            forall|k: int| 0 <= k < i ==> !matches_at(t@, q@, k),
        decreases last + 1 - i,
    {
        let mut matched = true;
        let mut j: usize = 0;
        while matched && j < q.len()
            invariant
                i <= last,
                tl == t@.len(),
                q@.len() <= t@.len(),
                last == t@.len() - q@.len(),
                j <= q@.len(),
                matched ==> forall|l: int| 0 <= l < j ==> #[trigger] ascii_lower(t@[i + l])
                    == ascii_lower(q@[l]),
                !matched ==> !matches_at(t@, q@, i as int),
            decreases q@.len() - j + (if matched { 1int } else { 0int }),
        {
            let tc = lower(t[i + j]);
            let qc = lower(q[j]);
            if tc != qc {
                matched = false;
                assert(ascii_lower(t@[i + j]) != ascii_lower(q@[j as int]));
            } else {
                j = j + 1;
            }
        }
        if matched {
            assert(matches_at(t@, q@, i as int));
            return true;
        }
        i = i + 1;
    }
    false
}

fn query_title_bytes(title: &str) -> (b: &[u8])
    ensures
        b@ == title.spec_bytes(),
{
    title.as_bytes()
}

/// Width of an application card in pixels.
pub const CARD_WIDTH: i32 = 160;

/// Height of an application card in pixels.
pub const CARD_HEIGHT: i32 = 140;

/// The position and size `(x, y, w, h)` of card `idx` among `matched_count`
/// cards on a screen `sw` pixels wide: three 160 x 140 cards per row 40 pixels
/// apart, rows 30 pixels apart starting 180 pixels down, each row centered.
pub open spec fn card_layout(idx: int, matched_count: int, sw: int) -> (int, int, int, int) {
    let r = idx / 3;
    let c = idx % 3;
    let row_items = if 3 <= matched_count - r * 3 {
        3
    } else {
        matched_count - r * 3
    };
    let total_row_w = row_items * 160 + (row_items - 1) * 40;
    let d = sw - total_row_w;
    let row_start_x = if d >= 0 {
        d / 2
    } else {
        -((-d) / 2)
    };
    (row_start_x + c * 200, 180 + r * 170, 160, 140)
}

/// The card layout computes within `i32` and card `idx` lies in a row that
/// has matched cards.
pub open spec fn card_layout_ok(idx: int, matched_count: int, sw: int) -> bool {
    &&& (idx / 3) * 3 <= matched_count
    &&& 180 + (idx / 3) * 170 <= i32::MAX
    &&& i32::MIN + 560 <= sw <= i32::MAX - 40
}

/// The position and size of card `idx` among `matched_count` matching
/// applications (see `card_layout`).
pub fn get_app_card_layout(idx: usize, matched_count: usize, sw: i32, _sh: i32) -> (l: (
    i32,
    i32,
    i32,
    i32,
))
    requires
        card_layout_ok(idx as int, matched_count as int, sw as int),
    ensures
        (l.0 as int, l.1 as int, l.2 as int, l.3 as int) == card_layout(
            idx as int,
            matched_count as int,
            sw as int,
        ),
{
    let card_w: i32 = 160;
    let card_h: i32 = 140;
    let h_space: i32 = 40;
    let v_space: i32 = 30;
    let grid_y: i32 = 180;
    let r = idx / 3;
    let c = idx % 3;
    let row_start_idx = r * 3;
    let rest = matched_count - row_start_idx;
    let row_items: usize = if 3 <= rest { 3 } else { rest };
    let total_row_w = row_items as i32 * card_w + (row_items as i32 - 1) * h_space;
    let d = sw - total_row_w;
    let row_start_x = if d >= 0 { d / 2 } else { -((-(d as i64)) / 2) as i32 };
    let x = row_start_x + c as i32 * (card_w + h_space);
    let y = grid_y + r as i32 * (card_h + v_space);
    (x, y, card_w, card_h)
}


/// Byte `k` (0, 1 or 2) of pixel `(px, py)` in a grid `sw` pixels wide.
pub open spec fn grid_byte(sw: int, px: int, py: int, k: int) -> int {
    byte_offset(sw, px, py) + k
}

/// Distinct pixels of a grid own distinct bytes.
proof fn lemma_grid_bytes_distinct(sw: int, sh: int, ax: int, ay: int, ak: int, bx: int, by: int, bk: int)
    requires
        0 <= ax < sw,
        0 <= bx < sw,
        0 <= ay < sh,
        0 <= by < sh,
        0 <= ak < 3,
        0 <= bk < 3,
        grid_byte(sw, ax, ay, ak) == grid_byte(sw, bx, by, bk),
    ensures
        ax == bx && ay == by && ak == bk,
{
    let pa = ay * sw + ax;
    let pb = by * sw + bx;
    if pa < pb {
        assert(pa * 3 + ak < pb * 3 + bk);
    } else if pb < pa {
        assert(pb * 3 + bk < pa * 3 + ak);
    }
    lemma_cell_index_unique(sw, ax, ay, bx, by);
}

/// A pixel of a grid lies below `sw * sh * 3` bytes.
proof fn lemma_grid_byte_bound(sw: int, sh: int, px: int, py: int, k: int)
    requires
        0 <= px < sw,
        0 <= py < sh,
        0 <= k < 3,
    ensures
        0 <= grid_byte(sw, px, py, k) < sw * sh * 3,
{
    lemma_cell_index_bound(sw, sh, px, py);
}

/// Sets the three bytes at `o` to `v`.
fn fill_pixel_bytes(buf: &mut [u8], o: usize, v: u8)
    requires
        o + 3 <= old(buf)@.len(),
    ensures
        final(buf)@.len() == old(buf)@.len(),
        forall|j: int|
            0 <= j < final(buf)@.len() ==> #[trigger] final(buf)@[j] == (if o <= j < o + 3 {
                v
            } else {
                old(buf)@[j]
            }),
{
    buf[o] = v;
    buf[o + 1] = v;
    buf[o + 2] = v;
}

/// Copies the three bytes at `o` from `src` to `buf`.
fn copy_pixel_bytes(buf: &mut [u8], src: &[u8], o: usize)
    requires
        o + 3 <= old(buf)@.len(),
        o + 3 <= src@.len(),
    ensures
        final(buf)@.len() == old(buf)@.len(),
        forall|j: int|
            0 <= j < final(buf)@.len() ==> #[trigger] final(buf)@[j] == (if o <= j < o + 3 {
                src@[j]
            } else {
                old(buf)@[j]
            }),
{
    buf[o] = src[o];
    buf[o + 1] = src[o + 1];
    buf[o + 2] = src[o + 2];
}

/// Byte value the cursor puts at pixel `(px, py)` of a display with the cursor
/// tip at `(cx, cy)`, or `old` where the cursor is transparent.
pub open spec fn cursor_byte(old: u8, px: int, py: int, cx: int, cy: int) -> u8 {
    let cell = cursor_cell(px - cx, py - cy);
    if cell == 1 {
        0
    } else if cell == 2 {
        255
    } else {
        old
    }
}

/// Draws the arrow cursor with its tip at `(cx, cy)` straight into the
/// display memory `buf`, which holds `sw x sh` pixels of three bytes each:
/// black outline, white fill, pixels outside the display skipped.
pub fn draw_cursor_to_buf(buf: &mut [u8], cx: i32, cy: i32, sw: i32, sh: i32)
    requires
        0 <= sw,
        0 <= sh,
        sw * sh * 3 <= old(buf)@.len(),
        sw * sh * 3 <= i32::MAX,
        cx + 7 <= i32::MAX,
        cy + 11 <= i32::MAX,
    ensures
        final(buf)@.len() == old(buf)@.len(),
        forall|px: int, py: int, k: int|
            0 <= px < sw && 0 <= py < sh && 0 <= k < 3 ==> #[trigger] final(buf)@[grid_byte(
                sw as int,
                px,
                py,
                k,
            )] == cursor_byte(old(buf)@[grid_byte(sw as int, px, py, k)], px, py, cx as int, cy as int),
        forall|i: int| sw * sh * 3 <= i < old(buf)@.len() ==> #[trigger] final(buf)@[i] == old(buf)@[i],
{
    let ghost start = buf@;
    let mut row: usize = 0;
    while row < 12
        invariant
            row <= 12,
            0 <= sw,
            0 <= sh,
            sw * sh * 3 <= start.len(),
            sw * sh * 3 <= i32::MAX,
            cx + 7 <= i32::MAX,
            cy + 11 <= i32::MAX,
            buf@.len() == start.len(),
            forall|px: int, py: int, k: int|
                0 <= px < sw && 0 <= py < sh && 0 <= k < 3 ==> #[trigger] buf@[grid_byte(
                    sw as int,
                    px,
                    py,
                    k,
                )] == (if py - cy < row {
                    cursor_byte(start[grid_byte(sw as int, px, py, k)], px, py, cx as int, cy as int)
                } else {
                    start[grid_byte(sw as int, px, py, k)]
                }),
            forall|i: int| sw * sh * 3 <= i < start.len() ==> #[trigger] buf@[i] == start[i],
        decreases 12 - row,
    {
        let mut col: usize = 0;
        while col < 8
            invariant
                row < 12,
                col <= 8,
                0 <= sw,
                0 <= sh,
                sw * sh * 3 <= start.len(),
                sw * sh * 3 <= i32::MAX,
                cx + 7 <= i32::MAX,
                cy + 11 <= i32::MAX,
                buf@.len() == start.len(),
                forall|px: int, py: int, k: int|
                    0 <= px < sw && 0 <= py < sh && 0 <= k < 3 ==> #[trigger] buf@[grid_byte(
                        sw as int,
                        px,
                        py,
                        k,
                    )] == (if py - cy < row || (py - cy == row && px - cx < col) {
                        cursor_byte(
                            start[grid_byte(sw as int, px, py, k)],
                            px,
                            py,
                            cx as int,
                            cy as int,
                        )
                    } else {
                        start[grid_byte(sw as int, px, py, k)]
                    }),
                forall|i: int| sw * sh * 3 <= i < start.len() ==> #[trigger] buf@[i] == start[i],
            decreases 8 - col,
        {
            let cell = cursor_cell_exec(col, row);
            let x = cx + col as i32;
            let y = cy + row as i32;
            if x >= 0 && x < sw && y >= 0 && y < sh && (cell == 1 || cell == 2) {
                proof {
                    lemma_grid_byte_bound(sw as int, sh as int, x as int, y as int, 2);
                }
                let idx = ((y * sw + x) * 3) as usize;
                let v: u8 = if cell == 1 { 0 } else { 255 };
                let ghost pre = buf@;
                fill_pixel_bytes(buf, idx, v);
                proof {
                    assert forall|px: int, py: int, k: int|
                        0 <= px < sw && 0 <= py < sh && 0 <= k < 3 implies #[trigger] buf@[grid_byte(
                        sw as int,
                        px,
                        py,
                        k,
                    )] == (if py - cy < row || (py - cy == row && px - cx < col + 1) {
                        cursor_byte(
                            start[grid_byte(sw as int, px, py, k)],
                            px,
                            py,
                            cx as int,
                            cy as int,
                        )
                    } else {
                        start[grid_byte(sw as int, px, py, k)]
                    }) by {
                        lemma_grid_byte_bound(sw as int, sh as int, px, py, k);
                        let j = grid_byte(sw as int, px, py, k);
                        if idx <= j < idx + 3 {
                            lemma_grid_bytes_distinct(
                                sw as int,
                                sh as int,
                                px,
                                py,
                                k,
                                x as int,
                                y as int,
                                j - idx,
                            );
                        }
                    }
                    assert forall|i: int| sw * sh * 3 <= i < start.len() implies #[trigger] buf@[i]
                        == start[i] by {
                        assert(!(idx <= i < idx + 3));
                    }
                }
            }
            col = col + 1;
        }
        row = row + 1;
    }
}

/// Copies the pixels of the rectangle `(rx, ry, rw, rh)`, clipped to a
/// `sw x sh` display, from the back buffer `back` to the display memory `fb`;
/// both hold three bytes per pixel, row after row, `sw` pixels per row.
pub fn copy_rect_back_to_fb(
    fb: &mut [u8],
    back: &[u8],
    rx: i32,
    ry: i32,
    rw: i32,
    rh: i32,
    sw: i32,
    sh: i32,
)
    requires
        0 <= sw,
        0 <= sh,
        sw * sh * 3 <= old(fb)@.len(),
        sw * sh * 3 <= back@.len(),
        sw * sh * 3 <= i32::MAX,
        rw > 0 ==> rx + rw <= i32::MAX,
        rh > 0 ==> ry + rh <= i32::MAX,
    ensures
        final(fb)@.len() == old(fb)@.len(),
        forall|px: int, py: int, k: int|
            0 <= px < sw && 0 <= py < sh && 0 <= k < 3 ==> #[trigger] final(fb)@[grid_byte(
                sw as int,
                px,
                py,
                k,
            )] == (if crate::graphics::raster::in_rect(
                px,
                py,
                rx as int,
                ry as int,
                rw as int,
                rh as int,
            ) {
                back@[grid_byte(sw as int, px, py, k)]
            } else {
                old(fb)@[grid_byte(sw as int, px, py, k)]
            }),
        forall|i: int| sw * sh * 3 <= i < old(fb)@.len() ==> #[trigger] final(fb)@[i] == old(fb)@[i],
{
    if rw <= 0 || rh <= 0 {
        return;
    }
    let start_y = if 0 >= ry { 0 } else { ry };
    let end_y = if sh <= ry + rh { sh } else { ry + rh };
    let start_x = if 0 >= rx { 0 } else { rx };
    let end_x = if sw <= rx + rw { sw } else { rx + rw };
    if start_x >= end_x || start_y >= end_y {
        return;
    }
    let ghost start = fb@;
    let mut cy = start_y;
    while cy < end_y
        invariant
            start_y <= cy <= end_y,
            start_x < end_x,
            0 <= sw,
            0 <= sh,
            sw * sh * 3 <= start.len(),
            sw * sh * 3 <= back@.len(),
            sw * sh * 3 <= i32::MAX,
            start_y == (if 0 >= ry { 0 } else { ry }),
            end_y == (if sh <= ry + rh { sh as int } else { ry + rh }),
            start_x == (if 0 >= rx { 0 } else { rx }),
            end_x == (if sw <= rx + rw { sw as int } else { rx + rw }),
            fb@.len() == start.len(),
            forall|px: int, py: int, k: int|
                0 <= px < sw && 0 <= py < sh && 0 <= k < 3 ==> #[trigger] fb@[grid_byte(
                    sw as int,
                    px,
                    py,
                    k,
                )] == (if crate::graphics::raster::in_rect(
                    px,
                    py,
                    rx as int,
                    ry as int,
                    rw as int,
                    rh as int,
                ) && py < cy {
                    back@[grid_byte(sw as int, px, py, k)]
                } else {
                    start[grid_byte(sw as int, px, py, k)]
                }),
            forall|i: int| sw * sh * 3 <= i < start.len() ==> #[trigger] fb@[i] == start[i],
        decreases end_y - cy,
    {
        let mut cx = start_x;
        while cx < end_x
            invariant
                start_y <= cy < end_y,
                start_x <= cx <= end_x,
                0 <= sw,
                0 <= sh,
                sw * sh * 3 <= start.len(),
                sw * sh * 3 <= back@.len(),
                sw * sh * 3 <= i32::MAX,
                start_y == (if 0 >= ry { 0 } else { ry }),
                end_y == (if sh <= ry + rh { sh as int } else { ry + rh }),
                start_x == (if 0 >= rx { 0 } else { rx }),
                end_x == (if sw <= rx + rw { sw as int } else { rx + rw }),
                fb@.len() == start.len(),
                forall|px: int, py: int, k: int|
                    0 <= px < sw && 0 <= py < sh && 0 <= k < 3 ==> #[trigger] fb@[grid_byte(
                        sw as int,
                        px,
                        py,
                        k,
                    )] == (if crate::graphics::raster::in_rect(
                        px,
                        py,
                        rx as int,
                        ry as int,
                        rw as int,
                        rh as int,
                    ) && (py < cy || (py == cy && px < cx)) {
                        back@[grid_byte(sw as int, px, py, k)]
                    } else {
                        start[grid_byte(sw as int, px, py, k)]
                    }),
                forall|i: int| sw * sh * 3 <= i < start.len() ==> #[trigger] fb@[i] == start[i],
            decreases end_x - cx,
        {
            proof {
                lemma_grid_byte_bound(sw as int, sh as int, cx as int, cy as int, 2);
            }
            let idx = ((cy * sw + cx) * 3) as usize;
            copy_pixel_bytes(fb, back, idx);
            proof {
                assert forall|px: int, py: int, k: int|
                    0 <= px < sw && 0 <= py < sh && 0 <= k < 3 implies #[trigger] fb@[grid_byte(
                    sw as int,
                    px,
                    py,
                    k,
                )] == (if crate::graphics::raster::in_rect(
                    px,
                    py,
                    rx as int,
                    ry as int,
                    rw as int,
                    rh as int,
                ) && (py < cy || (py == cy && px < cx + 1)) {
                    back@[grid_byte(sw as int, px, py, k)]
                } else {
                    start[grid_byte(sw as int, px, py, k)]
                }) by {
                    lemma_grid_byte_bound(sw as int, sh as int, px, py, k);
                    let j = grid_byte(sw as int, px, py, k);
                    if idx <= j < idx + 3 {
                        lemma_grid_bytes_distinct(
                            sw as int,
                            sh as int,
                            px,
                            py,
                            k,
                            cx as int,
                            cy as int,
                            j - idx,
                        );
                    }
                }
                assert forall|i: int| sw * sh * 3 <= i < start.len() implies #[trigger] fb@[i]
                    == start[i] by {
                    assert(!(idx <= i < idx + 3));
                }
            }
            cx = cx + 1;
        }
        cy = cy + 1;
    }
}


/// A color packed as opaque 32-bit ARGB.
pub open spec fn pack_argb(c: Rgb) -> u32 {
    0xFF00_0000u32 | ((c.0 as u32) << 16u32) | ((c.1 as u32) << 8u32) | (c.2 as u32)
}

/// The color held in the low 24 bits of a 32-bit ARGB value.
pub open spec fn unpack_argb(argb: u32) -> Rgb {
    (((argb >> 16u32) & 0xFFu32) as u8, ((argb >> 8u32) & 0xFFu32) as u8, (argb & 0xFFu32) as u8)
}

/// Cache slot of the window pixel `(cx, cy)`: 580 slots per row.
pub open spec fn store_slot(cx: int, cy: int) -> int {
    cy * 580 + cx
}

/// The window cache `store` and its placement at `(wx, wy)` compute within
/// `i32` and `usize`.
pub open spec fn store_fits(wx: int, wy: int, ww: int, wh: int) -> bool {
    &&& 0 <= ww <= i32::MAX
    &&& 0 <= wh <= i32::MAX
    &&& wx + ww <= i32::MAX
    &&& wy + wh <= i32::MAX
    &&& wh * 580 + ww <= usize::MAX
}

/// The color of screen pixel `(px, py)`, previously `old`, once the cache
/// `pixels` of a `ww x wh` window is copied back to the screen at `(wx, wy)`.
pub open spec fn restored_pixel(
    old: Rgb,
    pixels: Seq<u32>,
    px: int,
    py: int,
    wx: int,
    wy: int,
    ww: int,
    wh: int,
) -> Rgb {
    let cx = px - wx;
    let cy = py - wy;
    if 0 <= cx < ww && 0 <= cy < wh && store_slot(cx, cy) < pixels.len() {
        unpack_argb(pixels[store_slot(cx, cy)])
    } else {
        old
    }
}

/// Copies the cached contents of a window back to the screen at `(wx, wy)`;
/// an empty cache copies nothing. Slots past the cache's end are skipped.
pub fn restore_window_backing_store(canvas: &mut Canvas, store: &WindowBackingStore, wx: i32, wy: i32)
    requires
        store_fits(wx as int, wy as int, store.width as int, store.height as int),
    ensures
        final(canvas).same_shape(old(canvas)),
        forall|px: int, py: int|
            final(canvas).in_bounds(px, py) ==> #[trigger] final(canvas).pixel(px, py)
                == restored_pixel(
                old(canvas).pixel(px, py),
                store.pixels@,
                px,
                py,
                wx as int,
                wy as int,
                store.width as int,
                store.height as int,
            ),
{
    let ww = store.width as usize;
    let wh = store.height as usize;
    if ww == 0 || wh == 0 {
        return;
    }
    let sw = canvas.width();
    let sh = canvas.height();
    let plen = store.pixels.len();
    let ghost before = *canvas;
    let mut cy: usize = 0;
    while cy < wh
        invariant
            cy <= wh,
            ww == store.width,
            wh == store.height,
            plen == store.pixels@.len(),
            sw == before.spec_width(),
            sh == before.spec_height(),
            store_fits(wx as int, wy as int, ww as int, wh as int),
            canvas.same_shape(&before),
            forall|px: int, py: int|
                canvas.in_bounds(px, py) ==> #[trigger] canvas.pixel(px, py) == (if py - wy < cy {
                    restored_pixel(
                        before.pixel(px, py),
                        store.pixels@,
                        px,
                        py,
                        wx as int,
                        wy as int,
                        ww as int,
                        wh as int,
                    )
                } else {
                    before.pixel(px, py)
                }),
        decreases wh - cy,
    {
        let screen_y = wy + cy as i32;
        let mut cx: usize = 0;
        while cx < ww
            invariant
                cy < wh,
                cx <= ww,
                ww == store.width,
                wh == store.height,
                plen == store.pixels@.len(),
                sw == before.spec_width(),
                sh == before.spec_height(),
                screen_y == wy + cy,
                store_fits(wx as int, wy as int, ww as int, wh as int),
                canvas.same_shape(&before),
                forall|px: int, py: int|
                    canvas.in_bounds(px, py) ==> #[trigger] canvas.pixel(px, py) == (if py - wy < cy
                        || (py - wy == cy && px - wx < cx) {
                        restored_pixel(
                            before.pixel(px, py),
                            store.pixels@,
                            px,
                            py,
                            wx as int,
                            wy as int,
                            ww as int,
                            wh as int,
                        )
                    } else {
                        before.pixel(px, py)
                    }),
            decreases ww - cx,
        {
            let screen_x = wx + cx as i32;
            let store_idx = cy * BACKING_STORE_WIDTH + cx;
            if screen_y >= 0 && screen_y < sh && screen_x >= 0 && screen_x < sw && store_idx < plen {
                let argb = store.pixels[store_idx];
                let r = ((argb >> 16) & 0xFF) as u8;
                let g = ((argb >> 8) & 0xFF) as u8;
                let b = (argb & 0xFF) as u8;
                canvas.draw_pixel(screen_x, screen_y, r, g, b);
            }
            cx = cx + 1;
        }
        cy = cy + 1;
    }
}


/// Whether the snapshot writes cache slot `i` from window row `r` (column
/// `i - 580 * r`, below `col_limit`): the pixel is on the `sw x sh` screen and
/// the slot inside the cache of `len` slots.
pub open spec fn writes_slot(i: int, r: int, col_limit: int, wx: int, wy: int, sw: int, sh: int, len: int) -> bool {
    let c = i - 580 * r;
    &&& 0 <= c < col_limit
    &&& 0 <= wx + c < sw
    &&& 0 <= wy + r < sh
    &&& i < len
}

/// The last window row, at most `r`, whose pixel the snapshot stores in
/// slot `i`: row `r` counts columns below `col_limit`, earlier rows up to `ww`.
pub open spec fn last_writer(
    i: int,
    r: int,
    col_limit: int,
    ww: int,
    wx: int,
    wy: int,
    sw: int,
    sh: int,
    len: int,
) -> Option<int>
    decreases r + 1,
{
    if r < 0 {
        None
    } else if writes_slot(i, r, col_limit, wx, wy, sw, sh, len) {
        Some(r)
    } else {
        last_writer(i, r - 1, ww, ww, wx, wy, sw, sh, len)
    }
}

/// Slot `i` of a window cache, previously `old`, after the `ww x wh` window
/// at `(wx, wy)` is captured from `canvas`: the pixel of the last window row
/// stored there (wider windows wrap into later rows' slots), or `old`.
pub open spec fn snapshot_slot(
    old: u32,
    canvas: &Canvas,
    i: int,
    wx: int,
    wy: int,
    ww: int,
    wh: int,
    len: int,
) -> u32 {
    match last_writer(
        i,
        wh - 1,
        ww,
        ww,
        wx,
        wy,
        canvas.spec_width(),
        canvas.spec_height(),
        len,
    ) {
        Some(r) => pack_argb(canvas.pixel(wx + i - 580 * r, wy + r)),
        None => old,
    }
}

fn pack(c: Rgb) -> (v: u32)
    ensures
        v == pack_argb(c),
{
    0xFF00_0000u32 | ((c.0 as u32) << 16u32) | ((c.1 as u32) << 8u32) | (c.2 as u32)
}

/// Captures the `ww x wh` window at `(wx, wy)` from the screen into the
/// cache `store` as opaque ARGB, 580 slots per window row; pixels off the
/// screen and slots past the cache's end are skipped. An empty window leaves
/// the cache as it was.
pub fn snapshot_window_backing_store(
    store: &mut WindowBackingStore,
    canvas: &Canvas,
    wx: i32,
    wy: i32,
    ww: usize,
    wh: usize,
)
    requires
        store_fits(wx as int, wy as int, ww as int, wh as int),
    ensures
        (ww == 0 || wh == 0) ==> *final(store) == *old(store),
        (ww > 0 && wh > 0) ==> {
            &&& final(store).width == ww
            &&& final(store).height == wh
            &&& final(store).is_dirty == old(store).is_dirty
            &&& final(store).pixels@.len() == old(store).pixels@.len()
            &&& forall|i: int|
                0 <= i < old(store).pixels@.len() ==> #[trigger] final(store).pixels@[i]
                    == snapshot_slot(
                    old(store).pixels@[i],
                    canvas,
                    i,
                    wx as int,
                    wy as int,
                    ww as int,
                    wh as int,
                    old(store).pixels@.len() as int,
                )
        },
{
    if ww == 0 || wh == 0 {
        return;
    }
    let sw = canvas.width();
    let sh = canvas.height();
    store.width = ww as u32;
    store.height = wh as u32;
    let plen = store.pixels.len();
    let ghost start = store.pixels@;
    let mut cy: usize = 0;
    while cy < wh
        invariant
            cy <= wh,
            store_fits(wx as int, wy as int, ww as int, wh as int),
            ww > 0,
            plen == start.len(),
            store.pixels@.len() == start.len(),
            sw == canvas.spec_width(),
            sh == canvas.spec_height(),
            store.width == ww,
            store.height == wh,
            store.is_dirty == old(store).is_dirty,
            start == old(store).pixels@,
            forall|i: int|
                0 <= i < start.len() ==> #[trigger] store.pixels@[i] == match last_writer(
                    i,
                    cy - 1,
                    ww as int,
                    ww as int,
                    wx as int,
                    wy as int,
                    sw as int,
                    sh as int,
                    start.len() as int,
                ) {
                    Some(r) => pack_argb(canvas.pixel(wx + i - 580 * r, wy + r)),
                    None => start[i],
                },
        decreases wh - cy,
    {
        let screen_y = wy + cy as i32;
        let mut cx: usize = 0;
        while cx < ww
            invariant
                cy < wh,
                cx <= ww,
                store_fits(wx as int, wy as int, ww as int, wh as int),
                ww > 0,
                plen == start.len(),
                store.pixels@.len() == start.len(),
                sw == canvas.spec_width(),
                sh == canvas.spec_height(),
                screen_y == wy + cy,
                store.width == ww,
                store.height == wh,
                store.is_dirty == old(store).is_dirty,
                start == old(store).pixels@,
                forall|i: int|
                    0 <= i < start.len() ==> #[trigger] store.pixels@[i] == match last_writer(
                        i,
                        cy as int,
                        cx as int,
                        ww as int,
                        wx as int,
                        wy as int,
                        sw as int,
                        sh as int,
                        start.len() as int,
                    ) {
                        Some(r) => pack_argb(canvas.pixel(wx + i - 580 * r, wy + r)),
                        None => start[i],
                    },
            decreases ww - cx,
        {
            let screen_x = wx + cx as i32;
            let store_idx = cy * BACKING_STORE_WIDTH + cx;
            let write = screen_y >= 0 && screen_y < sh && screen_x >= 0 && screen_x < sw
                && store_idx < plen;
            if write {
                let c = match canvas.get_pixel(screen_x, screen_y) {
                    Some(p) => p,
                    None => (0u8, 0u8, 0u8),
                };
                store.pixels.set(store_idx, pack(c));
            }
            proof {
                assert forall|i: int| 0 <= i < start.len() implies #[trigger] store.pixels@[i]
                    == match last_writer(
                    i,
                    cy as int,
                    cx + 1,
                    ww as int,
                    wx as int,
                    wy as int,
                    sw as int,
                    sh as int,
                    start.len() as int,
                ) {
                    Some(r) => pack_argb(canvas.pixel(wx + i - 580 * r, wy + r)),
                    None => start[i],
                } by {
                    assert(writes_slot(
                        i,
                        cy as int,
                        cx + 1,
                        wx as int,
                        wy as int,
                        sw as int,
                        sh as int,
                        start.len() as int,
                    ) == (writes_slot(
                        i,
                        cy as int,
                        cx as int,
                        wx as int,
                        wy as int,
                        sw as int,
                        sh as int,
                        start.len() as int,
                    ) || (i == store_idx && write)));
                }
            }
            cx = cx + 1;
        }
        proof {
            assert forall|i: int| 0 <= i < start.len() implies last_writer(
                i,
                cy + 1 - 1,
                ww as int,
                ww as int,
                wx as int,
                wy as int,
                sw as int,
                sh as int,
                start.len() as int,
            ) == last_writer(
                i,
                cy as int,
                ww as int,
                ww as int,
                wx as int,
                wy as int,
                sw as int,
                sh as int,
                start.len() as int,
            ) by {}
        }
        cy = cy + 1;
    }
}


proof fn lemma_unpack_pack(c: Rgb)
    ensures
        unpack_argb(pack_argb(c)) == c,
{
    let r = c.0;
    let g = c.1;
    let b = c.2;
    assert((((0xFF00_0000u32 | ((r as u32) << 16u32) | ((g as u32) << 8u32) | (b as u32)) >> 16u32)
        & 0xFFu32) as u8 == r) by (bit_vector);
    assert((((0xFF00_0000u32 | ((r as u32) << 16u32) | ((g as u32) << 8u32) | (b as u32)) >> 8u32)
        & 0xFFu32) as u8 == g) by (bit_vector);
    assert(((0xFF00_0000u32 | ((r as u32) << 16u32) | ((g as u32) << 8u32) | (b as u32))
        & 0xFFu32) as u8 == b) by (bit_vector);
}

proof fn lemma_last_writer_row(
    i: int,
    r: int,
    cy: int,
    ww: int,
    wx: int,
    wy: int,
    sw: int,
    sh: int,
    len: int,
)
    requires
        0 <= cy <= r,
        0 <= i - 580 * cy < ww,
        ww <= 580,
        writes_slot(i, cy, ww, wx, wy, sw, sh, len),
    ensures
        last_writer(i, r, ww, ww, wx, wy, sw, sh, len) == Some(cy),
    decreases r,
{
    if r > cy {
        assert(i - 580 * r < 0);
        lemma_last_writer_row(i, r - 1, cy, ww, wx, wy, sw, sh, len);
    }
}

/// A window at most 580 pixels wide that was captured into its cache comes
/// back unchanged: restoring the cache at the same place gives every captured
/// pixel its color at capture time.
pub proof fn law_snapshot_then_restore(
    canvas: &Canvas,
    before: Seq<u32>,
    after: Seq<u32>,
    old: Rgb,
    wx: int,
    wy: int,
    ww: int,
    wh: int,
    px: int,
    py: int,
)
    requires
        0 < ww <= 580,
        0 < wh,
        after.len() == before.len(),
        forall|i: int|
            0 <= i < before.len() ==> #[trigger] after[i] == snapshot_slot(
                before[i],
                canvas,
                i,
                wx,
                wy,
                ww,
                wh,
                before.len() as int,
            ),
        canvas.in_bounds(px, py),
        0 <= px - wx < ww,
        0 <= py - wy < wh,
        store_slot(px - wx, py - wy) < before.len(),
    ensures
        restored_pixel(old, after, px, py, wx, wy, ww, wh) == canvas.pixel(px, py),
{
    let cx = px - wx;
    let cy = py - wy;
    let i = store_slot(cx, cy);
    lemma_last_writer_row(
        i,
        wh - 1,
        cy,
        ww,
        wx,
        wy,
        canvas.spec_width(),
        canvas.spec_height(),
        before.len() as int,
    );
    assert(after[i] == pack_argb(canvas.pixel(px, py)));
    lemma_unpack_pack(canvas.pixel(px, py));
}


/// Title of application `i` on the Applications screen.
pub open spec fn app_title(i: int) -> &'static str {
    if i == 0 {
        "System Monitor"
    } else if i == 1 {
        "Console"
    } else if i == 2 {
        "File Manager"
    } else if i == 3 {
        "Settings"
    } else if i == 4 {
        "Radiation Simulator"
    } else {
        "Shut Down"
    }
}

/// The six applications of the Applications screen, in order: each opens the
/// window with its own number and shows the icon of that number.
pub fn all_apps() -> (a: [AppInfo; 6])
    ensures
        forall|i: int| 0 <= i < 6 ==> (#[trigger] a@[i]).title == app_title(i) && a@[i].id == i
            && a@[i].icon_type == i,
{
    [
        AppInfo { title: "System Monitor", id: 0, icon_type: 0 },
        AppInfo { title: "Console", id: 1, icon_type: 1 },
        AppInfo { title: "File Manager", id: 2, icon_type: 2 },
        AppInfo { title: "Settings", id: 3, icon_type: 3 },
        AppInfo { title: "Radiation Simulator", id: 4, icon_type: 4 },
        AppInfo { title: "Shut Down", id: 5, icon_type: 5 },
    ]
}

/// The applications among `0..n` whose title matches `query` (see
/// `contains_ignoring_case`), in order.
pub open spec fn matching_upto(query: Seq<u8>, n: int) -> Seq<usize>
    decreases n,
{
    if n <= 0 {
        seq![]
    } else {
        let before = matching_upto(query, n - 1);
        if contains_ignoring_case(app_title(n - 1).spec_bytes(), query) {
            before.push((n - 1) as usize)
        } else {
            before
        }
    }
}

/// At most `n` applications among `0..n` match.
pub proof fn lemma_matching_upto_len(query: Seq<u8>, n: int)
    ensures
        matching_upto(query, n).len() <= if n >= 0 { n } else { 0 },
    decreases n,
{
    if n > 0 {
        lemma_matching_upto_len(query, n - 1);
    }
}

/// Every application that matches among `0..n` is one of them.
pub proof fn lemma_matching_upto_below(query: Seq<u8>, n: int)
    ensures
        forall|k: int| 0 <= k < matching_upto(query, n).len() ==> (#[trigger] matching_upto(query, n)[k]) < n
            || n <= 0,
        n <= 0 ==> matching_upto(query, n).len() == 0,
    decreases n,
{
    if n > 0 {
        lemma_matching_upto_below(query, n - 1);
        let before = matching_upto(query, n - 1);
        assert forall|k: int| 0 <= k < matching_upto(query, n).len() implies (#[trigger] matching_upto(
            query,
            n,
        )[k]) < n by {
            if k < before.len() {
                assert(before[k] < n - 1 || n - 1 <= 0);
            }
        }
    }
}

/// The applications whose title matches the search query, in order (see
/// `matching_upto`).
pub fn matching_apps(query: &str) -> (m: Vec<usize>)
    ensures
        m@ == matching_upto(query.spec_bytes(), 6),
{
    let apps = all_apps();
    let mut m: Vec<usize> = Vec::new();
    let mut i: usize = 0;
    while i < 6
        invariant
            i <= 6,
            forall|k: int| 0 <= k < 6 ==> (#[trigger] apps@[k]).title == app_title(k),
            m@ == matching_upto(query.spec_bytes(), i as int),
        decreases 6 - i,
    {
        let app = &apps[i];
        if matches_search(app.title, query) {
            m.push(i);
        }
        i = i + 1;
    }
    m
}

/// Whether the search box's text cursor shows at tick `ticks`: it blinks,
/// 30 ticks on and 30 off.
pub fn search_cursor_visible(ticks: u64) -> (b: bool)
    ensures
        b == ((ticks / 30) % 2 == 0),
{
    (ticks / 30) % 2 == 0
}

} // verus!
