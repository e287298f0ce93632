//! Mouse handling for the file manager window: scrolling by dragging, and
//! clicks on the toolbar, the scrollbar, the item listing and the modal dialog.
use vstd::prelude::*;
use crate::strings::root_path;
use crate::file_manager::state::{
    FileManagerState, ModalRequest, MODAL_NEW_FOLDER, MODAL_NEW_FILE, MODAL_CONFIRM_DELETE,
    shown_path, parent_path, trunc_div, grid_columns, scrolled_down, scrolled_up,
    is_modal_request_for, submitted, execute_modal_action, div_i32,
};

verus! {

/// Width of the item listing for a window `win_width` pixels wide: all but 170
/// pixels, at least 180.
pub open spec fn list_width_of(win_width: int) -> int {
    if win_width - 170 >= 180 {
        win_width - 170
    } else {
        180
    }
}

/// Height of the listing's view for a window `win_height` pixels high.
pub open spec fn container_height_of(win_height: int) -> int {
    win_height - 106
}

/// Whether the window-relative point `(rx, ry)` is over the item listing's
/// scrolling area (drag target).
pub open spec fn in_drag_area(rx: int, ry: int, win_width: int, win_height: int) -> bool {
    ry >= 76 && ry < win_height - 30 && rx >= 12 && rx <= list_width_of(win_width) + 16
}

/// The width of a window body as the file manager computes with it.
pub open spec fn width_of(win_width: usize) -> int {
    win_width as i32 as int
}

/// The height of a window body as the file manager computes with it.
pub open spec fn height_of(win_height: usize) -> int {
    win_height as i32 as int
}

/// The values a drag computes with stay within `i32`: the window-relative
/// cursor, the window's size, and the scroll by twice the distance.
pub open spec fn drag_fits(
    s: FileManagerState,
    dy: int,
    cursor_x: int,
    cursor_y: int,
    ax: int,
    ay: int,
    ww: int,
    wh: int,
) -> bool {
    let over = in_drag_area(cursor_x - ax, cursor_y - ay, ww, wh);
    &&& i32::MIN <= cursor_x - ax <= i32::MAX
    &&& i32::MIN <= cursor_y - ay <= i32::MAX
    &&& ww >= i32::MIN + 170
    &&& wh >= i32::MIN + 106
    &&& (over && dy < 0) ==> {
        &&& -dy * 2 <= i32::MAX
        &&& s.scroll_offset - dy * 2 <= i32::MAX
        &&& s.scroll_fits(container_height_of(wh), list_width_of(ww))
    }
    &&& (over && dy > 0) ==> {
        &&& dy * 2 <= i32::MAX
        &&& s.scroll_offset - dy * 2 >= i32::MIN
    }
}

/// Scrolls the item listing when the mouse is dragged vertically over it by
/// `dy` pixels: dragging up scrolls down by twice the distance and dragging
/// down scrolls up by twice the distance.
pub fn handle_file_manager_mouse_drag(
    state: &mut FileManagerState,
    dy: i32,
    cursor_x: i32,
    cursor_y: i32,
    ax: i32,
    ay: i32,
    win_width: usize,
    win_height: usize,
)
    requires
        drag_fits(
            *old(state),
            dy as int,
            cursor_x as int,
            cursor_y as int,
            ax as int,
            ay as int,
            width_of(win_width),
            height_of(win_height),
        ),
    ensures
        final(state).same_except_scroll(old(state)),
        final(state).scroll_offset == (if in_drag_area(
            cursor_x - ax,
            cursor_y - ay,
            width_of(win_width),
            height_of(win_height),
        ) && dy < 0 {
            scrolled_down(
                old(state).scroll_offset as int,
                -dy * 2,
                old(state).spec_max_scroll(
                    container_height_of(height_of(win_height)),
                    list_width_of(width_of(win_width)),
                ),
            )
        } else if in_drag_area(cursor_x - ax, cursor_y - ay, width_of(win_width), height_of(win_height))
            && dy > 0 {
            scrolled_up(old(state).scroll_offset as int, dy * 2)
        } else {
            old(state).scroll_offset as int
        }),
{
    let rx = cursor_x - ax;
    let ry = cursor_y - ay;
    let ww = win_width as i32;
    let wh = win_height as i32;
    let list_width = if ww - 170 >= 180 { ww - 170 } else { 180 };
    let container_h = wh - 106;
    if ry >= 76 && ry < wh - 30 && rx >= 12 && rx <= list_width + 16 {
        if dy < 0 {
            state.scroll_down(-dy * 2, container_h, list_width);
        } else if dy > 0 {
            state.scroll_up(dy * 2);
        }
    }
}

/// Outside work, or work on floating-point values, that a click asks for.
#[derive(Debug, PartialEq, Eq)]
pub enum ClickRequest {
    /// Nothing to do.
    Nothing,
    /// The modal dialog was submitted and makes this request.
    Modal(ModalRequest),
    /// The scrollbar track was clicked: scroll to
    /// `track_rel_y / track_h * max_scroll` (then see `set_track_scroll`).
    ScrollTrack { track_rel_y: i32, track_h: i32, max_scroll: i32 },
    /// An entry of the listing was clicked: read the listing of `dir` and pass
    /// it with `index` to `open_entry`.
    OpenEntry { dir: Vec<u8>, index: i32 },
}

/// Left edge of the modal dialog for a window at `ax` that is `win_width` wide.
pub open spec fn modal_left(ax: int, win_width: int) -> int {
    ax + trunc_div(win_width - 280, 2)
}

/// Top edge of the modal dialog for a window at `ay` that is `win_height` high.
pub open spec fn modal_top(ay: int, win_height: int) -> int {
    ay + trunc_div(win_height - 140, 2)
}

/// Whether the click is on the modal dialog's Cancel button.
pub open spec fn on_modal_cancel(cx: int, cy: int, mx: int, my: int) -> bool {
    cy >= my + 92 && cy <= my + 120 && cx >= mx + 104 && cx <= mx + 174
}

/// Whether the click is on the modal dialog's action button.
pub open spec fn on_modal_ok(cx: int, cy: int, mx: int, my: int) -> bool {
    cy >= my + 92 && cy <= my + 120 && cx >= mx + 184 && cx <= mx + 264
}

/// The toolbar button at window-relative column `rx` in a window `win_width`
/// wide: 1 back, 2 root, 3 refresh, 4 view mode, 5 new folder, 6 new file,
/// 7 delete, 0 none (the first match in that order).
pub open spec fn toolbar_button(rx: int, win_width: int) -> int {
    if 14 <= rx <= 30 {
        1
    } else if 34 <= rx <= 50 {
        2
    } else if 54 <= rx <= 70 {
        3
    } else if 74 <= rx <= 98 {
        4
    } else if win_width - 134 <= rx <= win_width - 88 {
        5
    } else if win_width - 84 <= rx <= win_width - 42 {
        6
    } else if win_width - 38 <= rx <= win_width - 14 {
        7
    } else {
        0
    }
}

/// Whether the window-relative click `(rx, ry)` is in the toolbar row.
pub open spec fn in_toolbar_row(ry: int) -> bool {
    38 <= ry <= 68
}

/// Whether the window-relative click is on the scrollbar column of the listing.
pub open spec fn on_scrollbar(rx: int, ry: int, lw: int, win_height: int) -> bool {
    rx >= lw - 16 && rx <= lw + 10 && ry >= 76 && ry < win_height - 30
}

/// Whether the window-relative click is on the listing's items.
pub open spec fn on_items(rx: int, ry: int, lw: int) -> bool {
    ry >= 76 && rx >= 12 && rx < lw - 16
}

/// The entry index under the window-relative click: the row in list view; in
/// grid view the card, -1 left or right of the columns.
pub open spec fn clicked_index(view_mode: u32, scroll: int, rx: int, ry: int, lw: int) -> int {
    if view_mode == 0 {
        trunc_div(ry - 76 + scroll, 28)
    } else {
        let cols = grid_columns(lw);
        let c = trunc_div(rx - 16, 74);
        let r = trunc_div(ry - 76 + scroll, 70);
        if c >= 0 && c < cols {
            r * cols + c
        } else {
            -1
        }
    }
}

/// In grid view, the row of cards times the column count under the click.
pub open spec fn grid_row_start(scroll: int, ry: int, lw: int) -> int {
    trunc_div(ry - 76 + scroll, 70) * grid_columns(lw)
}

/// The values a click computes with stay within `i32`: the window-relative
/// cursor, the window's size, the modal dialog's buttons, the scroll by a row,
/// the position on the scrollbar's track, and the row under the cursor.
pub open spec fn click_fits(
    s: FileManagerState,
    cursor_x: int,
    cursor_y: int,
    ax: int,
    ay: int,
    ww: int,
    wh: int,
) -> bool {
    let rx = cursor_x - ax;
    let ry = cursor_y - ay;
    let lw = list_width_of(ww);
    &&& i32::MIN <= rx <= i32::MAX
    &&& i32::MIN <= ry <= i32::MAX
    &&& ww >= i32::MIN + 280
    &&& wh >= i32::MIN + 142
    &&& s.modal_mode > 0 ==> {
        &&& i32::MIN <= modal_left(ax, ww) <= i32::MAX - 264
        &&& i32::MIN <= modal_top(ay, wh) <= i32::MAX - 120
    }
    &&& (s.modal_mode == 0 && on_scrollbar(rx, ry, lw, wh)) ==> {
        &&& s.scroll_offset >= i32::MIN + 28
        &&& s.scroll_offset <= i32::MAX - 28
    }
    &&& (s.modal_mode == 0 && on_items(rx, ry, lw)) ==> {
        &&& ry - 76 + s.scroll_offset <= i32::MAX
        &&& ry - 76 + s.scroll_offset >= i32::MIN
    }
}

/// Whether a click needs the scroll limit: on the scrollbar, off its two buttons.
pub open spec fn click_needs_scroll_limit(rx: int, ry: int, win_width: int, win_height: int) -> bool {
    let lw = list_width_of(win_width);
    on_scrollbar(rx, ry, lw, win_height) && !(76 <= ry <= 92)
}

/// Handles a click inside the file manager window at screen point
/// `(cursor_x, cursor_y)`, the window body starting at `(ax, ay)`.
///
/// With a modal dialog open only its Cancel (closes it) and action (submits
/// it) buttons respond. Otherwise the toolbar buttons go back, go to the root,
/// clear the selection, switch the view, open the new-folder, new-file or
/// (with a selection) delete dialog; the scrollbar buttons scroll by a row and
/// the track jumps; a click on the listing opens the entry under it.
pub fn handle_file_manager_click(
    state: &mut FileManagerState,
    cursor_x: i32,
    cursor_y: i32,
    ax: i32,
    ay: i32,
    win_width: usize,
    win_height: usize,
) -> (req: ClickRequest)
    requires
        old(state).wf(),
        click_fits(
            *old(state),
            cursor_x as int,
            cursor_y as int,
            ax as int,
            ay as int,
            width_of(win_width),
            height_of(win_height),
        ),
        (old(state).modal_mode == 0 && click_needs_scroll_limit(
            cursor_x - ax,
            cursor_y - ay,
            width_of(win_width),
            height_of(win_height),
        )) ==> old(state).scroll_fits(
            container_height_of(height_of(win_height)),
            list_width_of(width_of(win_width)),
        ),
        (old(state).modal_mode == 0 && old(state).view_mode != 0 && on_items(
            cursor_x - ax,
            cursor_y - ay,
            list_width_of(width_of(win_width)),
        )) ==> i32::MIN <= grid_row_start(
            old(state).scroll_offset as int,
            cursor_y - ay,
            list_width_of(width_of(win_width)),
        ) <= i32::MAX,
        (old(state).modal_mode == 0 && old(state).view_mode != 0 && on_items(
            cursor_x - ax,
            cursor_y - ay,
            list_width_of(width_of(win_width)),
        )) ==> i32::MIN <= clicked_index(
            old(state).view_mode,
            old(state).scroll_offset as int,
            cursor_x - ax,
            cursor_y - ay,
            list_width_of(width_of(win_width)),
        ) <= i32::MAX,
    ensures
        final(state).wf(),
        ({
            let s = *old(state);
            let t = *final(state);
            let rx = cursor_x - ax;
            let ry = cursor_y - ay;
            let ww = width_of(win_width);
            let wh = height_of(win_height);
            let mx = modal_left(ax as int, ww);
            let my = modal_top(ay as int, wh);
            let lw = list_width_of(ww);
            let ch = container_height_of(wh);
            let button = if in_toolbar_row(ry) {
                toolbar_button(rx, ww)
            } else {
                0
            };
            if s.modal_mode > 0 {
                if on_modal_cancel(cursor_x as int, cursor_y as int, mx, my) {
                    &&& req is Nothing
                    &&& t.modal_mode == 0
                    &&& t.modal_input_len == 0
                    &&& t.same_except_modal(&s)
                } else if on_modal_ok(cursor_x as int, cursor_y as int, mx, my) {
                    req matches ClickRequest::Modal(m) && is_modal_request_for(m, s) && submitted(
                        t,
                        s,
                    )
                } else {
                    req is Nothing && t == s
                }
            } else if button == 1 {
                &&& req is Nothing
                &&& match parent_path(shown_path(s.path())) {
                    Some(p) => t.moved_to(&s, p),
                    None => t == s,
                }
            } else if button == 2 {
                req is Nothing && t.moved_to(&s, root_path())
            } else if button == 3 {
                req is Nothing && t == FileManagerState { selected_index: -1i32, ..s }
            } else if button == 4 {
                req is Nothing && t == FileManagerState {
                    view_mode: if s.view_mode == 0 {
                        1
                    } else {
                        0
                    },
                    scroll_offset: 0,
                    ..s
                }
            } else if button == 5 {
                req is Nothing && t == FileManagerState {
                    modal_mode: MODAL_NEW_FOLDER,
                    modal_input_len: 0,
                    ..s
                }
            } else if button == 6 {
                req is Nothing && t == FileManagerState {
                    modal_mode: MODAL_NEW_FILE,
                    modal_input_len: 0,
                    ..s
                }
            } else if button == 7 {
                req is Nothing && t == (if s.selected_index >= 0 {
                    FileManagerState { modal_mode: MODAL_CONFIRM_DELETE, modal_input_len: 0, ..s }
                } else {
                    s
                })
            } else if on_scrollbar(rx, ry, lw, wh) {
                if 76 <= ry <= 92 {
                    req is Nothing && t == FileManagerState {
                        scroll_offset: scrolled_up(s.scroll_offset as int, 28) as i32,
                        ..s
                    }
                } else if wh - 46 <= ry <= wh - 30 {
                    req is Nothing && t == FileManagerState {
                        scroll_offset: scrolled_down(
                            s.scroll_offset as int,
                            28,
                            s.spec_max_scroll(ch, lw),
                        ) as i32,
                        ..s
                    }
                } else {
                    &&& t == s
                    &&& if s.spec_max_scroll(ch, lw) > 0 {
                        req == ClickRequest::ScrollTrack {
                            track_rel_y: (ry - 94) as i32,
                            track_h: (if ch - 36 >= 1 {
                                ch - 36
                            } else {
                                1
                            }) as i32,
                            max_scroll: s.spec_max_scroll(ch, lw) as i32,
                        }
                    } else {
                        req is Nothing
                    }
                }
            } else if on_items(rx, ry, lw) && clicked_index(
                s.view_mode,
                s.scroll_offset as int,
                rx,
                ry,
                lw,
            ) >= 0 {
                &&& t == s
                &&& req matches ClickRequest::OpenEntry { dir, index }
                &&& dir@ == shown_path(s.path())
                &&& index == clicked_index(s.view_mode, s.scroll_offset as int, rx, ry, lw)
            } else {
                req is Nothing && t == s
            }
        }),
{
    let rx = cursor_x - ax;
    let ry = cursor_y - ay;
    let ww = win_width as i32;
    let wh = win_height as i32;
    if state.modal_mode > 0 {
        let mw: i32 = 280;
        let mh: i32 = 140;
        let mx = ax + half(ww - mw);
        let my = ay + half(wh - mh);
        if cursor_y >= my + 92 && cursor_y <= my + 120 && cursor_x >= mx + 104 && cursor_x <= mx
            + 174 {
            state.close_modal();
            return ClickRequest::Nothing;
        }
        if cursor_y >= my + 92 && cursor_y <= my + 120 && cursor_x >= mx + 184 && cursor_x <= mx
            + 264 {
            let m = execute_modal_action(state);
            return ClickRequest::Modal(m);
        }
        return ClickRequest::Nothing;
    }
    if ry >= 38 && ry <= 68 {
        if rx >= 14 && rx <= 30 {
            state.pop_dir();
            return ClickRequest::Nothing;
        } else if rx >= 34 && rx <= 50 {
            state.set_path_root();
            return ClickRequest::Nothing;
        } else if rx >= 54 && rx <= 70 {
            state.selected_index = -1;
            return ClickRequest::Nothing;
        } else if rx >= 74 && rx <= 98 {
            state.toggle_view_mode();
            return ClickRequest::Nothing;
        } else if rx >= ww - 134 && rx <= ww - 88 {
            state.open_modal(MODAL_NEW_FOLDER);
            return ClickRequest::Nothing;
        } else if rx >= ww - 84 && rx <= ww - 42 {
            state.open_modal(MODAL_NEW_FILE);
            return ClickRequest::Nothing;
        } else if rx >= ww - 38 && rx <= ww - 14 {
            if state.selected_index >= 0 {
                state.open_modal(MODAL_CONFIRM_DELETE);
            }
            return ClickRequest::Nothing;
        }
    }
    let list_width = if ww - 170 >= 180 { ww - 170 } else { 180 };
    let view_mode = state.view_mode;
    let scroll_offset = state.scroll_offset;
    let container_h = wh - 106;
    if rx >= list_width - 16 && rx <= list_width + 10 && ry >= 76 && ry < wh - 30 {
        if ry >= 76 && ry <= 92 {
            state.scroll_up(28);
            return ClickRequest::Nothing;
        } else if ry >= wh - 46 && ry <= wh - 30 {
            state.scroll_down(28, container_h, list_width);
            return ClickRequest::Nothing;
        } else {
            let max_scroll = state.calculate_max_scroll(container_h, list_width);
            if max_scroll > 0 {
                let track_h = if container_h - 36 >= 1 { container_h - 36 } else { 1 };
                return ClickRequest::ScrollTrack { track_rel_y: ry - 94, track_h, max_scroll };
            }
            return ClickRequest::Nothing;
        }
    }
    if ry >= 76 && rx >= 12 && rx < list_width - 16 {
        let clicked_idx = if view_mode == 0 {
            div_i32(ry - 76 + scroll_offset, 28)
        } else {
            let c0 = div_i32(list_width - 24, 74);
            let cols = if c0 >= 1 { c0 } else { 1 };
            let c = div_i32(rx - 16, 74);
            let r = div_i32(ry - 76 + scroll_offset, 70);
            if c >= 0 && c < cols {
                proof {
                    assert(r * cols + c == clicked_index(
                        view_mode,
                        scroll_offset as int,
                        rx as int,
                        ry as int,
                        list_width as int,
                    ));
                }
                r * cols + c
            } else {
                -1
            }
        };
        if clicked_idx < 0 {
            return ClickRequest::Nothing;
        }
        let dir = state.shown_path_vec();
        return ClickRequest::OpenEntry { dir, index: clicked_idx };
    }
    ClickRequest::Nothing
}

/// Sets the scroll offset to `target` kept within `0..=max_scroll`, after a
/// click on the scrollbar track.
pub fn set_track_scroll(state: &mut FileManagerState, target: i32, max_scroll: i32)
    ensures
        *final(state) == (FileManagerState {
            scroll_offset: (if target <= max_scroll {
                if target >= 0 {
                    target
                } else {
                    0
                }
            } else {
                if max_scroll >= 0 {
                    max_scroll
                } else {
                    0
                }
            }),
            ..*old(state)
        }),
{
    let t = if target <= max_scroll { target } else { max_scroll };
    state.scroll_offset = if t >= 0 { t } else { 0 };
}

/// Half of `v`, rounded toward zero as Rust's `/` does.
fn half(v: i32) -> (h: i32)
    ensures
        h == trunc_div(v as int, 2),
{
    div_i32(v, 2)
}

/// Where each toolbar button sits, from the window's left edge for the
/// navigation buttons and from its right edge (`win_width`) for the
/// operations: a column in a button's span that no button further left
/// claims presses that button. In particular the span `win_width - 84` to
/// `win_width - 42` is the new-file button (6), left of the delete button
/// (7) and right of the new-folder button (5).
pub proof fn law_toolbar_buttons_by_place(rx: int, win_width: int)
    ensures
        14 <= rx <= 30 ==> toolbar_button(rx, win_width) == 1,
        34 <= rx <= 50 ==> toolbar_button(rx, win_width) == 2,
        54 <= rx <= 70 ==> toolbar_button(rx, win_width) == 3,
        74 <= rx <= 98 ==> toolbar_button(rx, win_width) == 4,
        (!(14 <= rx <= 98) && win_width - 134 <= rx <= win_width - 88) ==> toolbar_button(rx, win_width) == 5,
        (!(14 <= rx <= 98) && !(win_width - 134 <= rx <= win_width - 88) && win_width - 84 <= rx
            <= win_width - 42) ==> toolbar_button(rx, win_width) == 6,
        (!(14 <= rx <= 98) && !(win_width - 134 <= rx <= win_width - 42) && win_width - 38 <= rx
            <= win_width - 14) ==> toolbar_button(rx, win_width) == 7,
        toolbar_button(rx, win_width) == 6 ==> win_width - 84 <= rx <= win_width - 42,
        toolbar_button(rx, win_width) == 5 ==> win_width - 134 <= rx <= win_width - 88,
{
}

} // verus!
