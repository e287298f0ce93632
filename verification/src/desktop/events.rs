//! What the desktop does on a keyboard, mouse or serial event: console input,
//! the Applications screen and its search, the dock, and clicks, drags and
//! releases on windows (the settings window's tabs and shadow switch, and
//! presses handed on to the file manager).
//!
//! The dock's magnified layout and each window's hit areas and drawn position
//! are worked out elsewhere and handed in as `PointerLayout` and `WindowHit`
//! values; outside work that an event asks for comes back as a
//! `DesktopAction`.
use vstd::prelude::*;
use crate::desktop::window::{
    Window, TitleButton, title_button, title_button_at, initial_windows, initial_slots, begin_close, closing, toggle_maximize,
    maximize_toggled, DOCK_RESERVE, MONITOR_ID, FILES_ID, CONSOLE_ID, SETTINGS_ID,
};
use crate::desktop::stack::{
    count_windows, occupied, raise_window, raised, unfocus_all, all_unfocused, release_drag,
    all_released, terminal_focused, console_focused, find_window, first_slot_from, drag_windows,
    dragged, drag_regions, drag_fits,
};
use crate::dirty::{DirtyRect, DirtyRectTracker, after_adds};
use crate::input::InputState;
use crate::settings::tab_top;
use crate::state::SearchQuery;
use crate::graphics::compositor::{matching_apps, matching_upto, card_layout, get_app_card_layout};
use vstd::utf8::valid_utf8;

verus! {

/// An input event as the kernel delivers it.
#[derive(Clone, Copy, Debug, PartialEq, Eq)]
pub struct InputEvent {
    /// 0 none, 1 keyboard, 2 mouse.
    pub event_type: u32,
    /// Decoded character or special key code.
    pub keyboard_key: u32,
    /// Cursor column.
    pub mouse_x: i32,
    /// Cursor row.
    pub mouse_y: i32,
    /// 1 while the left button is down.
    pub mouse_left_clicked: u32,
    /// 1 while the right button is down.
    pub mouse_right_clicked: u32,
}

/// Input for the console.
#[derive(Clone, Copy, Debug, PartialEq, Eq)]
pub enum TermInput {
    /// Run the typed command line.
    Submit,
    /// Type this character (8 erases the last one).
    Char(u8),
}

/// Outside work that an event asks for.
#[derive(Clone, Copy, Debug, PartialEq, Eq)]
pub enum DesktopAction {
    /// Nothing.
    Nothing,
    /// Open, raise and focus the window with this identifier.
    FocusWindow(u32),
    /// Shut the system down.
    Shutdown,
}

/// The desktop shell's state as plain values: the window slots, whether the
/// start menu is open, whether it is animating, and whether shadows are on.
pub type ShellState = (Seq<Option<Window>>, bool, bool, bool);

/// The desktop shell's state.
pub struct Desktop {
    /// Window slots, bottom to top.
    pub windows: [Option<Window>; 5],
    /// Whether the start menu is open (or opening).
    pub start_menu_open: bool,
    /// Whether the start menu is sliding open or closed.
    pub start_menu_animating: bool,
    /// Whether windows cast drop shadows.
    pub shadows_enabled: bool,
    /// The settings window's open sidebar tab: 0 Appearance, 1 System, 2 About.
    pub settings_tab: u32,
}

impl Desktop {
    /// The state as plain values.
    pub open spec fn shell(&self) -> ShellState {
        (self.windows@, self.start_menu_open, self.start_menu_animating, self.shadows_enabled)
    }

    /// The desktop at start-up: the initial windows (see `initial_slots`), the
    /// start menu closed and still, shadows off, the Appearance tab open.
    pub fn new() -> (d: Self)
        ensures
            d.shell() == (initial_slots(), false, false, false),
            d.settings_tab == 0,
    {
        Desktop {
            windows: initial_windows(),
            start_menu_open: false,
            start_menu_animating: false,
            shadows_enabled: false,
            settings_tab: 0,
        }
    }
}

/// Where the dock and the start menu are for the current and the previous
/// cursor position (the dock magnifies around the cursor).
#[derive(Clone, Copy, Debug, PartialEq, Eq)]
pub struct PointerLayout {
    /// Left edge of the start menu for the dock laid out around the cursor.
    pub menu_x: i32,
    /// Left edge of the start menu for the dock laid out around the previous cursor.
    pub prev_menu_x: i32,
    /// Left end of the dock.
    pub dock_left: i32,
    /// Right end (exclusive) of the dock.
    pub dock_right: i32,
    /// Left end of each dock item: launcher, monitor, files, console, settings.
    pub item_left: [i32; 5],
    /// Right end (exclusive) of each dock item.
    pub item_right: [i32; 5],
}

/// What the window in a slot reports about the cursor.
#[derive(Clone, Copy, Debug, PartialEq, Eq)]
pub struct WindowHit {
    /// Whether the cursor is on the title bar.
    pub title: bool,
    /// Whether the cursor is on the body.
    pub body: bool,
    /// Left edge where the window is drawn (its animated position).
    pub ax: i32,
    /// Top edge where the window is drawn.
    pub ay: i32,
}

/// A press on the file manager's body, for the file manager to handle (see
/// `file_manager::input::handle_file_manager_click`): the cursor, where the
/// window is drawn, and its size.
#[derive(Clone, Copy, Debug, PartialEq, Eq)]
pub struct FileClick {
    pub cursor_x: i32,
    pub cursor_y: i32,
    pub ax: i32,
    pub ay: i32,
    pub width: usize,
    pub height: usize,
}

/// What a handled event asks of the caller.
#[derive(Clone, Copy, Debug, PartialEq, Eq)]
pub struct InputOutcome {
    /// The screen must be redrawn.
    pub needs_redraw: bool,
    /// Every window's cached contents are stale.
    pub invalidate_caches: bool,
    /// Outside work to do.
    pub action: DesktopAction,
    /// Input for the console, if any.
    pub terminal: Option<TermInput>,
    /// A press on the file manager's body, to be handed to the file manager.
    pub file_click: Option<FileClick>,
}

/// Width of the start menu.
pub const MENU_WIDTH: i32 = 220;
/// Height of the start menu when it is clicked.
pub const MENU_HEIGHT: i32 = 220;
/// Height of the start menu area that keeps the screen redrawing under the cursor.
pub const MENU_HOVER_HEIGHT: i32 = 185;

/// Whether `(px, py)` is in the `w x h` box with corner `(x, y)`.
pub open spec fn in_box(px: int, py: int, x: int, y: int, w: int, h: int) -> bool {
    x <= px < x + w && y <= py < y + h
}

/// Top edge of the dock on a screen `sh` pixels high.
pub open spec fn dock_top(sh: int) -> int {
    sh - 82
}

/// Top edge of a start menu `h` pixels high: 12 pixels above the dock.
pub open spec fn menu_top(sh: int, h: int) -> int {
    dock_top(sh) - h - 12
}

/// The console input for key `key`: Enter runs the line, Backspace erases, any
/// other key code below `0x1000` types its low byte.
pub open spec fn key_input(key: u32) -> Option<TermInput> {
    if key == 0x1001 {
        Some(TermInput::Submit)
    } else if key == 0x1000 {
        Some(TermInput::Char(8))
    } else if key < 0x1000 {
        Some(TermInput::Char(key as u8))
    } else {
        None
    }
}

/// The search query `q` after key `key` is typed on the Applications screen:
/// Backspace erases the last character, a printable ASCII character is
/// appended while the query holds fewer than 64, other keys change nothing.
pub open spec fn typed_query(q: Seq<u8>, key: u32) -> Seq<u8> {
    if key == 0x1000 {
        if q.len() > 0 {
            q.drop_last()
        } else {
            q
        }
    } else if 32 <= key <= 126 {
        if q.len() < 64 {
            q.push(key as u8)
        } else {
            q
        }
    } else {
        q
    }
}

/// The text that the search matches for the query bytes `q`: the bytes
/// themselves, or nothing when they are not UTF-8.
pub open spec fn search_text(q: Seq<u8>) -> Seq<u8> {
    if valid_utf8(q) {
        q
    } else {
        Seq::empty()
    }
}

/// What opening application `a` of the Applications screen asks for: its
/// window (applications 0 to 4 open the window with their number), or
/// shutting down (application 5).
pub open spec fn app_action(a: int) -> DesktopAction {
    if a == 5 {
        DesktopAction::Shutdown
    } else {
        DesktopAction::FocusWindow(a as u32)
    }
}

/// What Enter on the Applications screen opens for the query bytes `q`: the
/// first matching application, if any.
pub open spec fn enter_action(q: Seq<u8>) -> Option<DesktopAction> {
    let m = matching_upto(search_text(q), 6);
    if m.len() > 0 {
        Some(app_action(m[0] as int))
    } else {
        None
    }
}

/// The card under `(cx, cy)` among cards `k..n` of the `n` matching
/// applications on a screen `sw` pixels wide (see `card_layout`).
pub open spec fn card_from(n: int, cx: int, cy: int, sw: int, k: int) -> Option<int>
    decreases n - k,
{
    if k >= n || k < 0 {
        None
    } else {
        let l = card_layout(k, n, sw);
        if in_box(cx, cy, l.0, l.1, l.2, l.3) {
            Some(k)
        } else {
            card_from(n, cx, cy, sw, k + 1)
        }
    }
}

/// What a press at `(cx, cy)` on the Applications screen opens, for the
/// query bytes `q`: the application of the card under the cursor, if any.
pub open spec fn card_action(q: Seq<u8>, cx: int, cy: int, sw: int) -> Option<DesktopAction> {
    let m = matching_upto(search_text(q), 6);
    match card_from(m.len() as int, cx, cy, sw, 0) {
        Some(k) => Some(app_action(m[k] as int)),
        None => None,
    }
}

/// The console input for a byte from the serial line: carriage return or line
/// feed runs the line, backspace or delete erases, printable ASCII types.
pub open spec fn serial_input(b: u8) -> Option<TermInput> {
    if b == 13 || b == 10 {
        Some(TermInput::Submit)
    } else if b == 8 || b == 0x7f {
        Some(TermInput::Char(8))
    } else if 32 <= b <= 126 {
        Some(TermInput::Char(b))
    } else {
        None
    }
}

/// The console inputs for the bytes `bs`, in order.
pub open spec fn serial_inputs(bs: Seq<u8>) -> Seq<TermInput>
    decreases bs.len(),
{
    if bs.len() == 0 {
        seq![]
    } else {
        let rest = serial_inputs(bs.drop_last());
        match serial_input(bs.last()) {
            Some(t) => rest.push(t),
            None => rest,
        }
    }
}

/// The start menu item under `(cx, cy)` among items `i..5` of a menu at
/// `(mx, my)`: rows 27 pixels high, 33 apart from 44 below the top, inset 8.
pub open spec fn menu_item_from(mx: int, my: int, cx: int, cy: int, i: int) -> Option<int>
    decreases 5 - i,
{
    if i >= 5 || i < 0 {
        None
    } else if in_box(cx, cy, mx + 8, my + 44 + i * 33, MENU_WIDTH - 16, 27) {
        Some(i)
    } else {
        menu_item_from(mx, my, cx, cy, i + 1)
    }
}

/// What start menu item `i` asks for: the monitor, the file manager, the
/// console, the settings, or shutting down.
pub open spec fn menu_action(i: int) -> DesktopAction {
    if i == 0 {
        DesktopAction::FocusWindow(MONITOR_ID)
    } else if i == 1 {
        DesktopAction::FocusWindow(FILES_ID)
    } else if i == 2 {
        DesktopAction::FocusWindow(CONSOLE_ID)
    } else if i == 3 {
        DesktopAction::FocusWindow(SETTINGS_ID)
    } else {
        DesktopAction::Shutdown
    }
}

/// The window that dock item `i` (1 to 4) stands for.
pub open spec fn dock_window(i: int) -> u32 {
    if i == 1 {
        MONITOR_ID
    } else if i == 2 {
        FILES_ID
    } else if i == 3 {
        CONSOLE_ID
    } else if i == 4 {
        SETTINGS_ID
    } else {
        MONITOR_ID
    }
}

/// The dock item under column `cx` among items `i..5`.
pub open spec fn dock_item_from(lay: PointerLayout, cx: int, i: int) -> Option<int>
    decreases 5 - i,
{
    if i >= 5 || i < 0 {
        None
    } else if lay.item_left[i] <= cx < lay.item_right[i] {
        Some(i)
    } else {
        dock_item_from(lay, cx, i + 1)
    }
}

/// The topmost of the first `n` slots whose window is open and under the
/// cursor, by title bar or body.
pub open spec fn top_hit(s: Seq<Option<Window>>, hits: Seq<WindowHit>, n: int) -> Option<int>
    decreases n,
{
    if n <= 0 {
        None
    } else if (s[n - 1] matches Some(w) && w.is_open) && (hits[n - 1].title || hits[n - 1].body) {
        Some(n - 1)
    } else {
        top_hit(s, hits, n - 1)
    }
}

/// The clicked window `w` after a click at `(cx, cy)`, and whether it starts
/// following the mouse: the close and minimize buttons start its close
/// animation, the maximize button toggles it, the rest of the title bar drags
/// a window that is not maximized; a body click changes nothing.
pub open spec fn clicked_window(w: Window, hit: WindowHit, cx: int, cy: int, sw: i32, sh: i32) -> (
    Window,
    bool,
) {
    if hit.title {
        match title_button_at(hit.ax as int, hit.ay as int, cx, cy) {
            TitleButton::Close => (closing(w), false),
            TitleButton::Minimize => (closing(w), false),
            TitleButton::Maximize => (maximize_toggled(w, sw, sh), false),
            TitleButton::Bar => (w, !w.is_maximized),
        }
    } else {
        (w, false)
    }
}

/// The sidebar tab of the settings window under the window-relative point
/// `(rx, ry)`: tabs are 110 x 26 from 10 pixels in, their tops 32 apart
/// from 50 (see `tab_top`).
pub open spec fn settings_tab_at(rx: int, ry: int) -> Option<u32> {
    if !(10 <= rx < 120) {
        None
    } else if tab_top(0) <= ry < tab_top(0) + 26 {
        Some(0)
    } else if tab_top(1) <= ry < tab_top(1) + 26 {
        Some(1)
    } else if tab_top(2) <= ry < tab_top(2) + 26 {
        Some(2)
    } else {
        None
    }
}

/// The sidebar tab that a body click on window `w` hits, when `w` is the
/// settings window.
pub open spec fn hits_settings_tab(w: Window, hit: WindowHit, cx: int, cy: int) -> Option<u32> {
    if !hit.title && w.id == SETTINGS_ID {
        settings_tab_at(cx - hit.ax, cy - hit.ay)
    } else {
        None
    }
}

/// The press at `(cx, cy)` that goes on to the file manager when it lands on
/// the body of window `w` and `w` is the file manager.
pub open spec fn file_click_of(w: Window, hit: WindowHit, cx: i32, cy: i32) -> Option<FileClick> {
    if !hit.title && w.id == FILES_ID {
        Some(FileClick { cursor_x: cx, cursor_y: cy, ax: hit.ax, ay: hit.ay, width: w.width, height: w.height })
    } else {
        None
    }
}

/// Whether a body click on window `w` hits the shadow switch of the settings window.
pub open spec fn hits_shadow_switch(w: Window, hit: WindowHit, cx: int, cy: int) -> bool {
    let rx = cx - hit.ax;
    let ry = cy - hit.ay;
    !hit.title && w.id == SETTINGS_ID && 24 <= rx <= w.width as i32 - 24 && 110 <= ry <= 166
}

/// The window values that a click at `(cx, cy)` computes with stay within `i32`.
pub open spec fn hits_ok(s: Seq<Option<Window>>, hits: Seq<WindowHit>, cx: int, cy: int) -> bool {
    forall|j: int|
        0 <= j < 4 ==> {
            &&& (#[trigger] hits[j]).ax <= i32::MAX - 64
            &&& hits[j].ay <= i32::MAX - 23
            &&& i32::MIN <= cx - hits[j].ax <= i32::MAX
            &&& i32::MIN <= cy - hits[j].ay <= i32::MAX
            &&& (s[j] matches Some(w) ==> w.width as i32 >= i32::MIN + 24)
        }
}

/// The screen and start menu values that an event computes with stay within `i32`.
pub open spec fn layout_ok(lay: PointerLayout, sh: int) -> bool {
    &&& i32::MIN + 314 <= sh <= i32::MAX
    &&& lay.menu_x <= i32::MAX - MENU_WIDTH
    &&& lay.prev_menu_x <= i32::MAX - MENU_WIDTH
}

/// A press at `(cx, cy)` on the start menu, when it is open and still: `.0`
/// whether the press is used up, `.1` the new state, `.2` the action, `.3`
/// whether every window is to be redrawn. A press on an item runs it and
/// closes the menu; elsewhere in the menu nothing happens; outside the menu and
/// off the launcher the menu closes; on the launcher the dock gets the press.
pub open spec fn menu_press(st: ShellState, cx: int, cy: int, lay: PointerLayout, sh: int) -> (
    bool,
    ShellState,
    DesktopAction,
    bool,
) {
    let mx = lay.menu_x as int;
    let my = menu_top(sh, MENU_HEIGHT as int);
    let closed = (st.0, false, true, st.3);
    if !(st.1 && !st.2) {
        (false, st, DesktopAction::Nothing, false)
    } else if in_box(cx, cy, mx, my, MENU_WIDTH as int, MENU_HEIGHT as int) {
        match menu_item_from(mx, my, cx, cy, 0) {
            Some(i) => (true, closed, menu_action(i), true),
            None => (true, st, DesktopAction::Nothing, false),
        }
    } else if lay.item_left[0] <= cx < lay.item_right[0] && dock_top(sh) <= cy < dock_top(sh) + 72 {
        (false, st, DesktopAction::Nothing, false)
    } else {
        (true, closed, DesktopAction::Nothing, false)
    }
}

/// A press at `(cx, cy)` on the dock: `.0` whether it is on the dock, then the
/// new state, the action and whether every window is to be redrawn. The
/// launcher toggles the start menu; another item starts closing its window
/// when that is open and focused, else asks for it to be focused.
pub open spec fn dock_press(st: ShellState, cx: int, cy: int, lay: PointerLayout, sh: int) -> (
    bool,
    ShellState,
    DesktopAction,
    bool,
) {
    if !(dock_top(sh) <= cy < dock_top(sh) + 72 && lay.dock_left <= cx < lay.dock_right) {
        (false, st, DesktopAction::Nothing, false)
    } else {
        match dock_item_from(lay, cx, 0) {
            None => (true, st, DesktopAction::Nothing, false),
            Some(i) => if i == 0 {
                (true, (st.0, !st.1, true, st.3), DesktopAction::Nothing, false)
            } else {
                let id = dock_window(i);
                match first_slot_from(st.0, id, 0) {
                    Some(k) => {
                        let w = st.0[k].unwrap();
                        if w.is_open && w.is_focused {
                            (
                                true,
                                (st.0.update(k, Some(closing(w))), st.1, st.2, st.3),
                                DesktopAction::Nothing,
                                true,
                            )
                        } else {
                            (true, st, DesktopAction::FocusWindow(id), true)
                        }
                    },
                    None => (true, st, DesktopAction::Nothing, false),
                }
            },
        }
    }
}

/// A press at `(cx, cy)` on the windows, with settings tab `tab` open: the
/// topmost open window under the cursor gets the press (see
/// `clicked_window`) and is raised and focused. On the settings window a
/// press on a sidebar tab opens that tab, and a press on the shadow switch,
/// only while the Appearance tab (0) is open, flips the shadows (`.1` then
/// holds); `.2` is the open tab afterwards. A press on the file manager's
/// body goes on to the file manager (`.3`). A press on no window takes the
/// focus from all.
pub open spec fn window_press(
    st: ShellState,
    tab: u32,
    cx: int,
    cy: int,
    hits: Seq<WindowHit>,
    sw: i32,
    sh: i32,
) -> (ShellState, bool, u32, Option<FileClick>) {
    let count = occupied(st.0, 4);
    match top_hit(st.0, hits, count) {
        Some(i) => {
            let w = st.0[i].unwrap();
            let c = clicked_window(w, hits[i], cx, cy, sw, sh);
            let t = hits_settings_tab(w, hits[i], cx, cy);
            let flip = t is None && tab == 0 && hits_shadow_switch(w, hits[i], cx, cy);
            (
                (
                    raised(st.0.update(i, Some(c.0)), i, count, c.1),
                    st.1,
                    st.2,
                    if flip {
                        !st.3
                    } else {
                        st.3
                    },
                ),
                flip,
                match t {
                    Some(k) => k,
                    None => tab,
                },
                file_click_of(w, hits[i], cx as i32, cy as i32),
            )
        },
        None => ((all_unfocused(st.0, count), st.1, st.2, st.3), false, tab, None),
    }
}

/// A press of the left button at `(cx, cy)`: the start menu, then the dock,
/// then the windows get it. The new state, the action, whether every window is
/// to be redrawn, whether the screen is, the open settings tab (`tab`
/// before), and the press handed on to the file manager.
pub open spec fn press_effect(
    st: ShellState,
    tab: u32,
    cx: int,
    cy: int,
    lay: PointerLayout,
    hits: Seq<WindowHit>,
    sw: i32,
    sh: i32,
) -> (ShellState, DesktopAction, bool, bool, u32, Option<FileClick>) {
    let m = menu_press(st, cx, cy, lay, sh as int);
    if m.0 {
        (m.1, m.2, m.3, false, tab, None)
    } else {
        let k = dock_press(m.1, cx, cy, lay, sh as int);
        if k.0 {
            (k.1, k.2, k.3, false, tab, None)
        } else {
            let w = window_press(m.1, tab, cx, cy, hits, sw, sh);
            (w.0, DesktopAction::Nothing, true, w.1, w.2, w.3)
        }
    }
}

/// The tracker contents `t` with a full redraw asked for when `all` holds.
pub open spec fn marked_if(t: (Seq<Option<DirtyRect>>, bool), all: bool) -> (Seq<Option<DirtyRect>>, bool) {
    if all {
        (t.0, true)
    } else {
        t
    }
}

/// The start menu item hit at `(cx, cy)` (see `menu_item_from`).
fn menu_item(mx: i32, my: i32, cx: i32, cy: i32) -> (r: Option<usize>)
    requires
        mx <= i32::MAX - MENU_WIDTH,
        my <= i32::MAX - 203,
    ensures
        match r {
            Some(i) => menu_item_from(mx as int, my as int, cx as int, cy as int, 0) == Some(i as int) && i < 5,
            None => menu_item_from(mx as int, my as int, cx as int, cy as int, 0) is None,
        },
{
    let mut i: usize = 0;
    while i < 5
        invariant
            i <= 5,
            mx <= i32::MAX - MENU_WIDTH,
            my <= i32::MAX - 203,
            menu_item_from(mx as int, my as int, cx as int, cy as int, 0) == menu_item_from(
                mx as int,
                my as int,
                cx as int,
                cy as int,
                i as int,
            ),
        decreases 5 - i,
    {
        let iy = my + 44 + (i as i32) * 33;
        if cx >= mx + 8 && cx < mx + MENU_WIDTH - 8 && cy >= iy && cy < iy + 27 {
            return Some(i);
        }
        i = i + 1;
    }
    None
}

/// What start menu item `i` asks for (see `menu_action`).
fn menu_item_action(i: usize) -> (a: DesktopAction)
    ensures
        a == menu_action(i as int),
{
    if i == 0 {
        DesktopAction::FocusWindow(MONITOR_ID)
    } else if i == 1 {
        DesktopAction::FocusWindow(FILES_ID)
    } else if i == 2 {
        DesktopAction::FocusWindow(CONSOLE_ID)
    } else if i == 3 {
        DesktopAction::FocusWindow(SETTINGS_ID)
    } else {
        DesktopAction::Shutdown
    }
}

/// The window that dock item `i` stands for (see `dock_window`).
fn dock_item_window(i: usize) -> (id: u32)
    ensures
        id == dock_window(i as int),
{
    if i == 1 {
        MONITOR_ID
    } else if i == 2 {
        FILES_ID
    } else if i == 3 {
        CONSOLE_ID
    } else if i == 4 {
        SETTINGS_ID
    } else {
        MONITOR_ID
    }
}

/// The dock item under column `cx` (see `dock_item_from`).
fn dock_item(lay: &PointerLayout, cx: i32) -> (r: Option<usize>)
    ensures
        match r {
            Some(i) => dock_item_from(*lay, cx as int, 0) == Some(i as int) && i < 5,
            None => dock_item_from(*lay, cx as int, 0) is None,
        },
{
    let mut i: usize = 0;
    while i < 5
        invariant
            i <= 5,
            dock_item_from(*lay, cx as int, 0) == dock_item_from(*lay, cx as int, i as int),
        decreases 5 - i,
    {
        if cx >= lay.item_left[i] && cx < lay.item_right[i] {
            return Some(i);
        }
        i = i + 1;
    }
    None
}

/// The topmost open window of the first `count` slots under the cursor (see `top_hit`).
fn find_top_hit(slots: &[Option<Window>; 5], hits: &[WindowHit; 4], count: usize) -> (r: Option<
    usize,
>)
    requires
        count <= 4,
    ensures
        match r {
            Some(i) => top_hit(slots@, hits@, count as int) == Some(i as int) && i < count,
            None => top_hit(slots@, hits@, count as int) is None,
        },
{
    let mut n = count;
    while n > 0
        invariant
            n <= count <= 4,
            top_hit(slots@, hits@, count as int) == top_hit(slots@, hits@, n as int),
        decreases n,
    {
        let i = n - 1;
        let hit = hits[i];
        match slots[i] {
            Some(w) => {
                if w.is_open && (hit.title || hit.body) {
                    return Some(i);
                }
            },
            None => {},
        }
        n = i;
    }
    None
}

proof fn lemma_top_hit_range(s: Seq<Option<Window>>, hits: Seq<WindowHit>, n: int)
    ensures
        top_hit(s, hits, n) matches Some(i) ==> 0 <= i < n && (s[i] matches Some(w) && w.is_open),
    decreases n,
{
    if n > 0 {
        lemma_top_hit_range(s, hits, n - 1);
    }
}

proof fn lemma_first_slot_range(s: Seq<Option<Window>>, id: u32, i: int)
    ensures
        first_slot_from(s, id, i) matches Some(k) ==> i <= k < 4 && (s[k] matches Some(w) && w.id == id),
    decreases 4 - i,
{
    if 0 <= i < 4 {
        lemma_first_slot_range(s, id, i + 1);
    }
}

/// Handles a press on the start menu (see `menu_press`); returns whether the
/// press was used up, the action and whether every window is to be redrawn.
fn press_menu(
    desk: &mut Desktop,
    tracker: &mut DirtyRectTracker,
    cx: i32,
    cy: i32,
    lay: &PointerLayout,
    sh: i32,
) -> (r: (bool, DesktopAction, bool))
    requires
        layout_ok(*lay, sh as int),
    ensures
        ({
            let m = menu_press(old(desk).shell(), cx as int, cy as int, *lay, sh as int);
            &&& r == (m.0, m.2, m.3)
            &&& final(desk).shell() == m.1
            &&& final(desk).settings_tab == old(desk).settings_tab
            &&& final(tracker).contents() == marked_if(old(tracker).contents(), m.3)
        }),
{
    if desk.start_menu_open && !desk.start_menu_animating {
        let mx = lay.menu_x;
        let dock_y = sh - 82;
        let my = dock_y - MENU_HEIGHT - 12;
        if cx >= mx && cx < mx + MENU_WIDTH && cy >= my && cy < my + MENU_HEIGHT {
            match menu_item(mx, my, cx, cy) {
                Some(i) => {
                    let a = menu_item_action(i);
                    tracker.mark_all_dirty();
                    desk.start_menu_animating = true;
                    desk.start_menu_open = false;
                    (true, a, true)
                },
                None => (true, DesktopAction::Nothing, false),
            }
        } else {
            let on_launcher = cx >= lay.item_left[0] && cx < lay.item_right[0] && cy >= dock_y && cy
                < dock_y + 72;
            if !on_launcher {
                desk.start_menu_animating = true;
                desk.start_menu_open = false;
                (true, DesktopAction::Nothing, false)
            } else {
                (false, DesktopAction::Nothing, false)
            }
        }
    } else {
        (false, DesktopAction::Nothing, false)
    }
}

/// Handles a press on the dock (see `dock_press`); returns whether it was on
/// the dock, the action and whether every window is to be redrawn.
fn press_dock(
    desk: &mut Desktop,
    tracker: &mut DirtyRectTracker,
    cx: i32,
    cy: i32,
    lay: &PointerLayout,
    sh: i32,
) -> (r: (bool, DesktopAction, bool))
    requires
        layout_ok(*lay, sh as int),
    ensures
        ({
            let k = dock_press(old(desk).shell(), cx as int, cy as int, *lay, sh as int);
            &&& r == (k.0, k.2, k.3)
            &&& final(desk).shell() == k.1
            &&& final(desk).settings_tab == old(desk).settings_tab
            &&& final(tracker).contents() == marked_if(old(tracker).contents(), k.3)
        }),
{
    let dock_y = sh - 82;
    if cy >= dock_y && cy < dock_y + 72 && cx >= lay.dock_left && cx < lay.dock_right {
        match dock_item(lay, cx) {
            None => (true, DesktopAction::Nothing, false),
            Some(i) => {
                if i == 0 {
                    desk.start_menu_animating = true;
                    desk.start_menu_open = !desk.start_menu_open;
                    (true, DesktopAction::Nothing, false)
                } else {
                    let id = dock_item_window(i);
                    match find_window(&desk.windows, id) {
                        Some(k) => {
                            proof {
                                lemma_first_slot_range(desk.windows@, id, 0);
                            }
                            match desk.windows[k] {
                                Some(w) => {
                                    if w.is_open && w.is_focused {
                                        let mut nw = w;
                                        begin_close(&mut nw);
                                        desk.windows[k] = Some(nw);
                                        tracker.mark_all_dirty();
                                        (true, DesktopAction::Nothing, true)
                                    } else {
                                        tracker.mark_all_dirty();
                                        (true, DesktopAction::FocusWindow(id), true)
                                    }
                                },
                                None => (true, DesktopAction::Nothing, false),
                            }
                        },
                        None => (true, DesktopAction::Nothing, false),
                    }
                }
            },
        }
    } else {
        (false, DesktopAction::Nothing, false)
    }
}

/// The sidebar tab of the settings window under `(rx, ry)` (see `settings_tab_at`).
fn settings_tab_under(rx: i32, ry: i32) -> (t: Option<u32>)
    ensures
        t == settings_tab_at(rx as int, ry as int),
{
    if rx < 10 || rx >= 120 {
        None
    } else if ry >= 50 && ry < 76 {
        Some(0)
    } else if ry >= 82 && ry < 108 {
        Some(1)
    } else if ry >= 114 && ry < 140 {
        Some(2)
    } else {
        None
    }
}

/// Handles a press on the windows (see `window_press`); returns whether the
/// shadows were flipped. Every window is to be redrawn afterwards.
fn press_windows(
    desk: &mut Desktop,
    tracker: &mut DirtyRectTracker,
    cx: i32,
    cy: i32,
    hits: &[WindowHit; 4],
    sw: i32,
    sh: i32,
) -> (r: (bool, Option<FileClick>))
    requires
        hits_ok(old(desk).windows@, hits@, cx as int, cy as int),
        sh >= i32::MIN + DOCK_RESERVE,
    ensures
        ({
            let w = window_press(old(desk).shell(), old(desk).settings_tab, cx as int, cy as int, hits@, sw, sh);
            &&& final(desk).shell() == w.0
            &&& r == (w.1, w.3)
            &&& final(desk).settings_tab == w.2
            &&& final(tracker).contents() == marked_if(old(tracker).contents(), true)
        }),
{
    let count = count_windows(&desk.windows);
    match find_top_hit(&desk.windows, hits, count) {
        Some(i) => {
            proof {
                lemma_top_hit_range(desk.windows@, hits@, count as int);
            }
            let hit = hits[i];
            match desk.windows[i] {
                Some(w) => {
                    let mut nw = w;
                    let mut drag = false;
                    let mut flip = false;
                    let mut file_click: Option<FileClick> = None;
                    assert(hits_ok(desk.windows@, hits@, cx as int, cy as int));
                    assert(hit.ax <= i32::MAX - 64 && hit.ay <= i32::MAX - 23);
                    if hit.title {
                        match title_button(hit.ax, hit.ay, cx, cy) {
                            TitleButton::Close => begin_close(&mut nw),
                            TitleButton::Minimize => begin_close(&mut nw),
                            TitleButton::Maximize => toggle_maximize(&mut nw, sw, sh),
                            TitleButton::Bar => {
                                drag = !w.is_maximized;
                            },
                        }
                    } else if w.id == FILES_ID {
                        file_click = Some(
                            FileClick { cursor_x: cx, cursor_y: cy, ax: hit.ax, ay: hit.ay, width: w.width, height: w.height },
                        );
                    } else if w.id == SETTINGS_ID {
                        let rx = cx - hit.ax;
                        let ry = cy - hit.ay;
                        match settings_tab_under(rx, ry) {
                            Some(t) => {
                                desk.settings_tab = t;
                            },
                            None => {
                                if desk.settings_tab == 0 && rx >= 24 && rx <= (w.width as i32) - 24
                                    && ry >= 110 && ry <= 166 {
                                    flip = true;
                                }
                            },
                        }
                    }
                    desk.windows[i] = Some(nw);
                    raise_window(&mut desk.windows, i, count, drag);
                    if flip {
                        desk.shadows_enabled = !desk.shadows_enabled;
                    }
                    tracker.mark_all_dirty();
                    (flip, file_click)
                },
                None => {
                    tracker.mark_all_dirty();
                    (false, None)
                },
            }
        },
        None => {
            unfocus_all(&mut desk.windows, count);
            tracker.mark_all_dirty();
            (false, None)
        },
    }
}


/// Whether a mouse event at `ev` asks for a redraw by itself: the button is or
/// was down, the cursor is or was over the dock area (the bottom 120 pixels),
/// or the start menu is open and the cursor is or was over it.
pub open spec fn pointer_redraw(prev: InputState, ev: InputEvent, lay: PointerLayout, sh: int, open: bool) -> bool {
    let my = menu_top(sh, MENU_HOVER_HEIGHT as int);
    ||| ev.mouse_left_clicked == 1
    ||| prev.prev_left_clicked == 1
    ||| ev.mouse_y >= sh - 120
    ||| prev.prev_mouse_y >= sh - 120
    ||| open && in_box(ev.mouse_x as int, ev.mouse_y as int, lay.menu_x as int, my, MENU_WIDTH as int, MENU_HOVER_HEIGHT as int)
    ||| open && in_box(prev.prev_mouse_x as int, prev.prev_mouse_y as int, lay.prev_menu_x as int, my, MENU_WIDTH as int, MENU_HOVER_HEIGHT as int)
}

/// Where the windows of the first four slots are drawn, as `hits` reports.
pub open spec fn drawn_at(hits: Seq<WindowHit>) -> Seq<(i32, i32)> {
    Seq::new(4, |j: int| (hits[j].ax, hits[j].ay))
}

/// The input state after a mouse event at `ev`: the cursor there, and the
/// event remembered as the previous one.
pub open spec fn moved_to(ev: InputEvent) -> InputState {
    InputState {
        cursor_x: ev.mouse_x,
        cursor_y: ev.mouse_y,
        prev_mouse_x: ev.mouse_x,
        prev_mouse_y: ev.mouse_y,
        prev_left_clicked: ev.mouse_left_clicked as u8,
    }
}

/// The values that a mouse event at `ev` computes with stay within `i32`.
pub open spec fn mouse_event_ok(
    d: Desktop,
    prev: InputState,
    ev: InputEvent,
    lay: PointerLayout,
    hits: Seq<WindowHit>,
    sw: int,
    sh: int,
) -> bool {
    &&& layout_ok(lay, sh)
    &&& d.start_menu_open ==> i32::MIN + 560 <= sw <= i32::MAX - 40
    &&& hits_ok(d.windows@, hits, ev.mouse_x as int, ev.mouse_y as int)
    &&& i32::MIN <= ev.mouse_x - prev.prev_mouse_x <= i32::MAX
    &&& i32::MIN <= ev.mouse_y - prev.prev_mouse_y <= i32::MAX
    &&& (ev.mouse_left_clicked == 1 && prev.prev_left_clicked != 0) ==> drag_fits(
        d.windows@,
        drawn_at(hits),
        ev.mouse_x - prev.prev_mouse_x,
        ev.mouse_y - prev.prev_mouse_y,
    )
}

/// An outcome that asks for nothing but, when `redraw` holds, a redraw.
pub open spec fn quiet(redraw: bool) -> InputOutcome {
    InputOutcome {
        needs_redraw: redraw,
        invalidate_caches: false,
        action: DesktopAction::Nothing,
        terminal: None,
        file_click: None,
    }
}

fn drawn_positions(hits: &[WindowHit; 4]) -> (d: [(i32, i32); 4])
    ensures
        d@ == drawn_at(hits@),
{
    let d = [(hits[0].ax, hits[0].ay), (hits[1].ax, hits[1].ay), (hits[2].ax, hits[2].ay), (hits[3].ax, hits[3].ay)];
    assert(d@ =~= drawn_at(hits@));
    d
}

/// The console input for a key (see `key_input`).
fn key_to_terminal(key: u32) -> (t: Option<TermInput>)
    ensures
        t == key_input(key),
{
    if key == 0x1001 {
        Some(TermInput::Submit)
    } else if key == 0x1000 {
        Some(TermInput::Char(8))
    } else if key < 0x1000 {
        Some(TermInput::Char(key as u8))
    } else {
        None
    }
}

proof fn lemma_card_from_range(n: int, cx: int, cy: int, sw: int, k: int)
    ensures
        card_from(n, cx, cy, sw, k) matches Some(j) ==> 0 <= k <= j < n,
    decreases n - k,
{
    if 0 <= k < n {
        lemma_card_from_range(n, cx, cy, sw, k + 1);
    }
}

/// What a press at `(cx, cy)` on the Applications screen opens (see `card_action`).
fn press_card(search: &SearchQuery, cx: i32, cy: i32, sw: i32) -> (r: Option<DesktopAction>)
    requires
        search.wf(),
        i32::MIN + 560 <= sw <= i32::MAX - 40,
    ensures
        r == card_action(search.query(), cx as int, cy as int, sw as int),
{
    let mut buf = [0u8; 64];
    let q = search.get_str(&mut buf);
    proof {
        assert(search.query().subrange(0, search.len as int) =~= search.query());
        crate::graphics::compositor::lemma_matching_upto_below(search_text(search.query()), 6);
        crate::graphics::compositor::lemma_matching_upto_len(search_text(search.query()), 6);
    }
    let m = matching_apps(q);
    let n = m.len();
    let mut k: usize = 0;
    while k < n
        invariant
            k <= n,
            n == m@.len(),
            n <= 6,
            m@ == matching_upto(search_text(search.query()), 6),
            forall|j: int| 0 <= j < n ==> #[trigger] m@[j] < 6,
            i32::MIN + 560 <= sw <= i32::MAX - 40,
            card_from(n as int, cx as int, cy as int, sw as int, 0) == card_from(
                n as int,
                cx as int,
                cy as int,
                sw as int,
                k as int,
            ),
        decreases n - k,
    {
        let (x, y, w, h) = get_app_card_layout(k, n, sw, 0);
        if cx >= x && cx < x + w && cy >= y && cy < y + h {
            let a = m[k];
            return Some(
                if a == 5 {
                    DesktopAction::Shutdown
                } else {
                    DesktopAction::FocusWindow(a as u32)
                },
            );
        }
        k = k + 1;
    }
    None
}

/// Handles key `key` on the Applications screen (see `typed_query` and
/// `enter_action`): the search query takes it, and Enter opens the first
/// matching application and closes the screen.
fn search_key(desk: &mut Desktop, tracker: &mut DirtyRectTracker, search: &mut SearchQuery, key: u32) -> (out: InputOutcome)
    requires
        old(search).wf(),
    ensures
        final(search).wf(),
        final(desk).settings_tab == old(desk).settings_tab,
        final(search).query() == typed_query(old(search).query(), key),
        ({
            let opened = if key == 0x1001 {
                enter_action(old(search).query())
            } else {
                None
            };
            match opened {
                Some(a) => {
                    &&& final(desk).shell() == (old(desk).windows@, false, true, old(desk).shadows_enabled)
                    &&& final(tracker).contents() == marked_if(old(tracker).contents(), true)
                    &&& out == InputOutcome { needs_redraw: true, invalidate_caches: true, action: a, ..quiet(true) }
                },
                None => {
                    &&& final(desk).shell() == old(desk).shell()
                    &&& final(tracker).contents() == old(tracker).contents()
                    &&& out == quiet(true)
                },
            }
        }),
{
    let mut out = InputOutcome {
        needs_redraw: true,
        invalidate_caches: false,
        action: DesktopAction::Nothing,
        terminal: None,
        file_click: None,
    };
    if key == 0x1000 {
        search.pop();
    } else if key == 0x1001 {
        let mut buf = [0u8; 64];
        let q = search.get_str(&mut buf);
        proof {
            assert(old(search).query().subrange(0, old(search).len as int) =~= old(search).query());
        }
        let m = matching_apps(q);
        if m.len() > 0 {
            let a = m[0];
            proof {
                crate::graphics::compositor::lemma_matching_upto_below(search_text(old(search).query()), 6);
            }
            out.action = if a == 5 {
                DesktopAction::Shutdown
            } else {
                DesktopAction::FocusWindow(a as u32)
            };
            out.invalidate_caches = true;
            desk.start_menu_open = false;
            desk.start_menu_animating = true;
            tracker.mark_all_dirty();
        }
    } else if key >= 32 && key <= 126 {
        let c = (key as u8) as char;
        search.push(c);
    }
    out
}

/// Handles an input event.
///
/// While the Applications screen is shown a key goes to its search (see
/// `typed_query`; Enter opens the first match), else to the console when its
/// window is focused. A mouse event moves the cursor; a press on a card of
/// the Applications screen opens its application (see `card_action`); any
/// other press goes to the start menu, the dock or the windows (see
/// `press_effect`), and opening the Applications screen empties the search;
/// holding the button drags the windows that follow the mouse; releasing it
/// lets them go. Other events are ignored.
pub fn handle_input_event(
    desk: &mut Desktop,
    state: &mut InputState,
    tracker: &mut DirtyRectTracker,
    search: &mut SearchQuery,
    event: &InputEvent,
    lay: &PointerLayout,
    hits: &[WindowHit; 4],
    sw: i32,
    sh: i32,
) -> (out: InputOutcome)
    requires
        old(search).wf(),
        event.event_type == 2 ==> mouse_event_ok(*old(desk), *old(state), *event, *lay, hits@, sw as int, sh as int),
    ensures
        final(search).wf(),
        event.event_type != 2 ==> final(desk).settings_tab == old(desk).settings_tab,
        (event.event_type == 1 && old(desk).start_menu_open) ==> {
            let q = old(search).query();
            let key = event.keyboard_key;
            let opened = if key == 0x1001 {
                enter_action(q)
            } else {
                None
            };
            &&& *final(state) == *old(state)
            &&& final(search).query() == typed_query(q, key)
            &&& match opened {
                Some(a) => {
                    &&& final(desk).shell() == (old(desk).windows@, false, true, old(desk).shadows_enabled)
                    &&& final(tracker).contents() == marked_if(old(tracker).contents(), true)
                    &&& out == InputOutcome { needs_redraw: true, invalidate_caches: true, action: a, ..quiet(true) }
                },
                None => {
                    &&& final(desk).shell() == old(desk).shell()
                    &&& final(tracker).contents() == old(tracker).contents()
                    &&& out == quiet(true)
                },
            }
        },
        (event.event_type == 1 && !old(desk).start_menu_open) ==> {
            &&& *final(search) == *old(search)
            &&& final(desk).shell() == old(desk).shell()
            &&& *final(state) == *old(state)
            &&& final(tracker).contents() == old(tracker).contents()
            &&& out == InputOutcome {
                terminal: if console_focused(old(desk).windows@) {
                    key_input(event.keyboard_key)
                } else {
                    None
                },
                ..quiet(false)
            }
        },
        event.event_type == 2 ==> {
            let ev = *event;
            let prev = *old(state);
            let st = old(desk).shell();
            let pressed = ev.mouse_left_clicked == 1 && prev.prev_left_clicked == 0;
            let p = press_effect(st, old(desk).settings_tab, ev.mouse_x as int, ev.mouse_y as int, *lay, hits@, sw, sh);
            let redraw = pointer_redraw(prev, ev, *lay, sh as int, st.1);
            let dx = ev.mouse_x - prev.prev_mouse_x;
            let dy = ev.mouse_y - prev.prev_mouse_y;
            let card = if st.1 && !st.2 {
                card_action(old(search).query(), ev.mouse_x as int, ev.mouse_y as int, sw as int)
            } else {
                None
            };
            &&& final(search).query() == (if pressed && !st.1 && p.0.1 {
                Seq::<u8>::empty()
            } else {
                old(search).query()
            })
            &&& *final(state) == moved_to(ev)
            &&& if pressed && card is Some {
                &&& final(desk).shell() == (st.0, false, true, st.3)
                &&& final(desk).settings_tab == old(desk).settings_tab
                &&& final(tracker).contents() == marked_if(old(tracker).contents(), true)
                &&& out == InputOutcome {
                    needs_redraw: true,
                    invalidate_caches: true,
                    action: card.unwrap(),
                    terminal: None,
                    file_click: None,
                }
            } else if pressed {
                &&& final(desk).shell() == p.0
                &&& final(desk).settings_tab == p.4
                &&& final(tracker).contents() == marked_if(old(tracker).contents(), p.2)
                &&& out == InputOutcome {
                    needs_redraw: redraw || p.3,
                    invalidate_caches: p.2,
                    action: p.1,
                    terminal: None,
                    file_click: p.5,
                }
            } else if ev.mouse_left_clicked == 1 {
                &&& final(desk).settings_tab == old(desk).settings_tab
                &&& final(desk).shell() == (dragged(st.0, dx, dy), st.1, st.2, st.3)
                &&& final(tracker).contents() == after_adds(
                    old(tracker).contents(),
                    drag_regions(st.0, drawn_at(hits@), dx, dy, 4),
                )
                &&& out == quiet(redraw)
            } else {
                &&& final(desk).settings_tab == old(desk).settings_tab
                &&& final(desk).shell() == (all_released(st.0), st.1, st.2, st.3)
                &&& final(tracker).contents() == old(tracker).contents()
                &&& out == quiet(redraw)
            }
        },
        event.event_type != 1 && event.event_type != 2 ==> {
            &&& *final(search) == *old(search)
            &&& final(desk).shell() == old(desk).shell()
            &&& *final(state) == *old(state)
            &&& final(tracker).contents() == old(tracker).contents()
            &&& out == quiet(false)
        },
{
    if event.event_type == 1 && desk.start_menu_open {
        return search_key(desk, tracker, search, event.keyboard_key);
    }
    if event.event_type == 1 {
        let terminal = if terminal_focused(&desk.windows) {
            key_to_terminal(event.keyboard_key)
        } else {
            None
        };
        return InputOutcome {
            needs_redraw: false,
            invalidate_caches: false,
            action: DesktopAction::Nothing,
            terminal,
            file_click: None,
        };
    }
    if event.event_type != 2 {
        return InputOutcome {
            needs_redraw: false,
            invalidate_caches: false,
            action: DesktopAction::Nothing,
            terminal: None,
            file_click: None,
        };
    }
    let cx = event.mouse_x;
    let cy = event.mouse_y;
    let left = event.mouse_left_clicked;
    state.cursor_x = cx;
    state.cursor_y = cy;
    let open = desk.start_menu_open;
    let hover_y = (sh - 82) - MENU_HOVER_HEIGHT - 12;
    let in_menu_zone = open && cx >= lay.menu_x && cx < lay.menu_x + MENU_WIDTH && cy >= hover_y
        && cy < hover_y + MENU_HOVER_HEIGHT;
    let px = state.prev_mouse_x;
    let py = state.prev_mouse_y;
    let prev_in_menu_zone = open && px >= lay.prev_menu_x && px < lay.prev_menu_x + MENU_WIDTH
        && py >= hover_y && py < hover_y + MENU_HOVER_HEIGHT;
    let redraw = left == 1 || state.prev_left_clicked == 1 || cy >= sh - 120 || py >= sh - 120
        || in_menu_zone || prev_in_menu_zone;
    let dx = cx - px;
    let dy = cy - py;
    let mut out = InputOutcome {
        needs_redraw: redraw,
        invalidate_caches: false,
        action: DesktopAction::Nothing,
        terminal: None,
        file_click: None,
    };
    if left == 1 {
        if state.prev_left_clicked == 0 {
            let was_open = desk.start_menu_open;
            let card = if desk.start_menu_open && !desk.start_menu_animating {
                press_card(search, cx, cy, sw)
            } else {
                None
            };
            if let Some(a) = card {
                out.action = a;
                out.invalidate_caches = true;
                out.needs_redraw = true;
                desk.start_menu_open = false;
                desk.start_menu_animating = true;
                tracker.mark_all_dirty();
            } else {
                let (used, action, invalidate) = press_menu(desk, tracker, cx, cy, lay, sh);
                if used {
                    out.action = action;
                    out.invalidate_caches = invalidate;
                } else {
                    let (on_dock, action, invalidate) = press_dock(desk, tracker, cx, cy, lay, sh);
                    if on_dock {
                        out.action = action;
                        out.invalidate_caches = invalidate;
                    } else {
                        let (flip, file_click) = press_windows(desk, tracker, cx, cy, hits, sw, sh);
                        out.invalidate_caches = true;
                        out.file_click = file_click;
                        if flip {
                            out.needs_redraw = true;
                        }
                    }
                }
            }
            if !was_open && desk.start_menu_open {
                search.clear();
            }
        } else {
            let drawn = drawn_positions(hits);
            drag_windows(&mut desk.windows, tracker, dx, dy, &drawn);
        }
    } else {
        release_drag(&mut desk.windows);
    }
    state.prev_mouse_x = cx;
    state.prev_mouse_y = cy;
    state.prev_left_clicked = left as u8;
    out
}

/// What serial input asks of the caller.
pub struct SerialOutcome {
    /// The screen must be redrawn.
    pub needs_redraw: bool,
    /// The console window's cached contents are stale.
    pub invalidate_console: bool,
    /// Input for the console, in order.
    pub inputs: Vec<TermInput>,
}

/// Handles the first `read_bytes` bytes of `serial_buf` read from the serial
/// line: when there are any, the console is redrawn and, when its window is
/// focused, gets the input they make (see `serial_input`).
pub fn handle_serial_input(
    desk: &Desktop,
    tracker: &mut DirtyRectTracker,
    serial_buf: &[u8],
    read_bytes: usize,
) -> (out: SerialOutcome)
    requires
        read_bytes <= serial_buf@.len(),
    ensures
        read_bytes == 0 ==> !out.needs_redraw && !out.invalidate_console && out.inputs@.len() == 0
            && final(tracker).contents() == old(tracker).contents(),
        read_bytes > 0 ==> {
            &&& out.needs_redraw
            &&& out.invalidate_console
            &&& out.inputs@ == (if console_focused(desk.windows@) {
                serial_inputs(serial_buf@.subrange(0, read_bytes as int))
            } else {
                Seq::empty()
            })
            &&& final(tracker).contents() == marked_if(old(tracker).contents(), true)
        },
{
    let mut inputs: Vec<TermInput> = Vec::new();
    if read_bytes == 0 {
        return SerialOutcome { needs_redraw: false, invalidate_console: false, inputs };
    }
    if terminal_focused(&desk.windows) {
        let mut i: usize = 0;
        while i < read_bytes
            invariant
                i <= read_bytes <= serial_buf@.len(),
                inputs@ == serial_inputs(serial_buf@.subrange(0, i as int)),
            decreases read_bytes - i,
        {
            let b = serial_buf[i];
            proof {
                assert(serial_buf@.subrange(0, i + 1).drop_last() =~= serial_buf@.subrange(0, i as int));
            }
            if b == 13 || b == 10 {
                inputs.push(TermInput::Submit);
            } else if b == 8 || b == 0x7f {
                inputs.push(TermInput::Char(8));
            } else if b >= 32 && b <= 126 {
                inputs.push(TermInput::Char(b));
            }
            i = i + 1;
        }
    } else {
        assert(inputs@ =~= Seq::<TermInput>::empty());
    }
    tracker.mark_all_dirty();
    SerialOutcome { needs_redraw: true, invalidate_console: true, inputs }
}


/// A press on a window raises it: the window under the cursor ends on top of
/// the first `count` slots (the occupied ones among the first four), focused,
/// and no other window among them keeps the focus or follows the mouse.
pub proof fn law_pressed_window_comes_to_front(
    st: ShellState,
    tab: u32,
    cx: int,
    cy: int,
    hits: Seq<WindowHit>,
    sw: i32,
    sh: i32,
)
    requires
        st.0.len() == 5,
        top_hit(st.0, hits, occupied(st.0, 4)) is Some,
    ensures
        ({
            let count = occupied(st.0, 4);
            let i = top_hit(st.0, hits, count).unwrap();
            let after = window_press(st, tab, cx, cy, hits, sw, sh).0.0;
            &&& after[count - 1] matches Some(w) && w.is_focused && w.id == st.0[i].unwrap().id
            &&& forall|j: int|
                0 <= j < count - 1 ==> (#[trigger] after[j] matches Some(v) ==> !v.is_focused
                    && !v.is_dragging)
        }),
{
    let count = occupied(st.0, 4);
    lemma_top_hit_range(st.0, hits, count);
    crate::desktop::stack::lemma_occupied_bound(st.0, 4);
}

/// After the button is released no window of the first four slots follows the mouse.
pub proof fn law_release_stops_every_drag(s: Seq<Option<Window>>)
    requires
        s.len() == 5,
    ensures
        forall|j: int| 0 <= j < 4 ==> !(#[trigger] all_released(s)[j] matches Some(w) && w.is_dragging),
{
}

/// A press on no window leaves none of the first `count` slots focused.
pub proof fn law_press_elsewhere_unfocuses(
    st: ShellState,
    tab: u32,
    cx: int,
    cy: int,
    hits: Seq<WindowHit>,
    sw: i32,
    sh: i32,
)
    requires
        st.0.len() == 5,
        top_hit(st.0, hits, occupied(st.0, 4)) is None,
    ensures
        ({
            let after = window_press(st, tab, cx, cy, hits, sw, sh).0.0;
            forall|j: int| 0 <= j < occupied(st.0, 4) ==> !(#[trigger] after[j] matches Some(w) && w.is_focused)
        }),
{
    crate::desktop::stack::lemma_occupied_bound(st.0, 4);
}

/// The shadow switch of the settings window answers only on the Appearance
/// tab: with another tab open, a press on the windows never changes whether
/// shadows are on.
pub proof fn law_shadow_switch_only_on_appearance(
    st: ShellState,
    tab: u32,
    cx: int,
    cy: int,
    hits: Seq<WindowHit>,
    sw: i32,
    sh: i32,
)
    requires
        tab != 0,
    ensures
        window_press(st, tab, cx, cy, hits, sw, sh).0.3 == st.3,
        !window_press(st, tab, cx, cy, hits, sw, sh).1,
{
}

/// A press on a sidebar tab of the settings window, when that window is the
/// one pressed, opens that tab and leaves the shadows alone.
pub proof fn law_settings_tab_press_opens_tab(
    st: ShellState,
    tab: u32,
    cx: int,
    cy: int,
    hits: Seq<WindowHit>,
    sw: i32,
    sh: i32,
    i: int,
    k: u32,
)
    requires
        top_hit(st.0, hits, occupied(st.0, 4)) == Some(i),
        hits_settings_tab(st.0[i].unwrap(), hits[i], cx, cy) == Some(k),
    ensures
        window_press(st, tab, cx, cy, hits, sw, sh).2 == k,
        window_press(st, tab, cx, cy, hits, sw, sh).0.3 == st.3,
{
}

/// A press on the body of the file manager, when it is the window pressed, is
/// handed on to the file manager with the cursor, the window's drawn position
/// and its size; a press anywhere else is not.
pub proof fn law_file_manager_body_press_is_handed_on(
    st: ShellState,
    tab: u32,
    cx: i32,
    cy: i32,
    hits: Seq<WindowHit>,
    sw: i32,
    sh: i32,
    i: int,
)
    requires
        top_hit(st.0, hits, occupied(st.0, 4)) == Some(i),
    ensures
        ({
            let w = st.0[i].unwrap();
            window_press(st, tab, cx as int, cy as int, hits, sw, sh).3 == (if !hits[i].title && w.id == FILES_ID {
                Some(FileClick { cursor_x: cx, cursor_y: cy, ax: hits[i].ax, ay: hits[i].ay, width: w.width, height: w.height })
            } else {
                None
            })
        }),
{
}

/// The start menu lists the windows in the same order as the dock: menu item
/// `i` (0 to 3) focuses the window of dock item `i + 1` (the monitor, the
/// file manager, the console, the settings), the four items focus four
/// different windows, and the last item shuts down.
pub proof fn law_start_menu_follows_dock(i: int, j: int)
    requires
        0 <= i < 4,
        0 <= j < 4,
    ensures
        menu_action(i) == DesktopAction::FocusWindow(dock_window(i + 1)),
        i != j ==> menu_action(i) != menu_action(j),
        menu_action(4) == DesktopAction::Shutdown,
        dock_window(1) == MONITOR_ID && dock_window(2) == FILES_ID,
        dock_window(3) == CONSOLE_ID && dock_window(4) == SETTINGS_ID,
{
}

/// Every sidebar tab of the settings window answers presses on itself: a
/// press at window-relative `(rx, ry)` within tab `k`'s 110 x 26 box (from 10
/// pixels in, its top at `tab_top(k)`) selects tab `k`, for each of the three
/// tabs; a press that selects tab `k` lies in that box; and the tab a press
/// selects is the one drawn under the cursor.
pub proof fn law_settings_tab_press_selects_that_tab(rx: int, ry: int, k: u32, active: u32)
    requires
        k < 3,
    ensures
        (10 <= rx < 120 && tab_top(k as int) <= ry < tab_top(k as int) + 26) ==> settings_tab_at(rx, ry)
            == Some(k),
        settings_tab_at(rx, ry) == Some(k) ==> 10 <= rx < 120 && tab_top(k as int) <= ry < tab_top(k as int)
            + 26,
        (settings_tab_at(rx, ry) == Some(k) && active != k) ==> crate::settings::tab_look_at(
            k as int,
            active,
            rx,
            ry,
        ) == crate::settings::TabLook::Hovered,
{
}

} // verus!
