//! Application windows: their geometry, focus and open/close animation, the
//! maximize toggle and the buttons of the title bar.
use vstd::prelude::*;

verus! {

/// Window identifier of the system monitor.
pub const MONITOR_ID: u32 = 0;
/// Window identifier of the console.
pub const CONSOLE_ID: u32 = 1;
/// Window identifier of the file manager.
pub const FILES_ID: u32 = 2;
/// Window identifier of the settings window.
pub const SETTINGS_ID: u32 = 3;
/// Window identifier of the radiation simulator.
pub const RADIATION_ID: u32 = 4;

/// Height of the dock strip that a maximized window leaves free.
pub const DOCK_RESERVE: i32 = 52;

/// An application window on the desktop.
#[derive(Clone, Copy, Debug, PartialEq, Eq)]
pub struct Window {
    /// Which application the window shows (see the `*_ID` constants).
    pub id: u32,
    /// Title shown in the title bar.
    pub title: &'static str,
    /// Left edge.
    pub x: i32,
    /// Top edge.
    pub y: i32,
    /// Width in pixels.
    pub width: usize,
    /// Height in pixels.
    pub height: usize,
    /// Whether the window follows the mouse (its title bar is held).
    pub is_dragging: bool,
    /// Whether the window has the keyboard focus.
    pub is_focused: bool,
    /// Whether the window is shown.
    pub is_open: bool,
    /// Whether the window fills the screen above the dock.
    pub is_maximized: bool,
    /// Left edge before the window was maximized.
    pub prev_x: i32,
    /// Top edge before the window was maximized.
    pub prev_y: i32,
    /// Width before the window was maximized.
    pub prev_w: usize,
    /// Height before the window was maximized.
    pub prev_h: usize,
    /// Whether an open or close animation is running.
    pub is_animating: bool,
    /// Animation progress in percent (100 fully shown, 0 fully hidden).
    pub anim_progress: i32,
    /// Direction of the animation: `true` opening, `false` closing.
    pub anim_direction: bool,
}

/// A window as the desktop sets it up before it is first opened: closed,
/// unfocused, not animating, fully shown, its saved geometry equal to its own.
pub open spec fn fresh_window(
    id: u32,
    title: &'static str,
    x: i32,
    y: i32,
    width: usize,
    height: usize,
) -> Window {
    Window {
        id,
        title,
        x,
        y,
        width,
        height,
        is_dragging: false,
        is_focused: false,
        is_open: false,
        is_maximized: false,
        prev_x: x,
        prev_y: y,
        prev_w: width,
        prev_h: height,
        is_animating: false,
        anim_progress: 100,
        anim_direction: true,
    }
}

fn new_window(id: u32, title: &'static str, x: i32, y: i32, width: usize, height: usize) -> (w:
    Window)
    ensures
        w == fresh_window(id, title, x, y, width, height),
{
    Window {
        id,
        title,
        x,
        y,
        width,
        height,
        is_dragging: false,
        is_focused: false,
        is_open: false,
        is_maximized: false,
        prev_x: x,
        prev_y: y,
        prev_w: width,
        prev_h: height,
        is_animating: false,
        anim_progress: 100,
        anim_direction: true,
    }
}

/// The window slots at start-up, bottom to top: the system monitor, the file
/// manager, the console and the settings window, all closed; the last slot empty.
pub open spec fn initial_slots() -> Seq<Option<Window>> {
    seq![
        Some(fresh_window(MONITOR_ID, "System Monitor", 100, 60, 520, 420)),
        Some(fresh_window(FILES_ID, "File Manager", 680, 80, 480, 360)),
        Some(fresh_window(CONSOLE_ID, "Console", 200, 200, 580, 380)),
        Some(fresh_window(SETTINGS_ID, "Settings", 320, 160, 440, 280)),
        None,
    ]
}

/// The window slots at start-up (see `initial_slots`).
pub fn initial_windows() -> (slots: [Option<Window>; 5])
    ensures
        slots@ == initial_slots(),
{
    let slots = [
        Some(new_window(MONITOR_ID, "System Monitor", 100, 60, 520, 420)),
        Some(new_window(FILES_ID, "File Manager", 680, 80, 480, 360)),
        Some(new_window(CONSOLE_ID, "Console", 200, 200, 580, 380)),
        Some(new_window(SETTINGS_ID, "Settings", 320, 160, 440, 280)),
        None,
    ];
    assert(slots@ =~= initial_slots());
    slots
}

/// `w` after one animation tick: an opening window gains 10 percent until it
/// reaches 100, then stops animating and takes the focus; a closing window
/// loses 10 percent until it reaches 0, then stops animating and closes.
pub open spec fn animated_once(w: Window) -> Window {
    if !w.is_animating {
        w
    } else if w.anim_direction {
        if w.anim_progress < 100 {
            Window { anim_progress: (w.anim_progress + 10) as i32, ..w }
        } else {
            Window { is_animating: false, is_focused: true, ..w }
        }
    } else {
        if w.anim_progress > 0 {
            Window { anim_progress: (w.anim_progress - 10) as i32, ..w }
        } else {
            Window { is_animating: false, is_open: false, is_focused: false, ..w }
        }
    }
}

/// Advances the window's open or close animation by one tick (see `animated_once`).
pub fn step_animation(w: &mut Window)
    ensures
        *final(w) == animated_once(*old(w)),
{
    if w.is_animating {
        if w.anim_direction {
            if w.anim_progress < 100 {
                w.anim_progress = w.anim_progress + 10;
            } else {
                w.is_animating = false;
                w.is_focused = true;
            }
        } else {
            if w.anim_progress > 0 {
                w.anim_progress = w.anim_progress - 10;
            } else {
                w.is_animating = false;
                w.is_open = false;
                w.is_focused = false;
            }
        }
    }
}

/// Whether the animation progress is a multiple of 10 between 0 and 100.
pub open spec fn progress_in_steps(p: int) -> bool {
    0 <= p <= 100 && p % 10 == 0
}

/// An animation tick keeps the progress a multiple of 10 between 0 and 100.
pub proof fn law_animation_progress_stays_in_steps(w: Window)
    requires
        progress_in_steps(w.anim_progress as int),
    ensures
        progress_in_steps(animated_once(w).anim_progress as int),
{
}

/// `w` after `n` animation ticks.
pub open spec fn animated_times(w: Window, n: nat) -> Window
    decreases n,
{
    if n == 0 {
        w
    } else {
        animated_times(animated_once(w), (n - 1) as nat)
    }
}

/// An animation that starts at a progress of whole steps runs to its end: an
/// opening one from progress `p` leaves the window focused after
/// `(100 - p) / 10 + 1` ticks, a closing one leaves it closed after `p / 10 + 1`.
pub proof fn law_animation_finishes(w: Window)
    requires
        w.is_animating,
        progress_in_steps(w.anim_progress as int),
    ensures
        w.anim_direction ==> {
            let e = animated_times(w, ((100 - w.anim_progress) / 10 + 1) as nat);
            !e.is_animating && e.is_focused && e.anim_progress == 100
        },
        !w.anim_direction ==> {
            let e = animated_times(w, (w.anim_progress / 10 + 1) as nat);
            !e.is_animating && !e.is_open && !e.is_focused && e.anim_progress == 0
        },
    decreases (if w.anim_direction { 100 - w.anim_progress } else { w.anim_progress as int }),
{
    let next = animated_once(w);
    if w.anim_direction {
        if w.anim_progress < 100 {
            law_animation_finishes(next);
            assert(((100 - w.anim_progress) / 10 + 1) as nat == ((100 - next.anim_progress) / 10
                + 1) as nat + 1);
        } else {
            assert(animated_times(next, 0) == next);
        }
    } else {
        if w.anim_progress > 0 {
            law_animation_finishes(next);
            assert((w.anim_progress / 10 + 1) as nat == (next.anim_progress / 10 + 1) as nat + 1);
        } else {
            assert(animated_times(next, 0) == next);
        }
    }
}

/// `w` with a closing animation started from fully shown.
pub open spec fn closing(w: Window) -> Window {
    Window { is_animating: true, anim_direction: false, anim_progress: 100, ..w }
}

/// Starts the window's close animation from fully shown (used by the close
/// and minimize buttons and by a second dock click on a focused window).
pub fn begin_close(w: &mut Window)
    ensures
        *final(w) == closing(*old(w)),
{
    w.is_animating = true;
    w.anim_direction = false;
    w.anim_progress = 100;
}

/// `w` after the maximize button: a normal window saves its geometry and fills
/// the `sw x sh` screen above the 52-pixel dock strip; a maximized window gets
/// its saved geometry back.
pub open spec fn maximize_toggled(w: Window, sw: i32, sh: i32) -> Window {
    if !w.is_maximized {
        Window {
            prev_x: w.x,
            prev_y: w.y,
            prev_w: w.width,
            prev_h: w.height,
            x: 0,
            y: 0,
            width: sw as usize,
            height: (sh - DOCK_RESERVE) as usize,
            is_maximized: true,
            ..w
        }
    } else {
        Window {
            x: w.prev_x,
            y: w.prev_y,
            width: w.prev_w,
            height: w.prev_h,
            is_maximized: false,
            ..w
        }
    }
}

/// Maximizes a normal window or restores a maximized one (see `maximize_toggled`).
pub fn toggle_maximize(w: &mut Window, sw: i32, sh: i32)
    requires
        sh >= i32::MIN + DOCK_RESERVE,
    ensures
        *final(w) == maximize_toggled(*old(w), sw, sh),
{
    if !w.is_maximized {
        w.prev_x = w.x;
        w.prev_y = w.y;
        w.prev_w = w.width;
        w.prev_h = w.height;
        w.x = 0;
        w.y = 0;
        w.width = sw as usize;
        w.height = (sh - DOCK_RESERVE) as usize;
        w.is_maximized = true;
    } else {
        w.x = w.prev_x;
        w.y = w.prev_y;
        w.width = w.prev_w;
        w.height = w.prev_h;
        w.is_maximized = false;
    }
}

/// Maximizing a normal window and pressing the button again gives the window
/// its position and size back.
pub proof fn law_maximize_then_restore(w: Window, sw: i32, sh: i32)
    requires
        !w.is_maximized,
    ensures
        ({
            let back = maximize_toggled(maximize_toggled(w, sw, sh), sw, sh);
            &&& back.x == w.x
            &&& back.y == w.y
            &&& back.width == w.width
            &&& back.height == w.height
            &&& !back.is_maximized
        }),
{
}

/// A button of the title bar.
#[derive(Clone, Copy, Debug, PartialEq, Eq)]
pub enum TitleButton {
    /// The red close button.
    Close,
    /// The yellow minimize button.
    Minimize,
    /// The green maximize button.
    Maximize,
    /// The rest of the title bar.
    Bar,
}

/// Whether `(cx, cy)` is on the 12 x 12 button whose corner is `(bx, by)`.
pub open spec fn on_button(cx: int, cy: int, bx: int, by: int) -> bool {
    bx <= cx < bx + 12 && by <= cy < by + 12
}

/// The title-bar button under `(cx, cy)` for a window drawn at `(ax, ay)`:
/// close at `(ax + 16, ay + 11)`, minimize 18 pixels right of it, maximize 36.
pub open spec fn title_button_at(ax: int, ay: int, cx: int, cy: int) -> TitleButton {
    if on_button(cx, cy, ax + 16, ay + 11) {
        TitleButton::Close
    } else if on_button(cx, cy, ax + 52, ay + 11) {
        TitleButton::Maximize
    } else if on_button(cx, cy, ax + 34, ay + 11) {
        TitleButton::Minimize
    } else {
        TitleButton::Bar
    }
}

/// The title-bar button under the cursor (see `title_button_at`).
pub fn title_button(ax: i32, ay: i32, cx: i32, cy: i32) -> (b: TitleButton)
    requires
        ax <= i32::MAX - 64,
        ay <= i32::MAX - 23,
    ensures
        b == title_button_at(ax as int, ay as int, cx as int, cy as int),
{
    let in_row = cy >= ay + 11 && cy < ay + 23;
    if in_row && cx >= ax + 16 && cx < ax + 28 {
        TitleButton::Close
    } else if in_row && cx >= ax + 52 && cx < ax + 64 {
        TitleButton::Maximize
    } else if in_row && cx >= ax + 34 && cx < ax + 46 {
        TitleButton::Minimize
    } else {
        TitleButton::Bar
    }
}

} // verus!
