//! Mouse tracking between input events.
use vstd::prelude::*;

verus! {

/// Cursor position and button state carried from one input event to the next.
pub struct InputState {
    /// Current cursor column.
    pub cursor_x: i32,
    /// Current cursor row.
    pub cursor_y: i32,
    /// Cursor column at the previous event.
    pub prev_mouse_x: i32,
    /// Cursor row at the previous event.
    pub prev_mouse_y: i32,
    /// Whether the left button was down at the previous event (1 when it was).
    pub prev_left_clicked: u8,
}

impl InputState {
    /// The state before any event: the cursor at (400, 300), the button up.
    pub fn new() -> (s: Self)
        ensures
            s.cursor_x == 400,
            s.cursor_y == 300,
            s.prev_mouse_x == 400,
            s.prev_mouse_y == 300,
            s.prev_left_clicked == 0,
    {
        InputState {
            cursor_x: 400,
            cursor_y: 300,
            prev_mouse_x: 400,
            prev_mouse_y: 300,
            prev_left_clicked: 0,
        }
    }
}

impl InputState {
    /// The state at start-up on a `width x height` screen: the cursor, and its
    /// previous position, at the screen's center; the button up.
    pub fn centered(width: u64, height: u64) -> (s: Self)
        requires
            width <= i32::MAX,
            height <= i32::MAX,
        ensures
            s.cursor_x == width / 2,
            s.cursor_y == height / 2,
            s.prev_mouse_x == width / 2,
            s.prev_mouse_y == height / 2,
            s.prev_left_clicked == 0,
    {
        let mut s = InputState::new();
        s.cursor_x = (width as i32) / 2;
        s.cursor_y = (height as i32) / 2;
        s.prev_mouse_x = s.cursor_x;
        s.prev_mouse_y = s.cursor_y;
        s
    }
}

impl Default for InputState {
    fn default() -> (s: Self)
        ensures
            s.cursor_x == 400,
            s.cursor_y == 300,
            s.prev_mouse_x == 400,
            s.prev_mouse_y == 300,
            s.prev_left_clicked == 0,
    {
        Self::new()
    }
}

} // verus!
