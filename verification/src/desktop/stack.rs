//! The window stack: five slots, bottom to top. Input handling looks at the
//! first four; the slot of the topmost window holds the focused one.
use vstd::prelude::*;
use crate::desktop::window::{Window, CONSOLE_ID};
use crate::dirty::{DirtyRectTracker, after_adds, lemma_after_adds_push};

verus! {

/// Number of window slots.
pub const SLOT_COUNT: usize = 5;

/// Number of slots that input handling looks at.
pub const INPUT_SLOTS: usize = 4;

/// Number of occupied slots among the first `n`.
pub open spec fn occupied(s: Seq<Option<Window>>, n: int) -> int
    decreases n,
{
    if n <= 0 {
        0
    } else {
        occupied(s, n - 1) + if s[n - 1] is Some {
            1int
        } else {
            0int
        }
    }
}

/// At most `n` of the first `n` slots are occupied.
pub proof fn lemma_occupied_bound(s: Seq<Option<Window>>, n: int)
    requires
        0 <= n,
    ensures
        0 <= occupied(s, n) <= n,
    decreases n,
{
    if n > 0 {
        lemma_occupied_bound(s, n - 1);
    }
}

/// How many of the first four slots hold a window.
pub fn count_windows(slots: &[Option<Window>; 5]) -> (n: usize)
    ensures
        n == occupied(slots@, 4),
        n <= 4,
{
    let mut n: usize = 0;
    let mut i: usize = 0;
    while i < INPUT_SLOTS
        invariant
            i <= 4,
            n == occupied(slots@, i as int),
            n <= i,
        decreases 4 - i,
    {
        proof {
            lemma_occupied_bound(slots@, i as int);
        }
        if slots[i].is_some() {
            n = n + 1;
        }
        i = i + 1;
    }
    n
}

/// `o` with its window, if any, unfocused and released.
pub open spec fn unfocused(o: Option<Window>) -> Option<Window> {
    match o {
        Some(w) => Some(Window { is_focused: false, is_dragging: false, ..w }),
        None => None,
    }
}

/// `w` focused, and following the mouse when `drag` holds.
pub open spec fn to_front(w: Window, drag: bool) -> Window {
    Window { is_focused: true, is_dragging: if drag { true } else { w.is_dragging }, ..w }
}

/// The slots once the window in slot `idx` is brought to the top of the
/// first `count`: the windows above it move down a slot, every other window
/// of the first `count` loses focus and drag, and the raised window, focused
/// (and dragged when `drag` holds), takes slot `count - 1`.
pub open spec fn raised(s: Seq<Option<Window>>, idx: int, count: int, drag: bool) -> Seq<
    Option<Window>,
> {
    Seq::new(
        s.len(),
        |j: int|
            if j < idx {
                unfocused(s[j])
            } else if j < count - 1 {
                unfocused(s[j + 1])
            } else if j == count - 1 {
                Some(to_front(s[idx].unwrap(), drag))
            } else {
                s[j]
            },
    )
}

/// Brings the window in slot `idx` to the top of the first `count` slots and
/// gives it the focus (see `raised`).
pub fn raise_window(slots: &mut [Option<Window>; 5], idx: usize, count: usize, drag: bool)
    requires
        idx < count <= 4,
        old(slots)@[idx as int] is Some,
    ensures
        final(slots)@ == raised(old(slots)@, idx as int, count as int, drag),
{
    let ghost start = slots@;
    let raised_win = match slots[idx] {
        Some(w) => w,
        None => {
            return;
        },
    };
    let mut j = idx;
    while j < count - 1
        invariant
            idx <= j <= count - 1,
            count <= 4,
            slots@.len() == 5,
            forall|k: int| 0 <= k < idx ==> slots@[k] == start[k],
            forall|k: int| idx <= k < j ==> slots@[k] == start[k + 1],
            forall|k: int| j <= k < 5 ==> slots@[k] == start[k],
        decreases count - 1 - j,
    {
        let above = slots[j + 1];
        slots[j] = above;
        j = j + 1;
    }
    let mut k: usize = 0;
    while k < count - 1
        invariant
            k <= count - 1,
            count <= 4,
            idx < count,
            slots@.len() == 5,
            forall|m: int| 0 <= m < k && m < idx ==> slots@[m] == unfocused(start[m]),
            forall|m: int| k <= m < idx ==> slots@[m] == start[m],
            forall|m: int| 0 <= m < k && idx <= m < count - 1 ==> slots@[m] == unfocused(start[m + 1]),
            forall|m: int| k <= m && idx <= m < count - 1 ==> slots@[m] == start[m + 1],
            forall|m: int| count - 1 <= m < 5 ==> slots@[m] == start[m],
        decreases count - 1 - k,
    {
        match slots[k] {
            Some(w) => {
                slots[k] = Some(Window { is_focused: false, is_dragging: false, ..w });
            },
            None => {},
        }
        k = k + 1;
    }
    let front = Window {
        is_focused: true,
        is_dragging: if drag { true } else { raised_win.is_dragging },
        ..raised_win
    };
    slots[count - 1] = Some(front);
    assert(slots@ =~= raised(start, idx as int, count as int, drag));
}

/// The slots with every window of the first `count` unfocused and released.
pub open spec fn all_unfocused(s: Seq<Option<Window>>, count: int) -> Seq<Option<Window>> {
    Seq::new(s.len(), |j: int| if j < count { unfocused(s[j]) } else { s[j] })
}

/// Takes focus and drag from every window in the first `count` slots.
pub fn unfocus_all(slots: &mut [Option<Window>; 5], count: usize)
    requires
        count <= 5,
    ensures
        final(slots)@ == all_unfocused(old(slots)@, count as int),
{
    let ghost start = slots@;
    let mut k: usize = 0;
    while k < count
        invariant
            k <= count <= 5,
            slots@.len() == 5,
            forall|m: int| 0 <= m < k ==> slots@[m] == unfocused(start[m]),
            forall|m: int| k <= m < 5 ==> slots@[m] == start[m],
        decreases count - k,
    {
        match slots[k] {
            Some(w) => {
                slots[k] = Some(Window { is_focused: false, is_dragging: false, ..w });
            },
            None => {},
        }
        k = k + 1;
    }
    assert(slots@ =~= all_unfocused(start, count as int));
}

/// `o` with its window, if any, no longer following the mouse.
pub open spec fn released(o: Option<Window>) -> Option<Window> {
    match o {
        Some(w) => Some(Window { is_dragging: false, ..w }),
        None => None,
    }
}

/// The slots once the mouse button is up: no window of the first four follows
/// the mouse.
pub open spec fn all_released(s: Seq<Option<Window>>) -> Seq<Option<Window>> {
    Seq::new(s.len(), |j: int| if j < 4 { released(s[j]) } else { s[j] })
}

/// Stops every window of the first four slots from following the mouse.
pub fn release_drag(slots: &mut [Option<Window>; 5])
    ensures
        final(slots)@ == all_released(old(slots)@),
{
    let ghost start = slots@;
    let mut k: usize = 0;
    while k < INPUT_SLOTS
        invariant
            k <= 4,
            slots@.len() == 5,
            forall|m: int| 0 <= m < k ==> slots@[m] == released(start[m]),
            forall|m: int| k <= m < 5 ==> slots@[m] == start[m],
        decreases 4 - k,
    {
        match slots[k] {
            Some(w) => {
                slots[k] = Some(Window { is_dragging: false, ..w });
            },
            None => {},
        }
        k = k + 1;
    }
    assert(slots@ =~= all_released(start));
}

/// Whether one of the first four slots holds the focused console window.
pub open spec fn console_focused(s: Seq<Option<Window>>) -> bool {
    exists|i: int|
        0 <= i < 4 && (#[trigger] s[i] matches Some(w) && w.id == CONSOLE_ID && w.is_focused)
}

/// Whether typed text goes to the console: its window is focused.
pub fn terminal_focused(slots: &[Option<Window>; 5]) -> (b: bool)
    ensures
        b == console_focused(slots@),
{
    let mut i: usize = 0;
    while i < INPUT_SLOTS
        invariant
            i <= 4,
            forall|k: int|
                0 <= k < i ==> !(#[trigger] slots@[k] matches Some(w) && w.id == CONSOLE_ID
                    && w.is_focused),
        decreases 4 - i,
    {
        match slots[i] {
            Some(w) => {
                if w.id == CONSOLE_ID && w.is_focused {
                    return true;
                }
            },
            None => {},
        }
        i = i + 1;
    }
    false
}

/// The first slot among `i..4` that holds the window `id`, if any.
pub open spec fn first_slot_from(s: Seq<Option<Window>>, id: u32, i: int) -> Option<int>
    decreases 4 - i,
{
    if i >= 4 || i < 0 {
        None
    } else if s[i] matches Some(w) && w.id == id {
        Some(i)
    } else {
        first_slot_from(s, id, i + 1)
    }
}

/// The first of the first four slots that holds the window `id`, if any.
pub fn find_window(slots: &[Option<Window>; 5], id: u32) -> (r: Option<usize>)
    ensures
        match r {
            Some(i) => first_slot_from(slots@, id, 0) == Some(i as int) && i < 4,
            None => first_slot_from(slots@, id, 0) is None,
        },
{
    let mut i: usize = 0;
    while i < INPUT_SLOTS
        invariant
            i <= 4,
            first_slot_from(slots@, id, 0) == first_slot_from(slots@, id, i as int),
        decreases 4 - i,
    {
        match slots[i] {
            Some(w) => {
                if w.id == id {
                    return Some(i);
                }
            },
            None => {},
        }
        i = i + 1;
    }
    None
}

/// The region redrawn around window `w` drawn at `(ax, ay)`: 20 pixels of
/// shadow margin on every side.
pub open spec fn shadow_region(ax: int, ay: int, w: Window) -> (i32, i32, i32, i32) {
    ((ax - 20) as i32, (ay - 20) as i32, (w.width as i32 + 40) as i32, (w.height as i32 + 40) as i32)
}

/// The shadow region of a window drawn at `ax` or `ay` computes within `i32`.
pub open spec fn region_fits(ax: int, ay: int, w: Window) -> bool {
    &&& i32::MIN + 20 <= ax <= i32::MAX
    &&& i32::MIN + 20 <= ay <= i32::MAX
    &&& w.width as i32 + 40 <= i32::MAX
    &&& w.height as i32 + 40 <= i32::MAX
}

/// Whether slot `j` of `s` holds a window that follows the mouse.
pub open spec fn dragging_at(s: Seq<Option<Window>>, j: int) -> bool {
    s[j] matches Some(w) && w.is_dragging
}

/// Moving the dragged windows of the first four slots by `(dx, dy)` computes
/// within `i32`, for windows drawn at `drawn`.
pub open spec fn drag_fits(s: Seq<Option<Window>>, drawn: Seq<(i32, i32)>, dx: int, dy: int) -> bool {
    forall|j: int|
        0 <= j < 4 && #[trigger] dragging_at(s, j) ==> {
            let w = s[j].unwrap();
            &&& i32::MIN <= w.x + dx <= i32::MAX
            &&& i32::MIN <= w.y + dy <= i32::MAX
            &&& region_fits(drawn[j].0 as int, drawn[j].1 as int, w)
            &&& region_fits(drawn[j].0 + dx, drawn[j].1 + dy, w)
        }
}

/// The slots once the windows that follow the mouse are moved by `(dx, dy)`.
pub open spec fn dragged(s: Seq<Option<Window>>, dx: int, dy: int) -> Seq<Option<Window>> {
    Seq::new(
        s.len(),
        |j: int|
            if j < 4 && dragging_at(s, j) {
                Some(Window { x: (s[j].unwrap().x + dx) as i32, y: (s[j].unwrap().y + dy) as i32, ..s[j].unwrap() })
            } else {
                s[j]
            },
    )
}

/// The regions recorded while the windows in the first `n` slots that follow
/// the mouse move by `(dx, dy)`: for each, in slot order, the region around it
/// where it was drawn (`drawn`) and where it is drawn after the move.
pub open spec fn drag_regions(
    s: Seq<Option<Window>>,
    drawn: Seq<(i32, i32)>,
    dx: int,
    dy: int,
    n: int,
) -> Seq<(i32, i32, i32, i32)>
    decreases n,
{
    if n <= 0 {
        seq![]
    } else {
        let before = drag_regions(s, drawn, dx, dy, n - 1);
        if dragging_at(s, n - 1) {
            let w = s[n - 1].unwrap();
            before.push(shadow_region(drawn[n - 1].0 as int, drawn[n - 1].1 as int, w)).push(
                shadow_region(drawn[n - 1].0 + dx, drawn[n - 1].1 + dy, w),
            )
        } else {
            before
        }
    }
}

/// Moves every window of the first four slots that follows the mouse by
/// `(dx, dy)` and records, for each, the regions around where it was drawn
/// and where it is drawn now.
///
/// `drawn[j]` is where the window in slot `j` is drawn before the move (its
/// animated position); the window is taken to be drawn `(dx, dy)` further after it.
pub fn drag_windows(
    slots: &mut [Option<Window>; 5],
    tracker: &mut DirtyRectTracker,
    dx: i32,
    dy: i32,
    drawn: &[(i32, i32); 4],
)
    requires
        drag_fits(old(slots)@, drawn@, dx as int, dy as int),
    ensures
        final(slots)@ == dragged(old(slots)@, dx as int, dy as int),
        final(tracker).contents() == after_adds(
            old(tracker).contents(),
            drag_regions(old(slots)@, drawn@, dx as int, dy as int, 4),
        ),
{
    let ghost start = slots@;
    let ghost t0 = tracker.contents();
    let mut i: usize = 0;
    while i < INPUT_SLOTS
        invariant
            i <= 4,
            slots@.len() == 5,
            start.len() == 5,
            drawn@.len() == 4,
            drag_fits(start, drawn@, dx as int, dy as int),
            forall|m: int| 0 <= m < i ==> slots@[m] == dragged(start, dx as int, dy as int)[m],
            forall|m: int| i <= m < 5 ==> slots@[m] == start[m],
            tracker.contents() == after_adds(t0, drag_regions(start, drawn@, dx as int, dy as int, i as int)),
        decreases 4 - i,
    {
        match slots[i] {
            Some(w) => {
                if w.is_dragging {
                    assert(dragging_at(start, i as int));
                    let (ax, ay) = drawn[i];
                    let ww = w.width as i32 + 40;
                    let wh = w.height as i32 + 40;
                    let ghost before = drag_regions(start, drawn@, dx as int, dy as int, i as int);
                    let ghost r1 = shadow_region(ax as int, ay as int, w);
                    let ghost r2 = shadow_region(ax + dx, ay + dy, w);
                    tracker.add_rect(ax - 20, ay - 20, ww, wh);
                    proof {
                        lemma_after_adds_push(t0, before, r1);
                    }
                    slots[i] = Some(Window { x: w.x + dx, y: w.y + dy, ..w });
                    let nx = ax + dx;
                    let ny = ay + dy;
                    tracker.add_rect(nx - 20, ny - 20, ww, wh);
                    proof {
                        lemma_after_adds_push(t0, before.push(r1), r2);
                    }
                }
            },
            None => {},
        }
        assert(slots@[i as int] == dragged(start, dx as int, dy as int)[i as int]);
        i = i + 1;
    }
    assert(slots@ =~= dragged(start, dx as int, dy as int));
}

} // verus!
