//! The main loop's timing and per-frame decisions: when metrics refresh and
//! animations step, which screen regions a frame redraws, how each window is
//! brought on screen, and how the finished frame reaches the display.
use vstd::prelude::*;
use crate::desktop::window::{Window, animated_once, step_animation, SETTINGS_ID};
use crate::canvas::{fitted_size, MAX_BUFFER_BYTES, FALLBACK_WIDTH, FALLBACK_HEIGHT};
use crate::desktop::stack::{shadow_region, region_fits};
use crate::dirty::{DirtyRect, DirtyRectTracker, after_adds, lemma_after_adds_push};
use crate::graphics::raster::{in_rect, rect_fits};
use crate::graphics::compositor::{
    grid_byte, cursor_byte, copy_rect_back_to_fb, draw_cursor_to_buf, CURSOR_WIDTH, CURSOR_HEIGHT,
};

verus! {

/// The display as the kernel describes it.
#[derive(Clone, Copy, Debug, PartialEq, Eq)]
pub struct ScreenInfo {
    /// Address of the display memory.
    pub framebuffer_addr: u64,
    /// Width in pixels.
    pub width: u64,
    /// Height in pixels.
    pub height: u64,
    /// Bytes per row.
    pub stride: u64,
    /// Bytes per pixel.
    pub bytes_per_pixel: u64,
    /// Channel order: 0 blue-green-red, otherwise red-green-blue.
    pub format: u32,
}

/// Caps a display whose pixels do not fit the back buffer to 1920 x 1080
/// (see `fitted_size`); other fields stay.
pub fn fit_screen(info: &mut ScreenInfo)
    requires
        old(info).width <= i32::MAX,
        old(info).height <= i32::MAX,
    ensures
        final(info).width == fitted_size(old(info).width, old(info).height).0,
        final(info).height == fitted_size(old(info).width, old(info).height).1,
        *final(info) == (ScreenInfo { width: final(info).width, height: final(info).height, ..*old(info) }),
{
    assert(info.width * info.height <= i32::MAX * i32::MAX) by (nonlinear_arith)
        requires
            info.width <= i32::MAX,
            info.height <= i32::MAX,
    ;
    if info.width * info.height * 3 > MAX_BUFFER_BYTES {
        info.width = FALLBACK_WIDTH;
        info.height = FALLBACK_HEIGHT;
    }
}

/// Ticks between two refreshes of the system metrics.
pub const METRICS_PERIOD: u64 = 10;

/// Number of CPU load samples kept for the monitor's graph.
pub const CPU_HISTORY_LEN: usize = 40;

/// When the main loop last refreshed the metrics and last stepped animations.
#[derive(Clone, Copy, Debug, PartialEq, Eq)]
pub struct FrameClock {
    /// Tick of the last metrics refresh.
    pub last_metrics_tick: u64,
    /// Tick of the last animation step (kept current while nothing animates).
    pub last_anim_tick: u64,
}

impl FrameClock {
    /// A clock that has done nothing yet.
    pub fn new() -> (c: Self)
        ensures
            c.last_metrics_tick == 0,
            c.last_anim_tick == 0,
    {
        FrameClock { last_metrics_tick: 0, last_anim_tick: 0 }
    }

    /// Whether the metrics are due at tick `ticks`: 10 ticks or more after the
    /// last refresh, which is then set to `ticks`.
    pub fn metrics_due(&mut self, ticks: u64) -> (due: bool)
        requires
            old(self).last_metrics_tick <= ticks,
        ensures
            due == (ticks - old(self).last_metrics_tick >= METRICS_PERIOD),
            final(self).last_metrics_tick == (if due { ticks } else { old(self).last_metrics_tick }),
            final(self).last_anim_tick == old(self).last_anim_tick,
    {
        if ticks - self.last_metrics_tick >= METRICS_PERIOD {
            self.last_metrics_tick = ticks;
            true
        } else {
            false
        }
    }

    /// Whether animations step at tick `ticks`: something animates and the
    /// tick moved on since the last step, which is then set to `ticks`. While
    /// nothing animates the last step follows the ticks.
    pub fn animation_due(&mut self, ticks: u64, anim_running: bool) -> (due: bool)
        requires
            old(self).last_anim_tick <= ticks,
        ensures
            due == (anim_running && ticks - old(self).last_anim_tick >= 1),
            final(self).last_anim_tick == (if due || !anim_running {
                ticks
            } else {
                old(self).last_anim_tick
            }),
            final(self).last_metrics_tick == old(self).last_metrics_tick,
    {
        if anim_running && ticks - self.last_anim_tick >= 1 {
            self.last_anim_tick = ticks;
            true
        } else {
            if !anim_running {
                self.last_anim_tick = ticks;
            }
            false
        }
    }
}

/// The CPU history after sample `load`: every sample moves one place toward
/// the front, the oldest drops out, and the new one, in whole percent
/// (`cpu_usage / 100`, kept to its low byte), goes last.
pub open spec fn history_after(h: Seq<u8>, cpu_usage: u64) -> Seq<u8> {
    h.drop_first().push((cpu_usage / 100) as u8)
}

/// Adds a CPU load sample to the history (see `history_after`).
pub fn push_cpu_sample(history: &mut [u8; 40], cpu_usage: u64)
    ensures
        final(history)@ == history_after(old(history)@, cpu_usage),
{
    let ghost start = history@;
    let mut i: usize = 0;
    while i < CPU_HISTORY_LEN - 1
        invariant
            i <= 39,
            history@.len() == 40,
            start.len() == 40,
            forall|k: int| 0 <= k < i ==> history@[k] == start[k + 1],
            forall|k: int| i <= k < 40 ==> history@[k] == start[k],
        decreases 39 - i,
    {
        let next = history[i + 1];
        history[i] = next;
        i = i + 1;
    }
    history[CPU_HISTORY_LEN - 1] = (cpu_usage / 100) as u8;
    assert(history@ =~= history_after(start, cpu_usage));
}

/// Whether a window of the first four slots is animating.
pub open spec fn any_window_animating(s: Seq<Option<Window>>) -> bool {
    exists|i: int| 0 <= i < 4 && (#[trigger] s[i] matches Some(w) && w.is_animating)
}

/// Whether anything animates: a window of the first four slots, or the start menu.
pub fn animation_running(slots: &[Option<Window>; 5], start_menu_animating: bool) -> (b: bool)
    ensures
        b == (any_window_animating(slots@) || start_menu_animating),
{
    let mut i: usize = 0;
    while i < 4
        invariant
            i <= 4,
            forall|k: int| 0 <= k < i ==> !(#[trigger] slots@[k] matches Some(w) && w.is_animating),
        decreases 4 - i,
    {
        match slots[i] {
            Some(w) => {
                if w.is_animating {
                    return true;
                }
            },
            None => {},
        }
        i = i + 1;
    }
    start_menu_animating
}

/// The slots after one animation tick of each window of the first four.
pub open spec fn stepped(s: Seq<Option<Window>>) -> Seq<Option<Window>> {
    Seq::new(
        s.len(),
        |j: int|
            if j < 4 {
                match s[j] {
                    Some(w) => Some(animated_once(w)),
                    None => None,
                }
            } else {
                s[j]
            },
    )
}

/// Advances the animation of each window of the first four slots by one tick.
pub fn step_window_animations(slots: &mut [Option<Window>; 5])
    ensures
        final(slots)@ == stepped(old(slots)@),
{
    let ghost start = slots@;
    let mut i: usize = 0;
    while i < 4
        invariant
            i <= 4,
            slots@.len() == 5,
            start.len() == 5,
            forall|k: int| 0 <= k < i ==> slots@[k] == stepped(start)[k],
            forall|k: int| i <= k < 5 ==> slots@[k] == start[k],
        decreases 4 - i,
    {
        match slots[i] {
            Some(w) => {
                let mut nw = w;
                step_animation(&mut nw);
                slots[i] = Some(nw);
            },
            None => {},
        }
        assert(slots@[i as int] == stepped(start)[i as int]);
        i = i + 1;
    }
    assert(slots@ =~= stepped(start));
}

/// Whether the main loop draws a frame: a redraw is due, the cursor moved
/// since the last frame, or an event was handled.
pub open spec fn frame_wanted(
    needs_redraw: bool,
    cursor: (i32, i32),
    last_drawn: (i32, i32),
    event_processed: bool,
) -> bool {
    needs_redraw || cursor != last_drawn || event_processed
}

/// Whether the main loop draws a frame (see `frame_wanted`).
pub fn frame_needed(
    needs_redraw: bool,
    cursor: (i32, i32),
    last_drawn: (i32, i32),
    event_processed: bool,
) -> (b: bool)
    ensures
        b == frame_wanted(needs_redraw, cursor, last_drawn, event_processed),
{
    needs_redraw || cursor.0 != last_drawn.0 || cursor.1 != last_drawn.1 || event_processed
}


/// Whether the window `w` is on screen: open, or animating open or closed.
pub open spec fn on_screen(w: Window) -> bool {
    w.is_open || w.is_animating
}

/// Whether slot `j` holds a window that is on screen and whose drawing is
/// stale: its cache is dirty or it animates.
pub open spec fn needs_region(s: Seq<Option<Window>>, dirty: Seq<bool>, j: int) -> bool {
    s[j] matches Some(w) && on_screen(w) && (dirty[w.id as int] || w.is_animating)
}

/// The regions recorded for the stale on-screen windows of the first `n`
/// slots, drawn at `drawn`, in slot order.
pub open spec fn window_regions(
    s: Seq<Option<Window>>,
    drawn: Seq<(i32, i32)>,
    dirty: Seq<bool>,
    n: int,
) -> Seq<(i32, i32, i32, i32)>
    decreases n,
{
    if n <= 0 {
        seq![]
    } else {
        let before = window_regions(s, drawn, dirty, n - 1);
        if needs_region(s, dirty, n - 1) {
            before.push(shadow_region(drawn[n - 1].0 as int, drawn[n - 1].1 as int, s[n - 1].unwrap()))
        } else {
            before
        }
    }
}

/// The regions a partial redraw records, in order: the metrics text at the
/// top right (200 x 30), the dock with 20 pixels of margin, and the stale
/// windows.
pub open spec fn frame_regions(
    sw: i32,
    sh: i32,
    dock_left: i32,
    dock_w: i32,
    s: Seq<Option<Window>>,
    drawn: Seq<(i32, i32)>,
    dirty: Seq<bool>,
) -> Seq<(i32, i32, i32, i32)> {
    let top = seq![((sw - 200) as i32, 0i32, 200i32, 30i32)];
    let dock = seq![((dock_left - 20) as i32, (sh - 100) as i32, (dock_w + 40) as i32, 100i32)];
    top + dock + window_regions(s, drawn, dirty, 5)
}

/// The screen, dock and window values of a frame compute within `i32`, and
/// every on-screen window names one of the five caches.
pub open spec fn frame_fits(
    sw: i32,
    sh: i32,
    dock_left: i32,
    dock_w: i32,
    s: Seq<Option<Window>>,
    drawn: Seq<(i32, i32)>,
) -> bool {
    &&& sw >= i32::MIN + 200
    &&& sh >= i32::MIN + 314
    &&& dock_left >= i32::MIN + 20
    &&& dock_w <= i32::MAX - 40
    &&& forall|j: int| 0 <= j < 5 ==> #[trigger] slot_fits(s[j], drawn[j])
}

/// A window in a slot, when on screen, names one of the five caches and its
/// region around `at` computes within `i32`.
pub open spec fn slot_fits(o: Option<Window>, at: (i32, i32)) -> bool {
    match o {
        Some(w) => on_screen(w) ==> w.id < 5 && region_fits(at.0 as int, at.1 as int, w),
        None => true,
    }
}

/// A window in a slot, when on screen, names one of the five caches.
pub open spec fn slot_names_cache(o: Option<Window>) -> bool {
    match o {
        Some(w) => on_screen(w) ==> w.id < 5,
        None => true,
    }
}

/// Records the screen regions a frame redraws: everything when a full redraw
/// is due, something animates, or the Applications screen is shown (so that
/// its search box's blinking cursor and typing show at once); else the
/// regions of `frame_regions`.
pub fn plan_dirty_regions(
    tracker: &mut DirtyRectTracker,
    anim_running: bool,
    start_menu_open: bool,
    start_menu_animating: bool,
    sw: i32,
    sh: i32,
    dock_left: i32,
    dock_w: i32,
    slots: &[Option<Window>; 5],
    drawn: &[(i32, i32); 5],
    store_dirty: &[bool; 5],
)
    requires
        frame_fits(sw, sh, dock_left, dock_w, slots@, drawn@),
    ensures
        final(tracker).contents() == (if old(tracker).spec_all_dirty() || anim_running
            || start_menu_open || start_menu_animating {
            (old(tracker).recorded(), true)
        } else {
            after_adds(
                old(tracker).contents(),
                frame_regions(
                    sw,
                    sh,
                    dock_left,
                    dock_w,
                    slots@,
                    drawn@,
                    store_dirty@,
                ),
            )
        }),
{
    if tracker.is_all_dirty() || anim_running || start_menu_open || start_menu_animating {
        tracker.mark_all_dirty();
        return;
    }
    let ghost t0 = tracker.contents();
    let ghost top = seq![((sw - 200) as i32, 0i32, 200i32, 30i32)];
    let ghost dock = seq![((dock_left - 20) as i32, (sh - 100) as i32, (dock_w + 40) as i32, 100i32)];
    tracker.add_rect(sw - 200, 0, 200, 30);
    proof {
        lemma_after_adds_push(t0, seq![], top[0]);
        assert(seq![].push(top[0]) =~= top);
    }
    tracker.add_rect(dock_left - 20, sh - 100, dock_w + 40, 100);
    proof {
        lemma_after_adds_push(t0, top, dock[0]);
        assert(top.push(dock[0]) =~= top + dock);
    }
    let ghost base = top + dock;
    let mut i: usize = 0;
    while i < 5
        invariant
            i <= 5,
            frame_fits(sw, sh, dock_left, dock_w, slots@, drawn@),
            tracker.contents() == after_adds(
                t0,
                base + window_regions(slots@, drawn@, store_dirty@, i as int),
            ),
        decreases 5 - i,
    {
        match slots[i] {
            Some(w) => {
                if w.is_open || w.is_animating {
                    assert(slot_fits(slots@[i as int], drawn@[i as int]));
                    let (ax, ay) = drawn[i];
                    if store_dirty[w.id as usize] || w.is_animating {
                        let ghost before = base + window_regions(slots@, drawn@, store_dirty@, i as int);
                        let ghost r = shadow_region(ax as int, ay as int, w);
                        tracker.add_rect(ax - 20, ay - 20, w.width as i32 + 40, w.height as i32 + 40);
                        proof {
                            lemma_after_adds_push(t0, before, r);
                            assert(before.push(r) =~= base + window_regions(
                                slots@,
                                drawn@,
                                store_dirty@,
                                i + 1,
                            ));
                        }
                    } else {
                        assert(window_regions(slots@, drawn@, store_dirty@, i + 1)
                            == window_regions(slots@, drawn@, store_dirty@, i as int));
                    }
                } else {
                    assert(window_regions(slots@, drawn@, store_dirty@, i + 1)
                        == window_regions(slots@, drawn@, store_dirty@, i as int));
                }
            },
            None => {
                assert(window_regions(slots@, drawn@, store_dirty@, i + 1)
                    == window_regions(slots@, drawn@, store_dirty@, i as int));
            },
        }
        i = i + 1;
    }
}

/// How a window reaches the back buffer this frame.
#[derive(Clone, Copy, Debug, PartialEq, Eq)]
pub enum WindowPaint {
    /// Draw it afresh; when `snapshot` holds, then cache what was drawn and
    /// mark the cache clean.
    Redraw { snapshot: bool },
    /// Copy it from its cache.
    Restore,
}

/// One on-screen window of a frame, bottom to top.
#[derive(Clone, Copy, Debug, PartialEq, Eq)]
pub struct WindowRender {
    /// The window's slot.
    pub slot: usize,
    /// Left edge where it is drawn.
    pub ax: i32,
    /// Top edge where it is drawn.
    pub ay: i32,
    /// How it is painted.
    pub paint: WindowPaint,
}

/// How window `w` is painted: the settings window is always drawn afresh and
/// never cached (its tab hovers and system lines change under the cursor and
/// over time); another window is drawn afresh when its cache is dirty, it
/// animates or it is maximized (and cached afterwards when it neither
/// animates nor is maximized), else restored from the cache.
pub open spec fn paint_of(w: Window, dirty: Seq<bool>) -> WindowPaint {
    if w.id == SETTINGS_ID {
        WindowPaint::Redraw { snapshot: false }
    } else if dirty[w.id as int] || w.is_animating || w.is_maximized {
        WindowPaint::Redraw { snapshot: !w.is_animating && !w.is_maximized }
    } else {
        WindowPaint::Restore
    }
}

/// The paint plan for the on-screen windows of the first `n` slots, bottom to top.
pub open spec fn render_plan(
    s: Seq<Option<Window>>,
    drawn: Seq<(i32, i32)>,
    dirty: Seq<bool>,
    n: int,
) -> Seq<WindowRender>
    decreases n,
{
    if n <= 0 {
        seq![]
    } else {
        let before = render_plan(s, drawn, dirty, n - 1);
        match s[n - 1] {
            Some(w) => if on_screen(w) {
                before.push(
                    WindowRender {
                        slot: (n - 1) as usize,
                        ax: drawn[n - 1].0,
                        ay: drawn[n - 1].1,
                        paint: paint_of(w, dirty),
                    },
                )
            } else {
                before
            },
            None => before,
        }
    }
}

/// The paint plan for the on-screen windows, bottom to top (see `render_plan`).
pub fn window_render_plan(
    slots: &[Option<Window>; 5],
    drawn: &[(i32, i32); 5],
    store_dirty: &[bool; 5],
) -> (plan: Vec<WindowRender>)
    requires
        forall|j: int| 0 <= j < 5 ==> #[trigger] slot_names_cache(slots@[j]),
    ensures
        plan@ == render_plan(slots@, drawn@, store_dirty@, 5),
{
    let mut plan: Vec<WindowRender> = Vec::new();
    let mut i: usize = 0;
    while i < 5
        invariant
            i <= 5,
            forall|j: int| 0 <= j < 5 ==> #[trigger] slot_names_cache(slots@[j]),
            plan@ == render_plan(slots@, drawn@, store_dirty@, i as int),
        decreases 5 - i,
    {
        match slots[i] {
            Some(w) => {
                if w.is_open || w.is_animating {
                    assert(slot_names_cache(slots@[i as int]));
                    let paint = if w.id == SETTINGS_ID {
                        WindowPaint::Redraw { snapshot: false }
                    } else if store_dirty[w.id as usize] || w.is_animating || w.is_maximized {
                        WindowPaint::Redraw { snapshot: !w.is_animating && !w.is_maximized }
                    } else {
                        WindowPaint::Restore
                    };
                    let (ax, ay) = drawn[i];
                    plan.push(WindowRender { slot: i, ax, ay, paint });
                }
            },
            None => {},
        }
        i = i + 1;
    }
    plan
}


/// Whether pixel `(px, py)` lies in one of the first `n` recorded rectangles.
pub open spec fn covered_upto(rects: Seq<Option<DirtyRect>>, n: int, px: int, py: int) -> bool
    decreases n,
{
    if n <= 0 {
        false
    } else {
        covered_upto(rects, n - 1, px, py) || (rects[n - 1] matches Some(r) && in_rect(
            px,
            py,
            r.x as int,
            r.y as int,
            r.w as int,
            r.h as int,
        ))
    }
}

/// Whether a partial present takes pixel `(px, py)` from the back buffer: it
/// lies under the cursor's last drawn position `last` or in a recorded rectangle.
pub open spec fn refreshed(rects: Seq<Option<DirtyRect>>, last: (i32, i32), px: int, py: int) -> bool {
    in_rect(px, py, last.0 as int, last.1 as int, CURSOR_WIDTH as int, CURSOR_HEIGHT as int)
        || covered_upto(rects, rects.len() as int, px, py)
}

/// Every recorded rectangle's right and bottom edges compute within `i32`.
pub open spec fn rects_fit(rects: Seq<Option<DirtyRect>>) -> bool {
    forall|j: int|
        0 <= j < rects.len() ==> #[trigger] rect_fits_opt(rects[j])
}

/// A recorded rectangle, if any, has edges within `i32`.
pub open spec fn rect_fits_opt(o: Option<DirtyRect>) -> bool {
    match o {
        Some(r) => rect_fits(r.x, r.y, r.w, r.h),
        None => true,
    }
}

/// The display and the positions a present works with compute within `i32`
/// and fit both buffers.
pub open spec fn present_fits(
    fb_len: int,
    back_len: int,
    cursor: (i32, i32),
    last: (i32, i32),
    sw: i32,
    sh: i32,
) -> bool {
    &&& 0 <= sw
    &&& 0 <= sh
    &&& sw * sh * 3 <= fb_len
    &&& sw * sh * 3 <= back_len
    &&& sw * sh * 3 <= i32::MAX
    &&& cursor.0 + CURSOR_WIDTH <= i32::MAX
    &&& cursor.1 + CURSOR_HEIGHT <= i32::MAX
    &&& last.0 + CURSOR_WIDTH <= i32::MAX
    &&& last.1 + CURSOR_HEIGHT <= i32::MAX
}

/// Copies the first `n` bytes of `back` over `fb`.
fn copy_prefix(fb: &mut [u8], back: &[u8], n: usize)
    requires
        n <= old(fb)@.len(),
        n <= back@.len(),
    ensures
        final(fb)@.len() == old(fb)@.len(),
        forall|i: int| 0 <= i < n ==> #[trigger] final(fb)@[i] == back@[i],
        forall|i: int| n <= i < old(fb)@.len() ==> #[trigger] final(fb)@[i] == old(fb)@[i],
{
    let ghost start = fb@;
    let mut i: usize = 0;
    while i < n
        invariant
            i <= n,
            n <= start.len(),
            n <= back@.len(),
            fb@.len() == start.len(),
            forall|k: int| 0 <= k < i ==> #[trigger] fb@[k] == back@[k],
            forall|k: int| i <= k < start.len() ==> #[trigger] fb@[k] == start[k],
        decreases n - i,
    {
        fb[i] = back[i];
        i = i + 1;
    }
}

/// Puts a finished frame on the display `fb` (a `sw x sh` screen, three
/// bytes per pixel) from the back buffer `back`: the whole screen when the
/// tracker asks for a full redraw, else the area under the cursor's last drawn
/// position `last` and every recorded rectangle; then draws the cursor at
/// `cursor`.
pub fn present_frame(
    fb: &mut [u8],
    back: &[u8],
    tracker: &DirtyRectTracker,
    cursor: (i32, i32),
    last: (i32, i32),
    sw: i32,
    sh: i32,
)
    requires
        present_fits(old(fb)@.len() as int, back@.len() as int, cursor, last, sw, sh),
        rects_fit(tracker.recorded()),
    ensures
        final(fb)@.len() == old(fb)@.len(),
        forall|px: int, py: int, k: int|
            0 <= px < sw && 0 <= py < sh && 0 <= k < 3 ==> #[trigger] final(fb)@[grid_byte(
                sw as int,
                px,
                py,
                k,
            )] == cursor_byte(
                if tracker.spec_all_dirty() || refreshed(tracker.recorded(), last, px, py) {
                    back@[grid_byte(sw as int, px, py, k)]
                } else {
                    old(fb)@[grid_byte(sw as int, px, py, k)]
                },
                px,
                py,
                cursor.0 as int,
                cursor.1 as int,
            ),
        forall|i: int| sw * sh * 3 <= i < old(fb)@.len() ==> #[trigger] final(fb)@[i] == old(fb)@[i],
{
    let ghost start = fb@;
    let total = (sw * sh * 3) as usize;
    if tracker.is_all_dirty() {
        copy_prefix(fb, back, total);
        proof {
            assert forall|px: int, py: int, k: int|
                0 <= px < sw && 0 <= py < sh && 0 <= k < 3 implies #[trigger] fb@[grid_byte(
                sw as int,
                px,
                py,
                k,
            )] == back@[grid_byte(sw as int, px, py, k)] by {
                crate::canvas::lemma_cell_index_bound(sw as int, sh as int, px, py);
            }
        }
    } else {
        copy_rect_back_to_fb(fb, back, last.0, last.1, CURSOR_WIDTH, CURSOR_HEIGHT, sw, sh);
        let rects = tracker.get_rects();
        let mut i: usize = 0;
        while i < rects.len()
            invariant
                i <= rects@.len(),
                rects@ == tracker.recorded(),
                rects_fit(rects@),
                forall|j: int|
                    0 <= j < rects@.len() ==> ((#[trigger] rects@[j]) matches Some(d) && d.w > 0
                        && d.h > 0),
                0 <= sw,
                0 <= sh,
                sw * sh * 3 <= start.len(),
                sw * sh * 3 <= back@.len(),
                sw * sh * 3 <= i32::MAX,
                fb@.len() == start.len(),
                forall|px: int, py: int, k: int|
                    0 <= px < sw && 0 <= py < sh && 0 <= k < 3 ==> #[trigger] fb@[grid_byte(
                        sw as int,
                        px,
                        py,
                        k,
                    )] == (if in_rect(
                        px,
                        py,
                        last.0 as int,
                        last.1 as int,
                        CURSOR_WIDTH as int,
                        CURSOR_HEIGHT as int,
                    ) || covered_upto(rects@, i as int, px, py) {
                        back@[grid_byte(sw as int, px, py, k)]
                    } else {
                        start[grid_byte(sw as int, px, py, k)]
                    }),
                forall|j: int| sw * sh * 3 <= j < start.len() ==> #[trigger] fb@[j] == start[j],
            decreases rects@.len() - i,
        {
            match rects[i] {
                Some(r) => {
                    assert(rect_fits_opt(rects@[i as int]));
                    copy_rect_back_to_fb(fb, back, r.x, r.y, r.w, r.h, sw, sh);
                },
                None => {},
            }
            i = i + 1;
        }
    }
    draw_cursor_to_buf(fb, cursor.0, cursor.1, sw, sh);
}

/// Moves the cursor on the display without a new frame: the area under its
/// last drawn position `last` comes back from `back`, and the cursor is drawn
/// at `cursor`.
pub fn present_cursor_move(
    fb: &mut [u8],
    back: &[u8],
    cursor: (i32, i32),
    last: (i32, i32),
    sw: i32,
    sh: i32,
)
    requires
        present_fits(old(fb)@.len() as int, back@.len() as int, cursor, last, sw, sh),
    ensures
        final(fb)@.len() == old(fb)@.len(),
        forall|px: int, py: int, k: int|
            0 <= px < sw && 0 <= py < sh && 0 <= k < 3 ==> #[trigger] final(fb)@[grid_byte(
                sw as int,
                px,
                py,
                k,
            )] == cursor_byte(
                if in_rect(
                    px,
                    py,
                    last.0 as int,
                    last.1 as int,
                    CURSOR_WIDTH as int,
                    CURSOR_HEIGHT as int,
                ) {
                    back@[grid_byte(sw as int, px, py, k)]
                } else {
                    old(fb)@[grid_byte(sw as int, px, py, k)]
                },
                px,
                py,
                cursor.0 as int,
                cursor.1 as int,
            ),
        forall|i: int| sw * sh * 3 <= i < old(fb)@.len() ==> #[trigger] final(fb)@[i] == old(fb)@[i],
{
    copy_rect_back_to_fb(fb, back, last.0, last.1, CURSOR_WIDTH, CURSOR_HEIGHT, sw, sh);
    draw_cursor_to_buf(fb, cursor.0, cursor.1, sw, sh);
}

/// Whether the slot holds a window that animates.
pub open spec fn animating_slot(o: Option<Window>) -> bool {
    match o {
        Some(w) => w.is_animating,
        None => false,
    }
}

/// Whether plan entry `e` paints the window in its slot as `paint_of` says.
pub open spec fn paints_its_slot(s: Seq<Option<Window>>, e: WindowRender, dirty: Seq<bool>) -> bool {
    match s[e.slot as int] {
        Some(w) => e.paint == paint_of(w, dirty),
        None => false,
    }
}

/// A window is restored from its cache only when that cache is clean and the
/// window neither animates nor is maximized nor is the settings window; an
/// animating or maximized window is drawn afresh every frame and never
/// cached, and what is cached after a redraw is a window whose cache was
/// stale and that neither animates nor is maximized.
pub proof fn law_cache_is_used_only_when_still(w: Window, dirty: Seq<bool>)
    ensures
        paint_of(w, dirty) == WindowPaint::Restore ==> !dirty[w.id as int] && !w.is_animating
            && !w.is_maximized && w.id != SETTINGS_ID,
        w.is_animating ==> paint_of(w, dirty) == (WindowPaint::Redraw { snapshot: false }),
        w.is_maximized ==> paint_of(w, dirty) == (WindowPaint::Redraw { snapshot: false }),
        paint_of(w, dirty) == (WindowPaint::Redraw { snapshot: true }) ==> !w.is_animating
            && !w.is_maximized && w.id != SETTINGS_ID && dirty[w.id as int],
{
}

/// In a frame's paint plan every animating window is drawn afresh without
/// being cached, whatever its cache holds.
pub proof fn law_plan_redraws_animating_windows(
    s: Seq<Option<Window>>,
    drawn: Seq<(i32, i32)>,
    dirty: Seq<bool>,
    j: int,
)
    requires
        0 <= j < render_plan(s, drawn, dirty, 5).len(),
        animating_slot(s[render_plan(s, drawn, dirty, 5)[j].slot as int]),
    ensures
        render_plan(s, drawn, dirty, 5)[j].paint == (WindowPaint::Redraw { snapshot: false }),
{
    lemma_render_plan_entries(s, drawn, dirty, 5);
    assert(paints_its_slot(s, render_plan(s, drawn, dirty, 5)[j], dirty));
}

proof fn lemma_render_plan_entries(s: Seq<Option<Window>>, drawn: Seq<(i32, i32)>, dirty: Seq<bool>, n: int)
    requires
        n <= 5,
    ensures
        forall|j: int|
            0 <= j < render_plan(s, drawn, dirty, n).len() ==> paints_its_slot(
                s,
                #[trigger] render_plan(s, drawn, dirty, n)[j],
                dirty,
            ),
    decreases n,
{
    if n > 0 {
        lemma_render_plan_entries(s, drawn, dirty, n - 1);
        let before = render_plan(s, drawn, dirty, n - 1);
        let now = render_plan(s, drawn, dirty, n);
        assert forall|j: int| 0 <= j < now.len() implies paints_its_slot(s, #[trigger] now[j], dirty) by {
            if j < before.len() {
                assert(now[j] == before[j]);
            }
        }
    }
}

} // verus!
