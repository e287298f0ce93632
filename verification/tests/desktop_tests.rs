use lib::canvas::Canvas;
use lib::desktop::events::{
    handle_input_event, handle_serial_input, Desktop, DesktopAction, FileClick, InputEvent,
    InputOutcome, PointerLayout, TermInput, WindowHit,
};
use lib::desktop::frame::{
    animation_running, fit_screen, frame_needed, plan_dirty_regions, present_cursor_move,
    present_frame, push_cpu_sample, step_window_animations, window_render_plan, FrameClock,
    ScreenInfo, WindowPaint, WindowRender,
};
use lib::desktop::stack::{count_windows, find_window, raise_window, release_drag, terminal_focused};
use lib::desktop::window::{
    begin_close, initial_windows, step_animation, title_button, toggle_maximize, TitleButton,
    Window,
};
use lib::dirty::{DirtyRect, DirtyRectTracker};
use lib::graphics::raster::draw_rect;
use lib::input::InputState;
use lib::state::SearchQuery;

const NO_HIT: WindowHit = WindowHit { title: false, body: false, ax: 0, ay: 0 };

fn layout() -> PointerLayout {
    // Screen 1280 x 720: dock from 440 to 840 at y 638..710, five 80-pixel items.
    PointerLayout {
        menu_x: 370,
        prev_menu_x: 370,
        dock_left: 440,
        dock_right: 840,
        item_left: [440, 520, 600, 680, 760],
        item_right: [520, 600, 680, 760, 840],
    }
}

fn mouse(x: i32, y: i32, left: u32) -> InputEvent {
    InputEvent {
        event_type: 2,
        keyboard_key: 0,
        mouse_x: x,
        mouse_y: y,
        mouse_left_clicked: left,
        mouse_right_clicked: 0,
    }
}

fn key(k: u32) -> InputEvent {
    InputEvent {
        event_type: 1,
        keyboard_key: k,
        mouse_x: 0,
        mouse_y: 0,
        mouse_left_clicked: 0,
        mouse_right_clicked: 0,
    }
}

fn open_all(d: &mut Desktop) {
    for slot in d.windows.iter_mut().flatten() {
        slot.is_open = true;
    }
}

fn win(i: usize, d: &Desktop) -> Window {
    d.windows[i].unwrap()
}

#[test]
fn initial_windows_are_closed_in_order() {
    let w = initial_windows();
    let ids: Vec<u32> = w.iter().flatten().map(|w| w.id).collect();
    assert_eq!(ids, vec![0, 2, 1, 3]);
    assert!(w[4].is_none());
    let files = w[1].unwrap();
    assert_eq!(files.title, "File Manager");
    assert_eq!((files.x, files.y, files.width, files.height), (680, 80, 480, 360));
    assert_eq!((files.prev_x, files.prev_w), (680, 480));
    assert!(!files.is_open && !files.is_animating && files.anim_direction);
    assert_eq!(files.anim_progress, 100);
}

#[test]
fn opening_animation_runs_to_focus() {
    let mut w = initial_windows()[0].unwrap();
    w.is_animating = true;
    w.anim_progress = 80;
    step_animation(&mut w);
    assert_eq!(w.anim_progress, 90);
    step_animation(&mut w);
    step_animation(&mut w);
    assert_eq!(w.anim_progress, 100);
    assert!(!w.is_animating);
    assert!(w.is_focused);
}

#[test]
fn closing_animation_runs_to_closed() {
    let mut w = initial_windows()[2].unwrap();
    w.is_open = true;
    w.is_focused = true;
    begin_close(&mut w);
    assert!(w.is_animating && !w.anim_direction);
    assert_eq!(w.anim_progress, 100);
    for _ in 0..10 {
        step_animation(&mut w);
    }
    assert_eq!(w.anim_progress, 0);
    assert!(w.is_animating);
    step_animation(&mut w);
    assert!(!w.is_animating && !w.is_open && !w.is_focused);
}

#[test]
fn maximize_and_restore() {
    let mut w = initial_windows()[3].unwrap();
    toggle_maximize(&mut w, 1280, 720);
    assert!(w.is_maximized);
    assert_eq!((w.x, w.y, w.width, w.height), (0, 0, 1280, 668));
    assert_eq!((w.prev_x, w.prev_y, w.prev_w, w.prev_h), (320, 160, 440, 280));
    toggle_maximize(&mut w, 1280, 720);
    assert!(!w.is_maximized);
    assert_eq!((w.x, w.y, w.width, w.height), (320, 160, 440, 280));
}

#[test]
fn title_buttons() {
    assert_eq!(title_button(100, 50, 116, 61), TitleButton::Close);
    assert_eq!(title_button(100, 50, 127, 72), TitleButton::Close);
    assert_eq!(title_button(100, 50, 128, 61), TitleButton::Bar);
    assert_eq!(title_button(100, 50, 134, 61), TitleButton::Minimize);
    assert_eq!(title_button(100, 50, 152, 70), TitleButton::Maximize);
    assert_eq!(title_button(100, 50, 152, 73), TitleButton::Bar);
    assert_eq!(title_button(100, 50, 300, 60), TitleButton::Bar);
}

#[test]
fn raise_moves_window_to_top() {
    let mut slots = initial_windows();
    for s in slots.iter_mut().flatten() {
        s.is_focused = true;
        s.is_dragging = true;
    }
    assert_eq!(count_windows(&slots), 4);
    raise_window(&mut slots, 1, 4, false);
    let ids: Vec<u32> = slots.iter().flatten().map(|w| w.id).collect();
    assert_eq!(ids, vec![0, 1, 3, 2]);
    for i in 0..3 {
        assert!(!slots[i].unwrap().is_focused && !slots[i].unwrap().is_dragging);
    }
    assert!(slots[3].unwrap().is_focused);
    release_drag(&mut slots);
    assert!(slots.iter().flatten().all(|w| !w.is_dragging));
    assert_eq!(find_window(&slots, 2), Some(3));
    assert_eq!(find_window(&slots, 4), None);
}

#[test]
fn keys_go_to_focused_console_only() {
    let mut d = Desktop::new();
    let mut st = InputState::new();
    let mut t = DirtyRectTracker::new();
    let hits = [NO_HIT; 4];
    let out = handle_input_event(&mut d, &mut st, &mut t, &mut SearchQuery::new(), &key(b'a' as u32), &layout(), &hits, 1280, 720);
    assert_eq!(out.terminal, None);
    d.windows[2] = Some(Window { is_focused: true, ..win(2, &d) });
    assert!(terminal_focused(&d.windows));
    let out = handle_input_event(&mut d, &mut st, &mut t, &mut SearchQuery::new(), &key(b'a' as u32), &layout(), &hits, 1280, 720);
    assert_eq!(out.terminal, Some(TermInput::Char(b'a')));
    let out = handle_input_event(&mut d, &mut st, &mut t, &mut SearchQuery::new(), &key(0x1001), &layout(), &hits, 1280, 720);
    assert_eq!(out.terminal, Some(TermInput::Submit));
    let out = handle_input_event(&mut d, &mut st, &mut t, &mut SearchQuery::new(), &key(0x1000), &layout(), &hits, 1280, 720);
    assert_eq!(out.terminal, Some(TermInput::Char(8)));
    let out = handle_input_event(&mut d, &mut st, &mut t, &mut SearchQuery::new(), &key(0x1003), &layout(), &hits, 1280, 720);
    assert_eq!(out.terminal, None);
    assert!(!out.needs_redraw);
}

#[test]
fn title_press_drag_and_release() {
    let mut d = Desktop::new();
    open_all(&mut d);
    let mut st = InputState::new();
    st.prev_mouse_x = 700;
    st.prev_mouse_y = 90;
    let mut t = DirtyRectTracker::new();
    let mut hits = [NO_HIT; 4];
    // The file manager (slot 1) is drawn at (680, 80); the press hits its title bar.
    hits[1] = WindowHit { title: true, body: false, ax: 680, ay: 80 };
    let out = handle_input_event(&mut d, &mut st, &mut t, &mut SearchQuery::new(), &mouse(700, 90, 1), &layout(), &hits, 1280, 720);
    assert_eq!(
        out,
        InputOutcome {
            needs_redraw: true,
            invalidate_caches: true,
            action: DesktopAction::Nothing,
            terminal: None,
            file_click: None
        }
    );
    assert!(t.is_all_dirty());
    let top = win(3, &d);
    assert_eq!(top.id, 2);
    assert!(top.is_focused && top.is_dragging);
    assert_eq!((st.cursor_x, st.prev_mouse_x, st.prev_left_clicked), (700, 700, 1));
    // Holding the button moves the window.
    let mut t2 = DirtyRectTracker::new();
    let mut hits2 = [NO_HIT; 4];
    hits2[3] = WindowHit { title: true, body: false, ax: 680, ay: 80 };
    handle_input_event(&mut d, &mut st, &mut t2, &mut SearchQuery::new(), &mouse(710, 95, 1), &layout(), &hits2, 1280, 720);
    assert_eq!((win(3, &d).x, win(3, &d).y), (690, 85));
    assert_eq!(
        t2.get_rects(),
        &[
            Some(DirtyRect { x: 660, y: 60, w: 520, h: 400 }),
            Some(DirtyRect { x: 670, y: 65, w: 520, h: 400 })
        ]
    );
    handle_input_event(&mut d, &mut st, &mut t2, &mut SearchQuery::new(), &mouse(710, 95, 0), &layout(), &hits2, 1280, 720);
    assert!(!win(3, &d).is_dragging);
    assert_eq!(st.prev_left_clicked, 0);
}

#[test]
fn close_button_starts_close_animation() {
    let mut d = Desktop::new();
    open_all(&mut d);
    let mut st = InputState::new();
    let mut t = DirtyRectTracker::new();
    let mut hits = [NO_HIT; 4];
    hits[0] = WindowHit { title: true, body: false, ax: 100, ay: 60 };
    handle_input_event(&mut d, &mut st, &mut t, &mut SearchQuery::new(), &mouse(120, 75, 1), &layout(), &hits, 1280, 720);
    let top = win(3, &d);
    assert_eq!(top.id, 0);
    assert!(top.is_animating && !top.anim_direction && !top.is_dragging);
}

#[test]
fn settings_switch_flips_shadows() {
    let mut d = Desktop::new();
    open_all(&mut d);
    let mut st = InputState::new();
    let mut t = DirtyRectTracker::new();
    let mut hits = [NO_HIT; 4];
    hits[3] = WindowHit { title: false, body: true, ax: 320, ay: 160 };
    let out = handle_input_event(&mut d, &mut st, &mut t, &mut SearchQuery::new(), &mouse(400, 300, 1), &layout(), &hits, 1280, 720);
    assert!(d.shadows_enabled);
    assert!(out.needs_redraw);
    // A body press elsewhere does not flip it.
    let mut st2 = InputState::new();
    hits[3] = WindowHit { title: false, body: true, ax: 320, ay: 160 };
    handle_input_event(&mut d, &mut st2, &mut t, &mut SearchQuery::new(), &mouse(400, 200, 1), &layout(), &hits, 1280, 720);
    assert!(d.shadows_enabled);
}

#[test]
fn press_on_desktop_unfocuses_everything() {
    let mut d = Desktop::new();
    open_all(&mut d);
    d.windows[3] = Some(Window { is_focused: true, ..win(3, &d) });
    let mut st = InputState::new();
    let mut t = DirtyRectTracker::new();
    let out = handle_input_event(&mut d, &mut st, &mut t, &mut SearchQuery::new(), &mouse(5, 5, 1), &layout(), &[NO_HIT; 4], 1280, 720);
    assert!(out.invalidate_caches);
    assert!(d.windows.iter().flatten().all(|w| !w.is_focused));
}

#[test]
fn dock_launcher_toggles_start_menu() {
    let mut d = Desktop::new();
    let mut st = InputState::new();
    let mut t = DirtyRectTracker::new();
    let out = handle_input_event(&mut d, &mut st, &mut t, &mut SearchQuery::new(), &mouse(450, 650, 1), &layout(), &[NO_HIT; 4], 1280, 720);
    assert!(d.start_menu_open && d.start_menu_animating);
    assert_eq!(out.action, DesktopAction::Nothing);
    assert!(!out.invalidate_caches);
}

#[test]
fn dock_item_focuses_or_closes_its_window() {
    let mut d = Desktop::new();
    let mut st = InputState::new();
    let mut t = DirtyRectTracker::new();
    // Item 2 is the file manager.
    let out = handle_input_event(&mut d, &mut st, &mut t, &mut SearchQuery::new(), &mouse(610, 650, 1), &layout(), &[NO_HIT; 4], 1280, 720);
    assert_eq!(out.action, DesktopAction::FocusWindow(2));
    assert!(out.invalidate_caches && t.is_all_dirty());
    d.windows[1] = Some(Window { is_open: true, is_focused: true, ..win(1, &d) });
    let mut st2 = InputState::new();
    let out = handle_input_event(&mut d, &mut st2, &mut t, &mut SearchQuery::new(), &mouse(610, 650, 1), &layout(), &[NO_HIT; 4], 1280, 720);
    assert_eq!(out.action, DesktopAction::Nothing);
    assert!(win(1, &d).is_animating && !win(1, &d).anim_direction);
}

#[test]
fn start_menu_items_and_outside_press() {
    let mut d = Desktop::new();
    d.start_menu_open = true;
    let mut st = InputState::new();
    let mut t = DirtyRectTracker::new();
    // Menu at (370, 406), 220 x 220; item 4 (shut down) at y 406 + 44 + 132 = 582.
    let out = handle_input_event(&mut d, &mut st, &mut t, &mut SearchQuery::new(), &mouse(400, 590, 1), &layout(), &[NO_HIT; 4], 1280, 720);
    assert_eq!(out.action, DesktopAction::Shutdown);
    assert!(!d.start_menu_open && d.start_menu_animating);
    let mut e = Desktop::new();
    e.start_menu_open = true;
    let mut st2 = InputState::new();
    // With no application matching the search there are no cards over the
    // menu, and its first item (the monitor) at y 450 takes the press.
    let mut none = SearchQuery::new();
    none.push('z');
    none.push('z');
    let out = handle_input_event(&mut e, &mut st2, &mut t, &mut none, &mouse(400, 455, 1), &layout(), &[NO_HIT; 4], 1280, 720);
    assert_eq!(out.action, DesktopAction::FocusWindow(0));
    let mut f = Desktop::new();
    f.start_menu_open = true;
    let mut st3 = InputState::new();
    let out = handle_input_event(&mut f, &mut st3, &mut t, &mut SearchQuery::new(), &mouse(1000, 100, 1), &layout(), &[NO_HIT; 4], 1280, 720);
    assert_eq!(out.action, DesktopAction::Nothing);
    assert!(!f.start_menu_open && f.start_menu_animating);
}

#[test]
fn hover_redraw_rules() {
    let mut d = Desktop::new();
    let mut st = InputState::new();
    st.prev_mouse_y = 100;
    let mut t = DirtyRectTracker::new();
    let out = handle_input_event(&mut d, &mut st, &mut t, &mut SearchQuery::new(), &mouse(10, 100, 0), &layout(), &[NO_HIT; 4], 1280, 720);
    assert!(!out.needs_redraw);
    let out = handle_input_event(&mut d, &mut st, &mut t, &mut SearchQuery::new(), &mouse(10, 650, 0), &layout(), &[NO_HIT; 4], 1280, 720);
    assert!(out.needs_redraw);
    let other = InputEvent { event_type: 0, ..mouse(1, 1, 1) };
    let out = handle_input_event(&mut d, &mut st, &mut t, &mut SearchQuery::new(), &other, &layout(), &[NO_HIT; 4], 1280, 720);
    assert!(!out.needs_redraw);
    assert_eq!(st.cursor_y, 650);
}

#[test]
fn serial_bytes_become_console_input() {
    let mut d = Desktop::new();
    let mut t = DirtyRectTracker::new();
    let out = handle_serial_input(&d, &mut t, b"ls\r", 3);
    assert!(out.needs_redraw && out.invalidate_console);
    assert!(out.inputs.is_empty());
    assert!(t.is_all_dirty());
    d.windows[2] = Some(Window { is_focused: true, ..win(2, &d) });
    let mut t2 = DirtyRectTracker::new();
    let out = handle_serial_input(&d, &mut t2, b"ls\x7f\x01\n??", 5);
    assert_eq!(
        out.inputs,
        vec![TermInput::Char(b'l'), TermInput::Char(b's'), TermInput::Char(8), TermInput::Submit]
    );
    let out = handle_serial_input(&d, &mut t2, b"abc", 0);
    assert!(!out.needs_redraw && out.inputs.is_empty());
}

#[test]
fn frame_clock_timing() {
    let mut c = FrameClock::new();
    assert!(!c.metrics_due(9));
    assert!(c.metrics_due(10));
    assert_eq!(c.last_metrics_tick, 10);
    assert!(!c.metrics_due(19));
    assert!(c.metrics_due(25));
    assert!(!c.animation_due(30, false));
    assert_eq!(c.last_anim_tick, 30);
    assert!(!c.animation_due(30, true));
    assert!(c.animation_due(31, true));
    assert_eq!(c.last_anim_tick, 31);
    assert!(frame_needed(false, (1, 2), (1, 3), false));
    assert!(!frame_needed(false, (1, 2), (1, 2), false));
    assert!(frame_needed(false, (1, 2), (1, 2), true));
}

#[test]
fn cpu_history_shifts() {
    let mut h = [0u8; 40];
    h[0] = 9;
    h[39] = 7;
    push_cpu_sample(&mut h, 4567);
    assert_eq!(h[38], 7);
    assert_eq!(h[39], 45);
    assert_eq!(h[0], 0);
    push_cpu_sample(&mut h, 30000);
    assert_eq!(h[39], 44);
}

#[test]
fn animations_step_and_are_detected() {
    let mut slots = initial_windows();
    assert!(!animation_running(&slots, false));
    assert!(animation_running(&slots, true));
    slots[2] = Some(Window { is_animating: true, anim_progress: 40, ..slots[2].unwrap() });
    assert!(animation_running(&slots, false));
    step_window_animations(&mut slots);
    assert_eq!(slots[2].unwrap().anim_progress, 50);
    assert_eq!(slots[0].unwrap().anim_progress, 100);
}

#[test]
fn screen_is_capped_to_buffer() {
    let mut s = ScreenInfo {
        framebuffer_addr: 7,
        width: 5000,
        height: 3000,
        stride: 1,
        bytes_per_pixel: 3,
        format: 1,
    };
    fit_screen(&mut s);
    assert_eq!((s.width, s.height, s.framebuffer_addr, s.format), (1920, 1080, 7, 1));
    let mut ok = ScreenInfo { width: 3840, height: 2160, ..s };
    fit_screen(&mut ok);
    assert_eq!((ok.width, ok.height), (3840, 2160));
    let c = InputState::centered(1281, 720);
    assert_eq!((c.cursor_x, c.cursor_y, c.prev_mouse_x), (640, 360, 640));
}

#[test]
fn dirty_plan_and_window_plan() {
    let mut slots = initial_windows();
    slots[1] = Some(Window { is_open: true, ..slots[1].unwrap() });
    slots[3] = Some(Window { is_open: true, is_maximized: true, ..slots[3].unwrap() });
    let drawn = [(100, 60), (680, 80), (200, 200), (320, 160), (0, 0)];
    let dirty = [false, false, true, false, false];
    let mut t = DirtyRectTracker::new();
    plan_dirty_regions(&mut t, false, false, false, 1280, 720, 440, 400, &slots, &drawn, &dirty);
    assert_eq!(
        t.get_rects(),
        &[
            Some(DirtyRect { x: 1080, y: 0, w: 200, h: 30 }),
            Some(DirtyRect { x: 420, y: 620, w: 440, h: 100 }),
            Some(DirtyRect { x: 660, y: 60, w: 520, h: 400 })
        ]
    );
    let mut t2 = DirtyRectTracker::new();
    plan_dirty_regions(&mut t2, true, false, false, 1280, 720, 440, 400, &slots, &drawn, &dirty);
    assert!(t2.is_all_dirty());
    assert!(t2.get_rects().is_empty());
    let plan = window_render_plan(&slots, &drawn, &dirty);
    assert_eq!(
        plan,
        vec![
            WindowRender { slot: 1, ax: 680, ay: 80, paint: WindowPaint::Redraw { snapshot: true } },
            WindowRender { slot: 3, ax: 320, ay: 160, paint: WindowPaint::Redraw { snapshot: false } }
        ]
    );
    let clean = [false; 5];
    let plan = window_render_plan(&slots, &drawn, &clean);
    assert_eq!(plan[0].paint, WindowPaint::Restore);
}

#[test]
fn present_copies_dirty_areas_and_draws_cursor() {
    let mut back = Canvas::new(20, 20, 1);
    draw_rect(&mut back, 0, 0, 20, 20, 50, 50, 50);
    let mut fb = vec![9u8; 20 * 20 * 3 + 2];
    let mut t = DirtyRectTracker::new();
    t.add_rect(15, 15, 2, 2);
    present_frame(&mut fb, back.as_bytes(), &t, (0, 0), (10, 0), 20, 20);
    let at = |x: usize, y: usize| fb[(y * 20 + x) * 3];
    assert_eq!(at(0, 0), 0);
    assert_eq!(at(1, 1), 255);
    assert_eq!(at(12, 5), 50);
    assert_eq!(at(16, 16), 50);
    assert_eq!(at(5, 15), 9);
    assert_eq!(fb[20 * 20 * 3], 9);
    let mut full = vec![9u8; 20 * 20 * 3];
    t.mark_all_dirty();
    present_frame(&mut full, back.as_bytes(), &t, (100, 100), (0, 0), 20, 20);
    assert!(full.iter().all(|&b| b == 50));
    let mut moved = vec![9u8; 20 * 20 * 3];
    present_cursor_move(&mut moved, back.as_bytes(), (10, 10), (0, 0), 20, 20);
    assert_eq!(moved[0], 50);
    assert_eq!(moved[(11 * 20 + 11) * 3], 255);
    assert_eq!(moved[(5 * 20 + 15) * 3], 9);
}

fn query_text(q: &SearchQuery) -> String {
    let mut buf = [0u8; 64];
    q.get_str(&mut buf).to_string()
}

#[test]
fn settings_switch_only_on_appearance_tab() {
    let mut d = Desktop::new();
    open_all(&mut d);
    let mut t = DirtyRectTracker::new();
    let mut hits = [NO_HIT; 4];
    // The settings window (slot 3) is drawn at (320, 160).
    hits[3] = WindowHit { title: false, body: true, ax: 320, ay: 160 };
    // A press on the System tab (row 82..108, 10..120 pixels in) opens it.
    let mut st = InputState::new();
    handle_input_event(&mut d, &mut st, &mut t, &mut SearchQuery::new(), &mouse(350, 250, 1), &layout(), &hits, 1280, 720);
    assert_eq!(d.settings_tab, 1);
    assert!(!d.shadows_enabled);
    // On the System tab the switch area does nothing.
    let mut hits = [NO_HIT; 4];
    hits[3] = WindowHit { title: false, body: true, ax: 320, ay: 160 };
    let mut st = InputState::new();
    handle_input_event(&mut d, &mut st, &mut t, &mut SearchQuery::new(), &mouse(600, 300, 1), &layout(), &hits, 1280, 720);
    assert!(!d.shadows_enabled);
    assert_eq!(d.settings_tab, 1);
    // Back on the Appearance tab (row 50..76) the switch works again.
    let mut hits = [NO_HIT; 4];
    hits[3] = WindowHit { title: false, body: true, ax: 320, ay: 160 };
    let mut st = InputState::new();
    handle_input_event(&mut d, &mut st, &mut t, &mut SearchQuery::new(), &mouse(350, 215, 1), &layout(), &hits, 1280, 720);
    assert_eq!(d.settings_tab, 0);
    let mut hits = [NO_HIT; 4];
    hits[3] = WindowHit { title: false, body: true, ax: 320, ay: 160 };
    let mut st = InputState::new();
    handle_input_event(&mut d, &mut st, &mut t, &mut SearchQuery::new(), &mouse(600, 300, 1), &layout(), &hits, 1280, 720);
    assert!(d.shadows_enabled);
}

#[test]
fn file_manager_body_press_goes_to_file_manager() {
    let mut d = Desktop::new();
    open_all(&mut d);
    let mut st = InputState::new();
    let mut t = DirtyRectTracker::new();
    let mut hits = [NO_HIT; 4];
    // The file manager (slot 1) is drawn at (680, 80); the press hits its body.
    hits[1] = WindowHit { title: false, body: true, ax: 680, ay: 80 };
    let out = handle_input_event(&mut d, &mut st, &mut t, &mut SearchQuery::new(), &mouse(700, 200, 1), &layout(), &hits, 1280, 720);
    assert_eq!(
        out.file_click,
        Some(FileClick { cursor_x: 700, cursor_y: 200, ax: 680, ay: 80, width: 480, height: 360 })
    );
    let top = win(3, &d);
    assert_eq!(top.id, 2);
    assert!(top.is_focused && !top.is_dragging);
    // A press on its title bar is not handed on.
    let mut st = InputState::new();
    let mut hits = [NO_HIT; 4];
    hits[3] = WindowHit { title: true, body: false, ax: 680, ay: 80 };
    let out = handle_input_event(&mut d, &mut st, &mut t, &mut SearchQuery::new(), &mouse(800, 90, 1), &layout(), &hits, 1280, 720);
    assert_eq!(out.file_click, None);
}

#[test]
fn applications_screen_search_takes_keys() {
    let mut d = Desktop::new();
    d.start_menu_open = true;
    d.windows[2] = Some(Window { is_focused: true, ..win(2, &d) });
    let mut st = InputState::new();
    let mut t = DirtyRectTracker::new();
    let mut q = SearchQuery::new();
    let hits = [NO_HIT; 4];
    for k in [b'c' as u32, b'o' as u32, b'x' as u32] {
        let out = handle_input_event(&mut d, &mut st, &mut t, &mut q, &key(k), &layout(), &hits, 1280, 720);
        // Keys go to the search, not to the focused console.
        assert_eq!(out.terminal, None);
        assert!(out.needs_redraw);
    }
    assert_eq!(query_text(&q), "cox");
    handle_input_event(&mut d, &mut st, &mut t, &mut q, &key(0x1000), &layout(), &hits, 1280, 720);
    assert_eq!(query_text(&q), "co");
    // A control key changes nothing.
    handle_input_event(&mut d, &mut st, &mut t, &mut q, &key(0x1b), &layout(), &hits, 1280, 720);
    assert_eq!(query_text(&q), "co");
    // Enter opens the first match ("Console") and closes the screen.
    let out = handle_input_event(&mut d, &mut st, &mut t, &mut q, &key(0x1001), &layout(), &hits, 1280, 720);
    assert_eq!(out.action, DesktopAction::FocusWindow(1));
    assert!(out.invalidate_caches);
    assert!(!d.start_menu_open && d.start_menu_animating);
    assert!(t.is_all_dirty());
}

#[test]
fn enter_without_match_keeps_screen_open() {
    let mut d = Desktop::new();
    d.start_menu_open = true;
    let mut st = InputState::new();
    let mut t = DirtyRectTracker::new();
    let mut q = SearchQuery::new();
    q.push('z');
    q.push('z');
    let out = handle_input_event(&mut d, &mut st, &mut t, &mut q, &key(0x1001), &layout(), &[NO_HIT; 4], 1280, 720);
    assert_eq!(out.action, DesktopAction::Nothing);
    assert!(d.start_menu_open);
    // "shut" matches the last application, which shuts down.
    let mut q = SearchQuery::new();
    for c in "shut".chars() {
        q.push(c);
    }
    let out = handle_input_event(&mut d, &mut st, &mut t, &mut q, &key(0x1001), &layout(), &[NO_HIT; 4], 1280, 720);
    assert_eq!(out.action, DesktopAction::Shutdown);
}

#[test]
fn opening_applications_screen_clears_search() {
    let mut d = Desktop::new();
    let mut st = InputState::new();
    let mut t = DirtyRectTracker::new();
    let mut q = SearchQuery::new();
    q.push('a');
    // The launcher is dock item 0 (440..520 at y 638..710).
    handle_input_event(&mut d, &mut st, &mut t, &mut q, &mouse(450, 650, 1), &layout(), &[NO_HIT; 4], 1280, 720);
    assert!(d.start_menu_open);
    assert_eq!(query_text(&q), "");
}

#[test]
fn applications_screen_redraws_everything_and_settings_is_never_cached() {
    let mut slots = initial_windows();
    slots[3] = Some(Window { is_open: true, ..slots[3].unwrap() });
    let drawn = [(100, 60), (680, 80), (200, 200), (320, 160), (0, 0)];
    let clean = [false; 5];
    let mut t = DirtyRectTracker::new();
    plan_dirty_regions(&mut t, false, true, false, 1280, 720, 440, 400, &slots, &drawn, &clean);
    assert!(t.is_all_dirty());
    let plan = window_render_plan(&slots, &drawn, &clean);
    assert_eq!(plan, vec![WindowRender { slot: 3, ax: 320, ay: 160, paint: WindowPaint::Redraw { snapshot: false } }]);
}

#[test]
fn applications_screen_card_press_opens_app() {
    let mut d = Desktop::new();
    d.start_menu_open = true;
    let mut st = InputState::new();
    let mut t = DirtyRectTracker::new();
    let mut q = SearchQuery::new();
    // With an empty query all six applications show: on a 1280-pixel screen
    // the first row starts at (1280 - 560) / 2 = 360, 180 down; the second
    // card (Console) spans 560..720.
    let out = handle_input_event(&mut d, &mut st, &mut t, &mut q, &mouse(600, 250, 1), &layout(), &[NO_HIT; 4], 1280, 720);
    assert_eq!(out.action, DesktopAction::FocusWindow(1));
    assert!(out.invalidate_caches && out.needs_redraw);
    assert!(!d.start_menu_open && d.start_menu_animating);
    // The sixth card (second row, third column: 760..920, 350..490) shuts down.
    let mut d = Desktop::new();
    d.start_menu_open = true;
    let mut st = InputState::new();
    let out = handle_input_event(&mut d, &mut st, &mut t, &mut q, &mouse(800, 400, 1), &layout(), &[NO_HIT; 4], 1280, 720);
    assert_eq!(out.action, DesktopAction::Shutdown);
}
