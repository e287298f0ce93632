use lib::dirty::{DirtyRect, DirtyRectTracker, MAX_DIRTY_RECTS};
use lib::input::InputState;
use lib::radiation::{add_radiation_log, ecc_number_text, line_color, visible_lines, RadiationLog};
use lib::state::{SearchQuery, WindowBackingStore, BACKING_STORE_HEIGHT, BACKING_STORE_WIDTH};
use lib::strings::{bytes_to_vec, extend_bytes, is_root, join, line_spans, nth_line, rfind_slash, trimmed_len};
use lib::canvas::Canvas;

fn query_of(q: &SearchQuery) -> String {
    let mut buf = [0u8; 64];
    q.get_str(&mut buf).to_string()
}

#[test]
fn tracker_starts_empty() {
    let t = DirtyRectTracker::new();
    assert!(t.get_rects().is_empty());
    assert!(!t.is_all_dirty());
}

#[test]
fn tracker_records_rects_in_order() {
    let mut t = DirtyRectTracker::new();
    t.add_rect(1, 2, 3, 4);
    t.add_rect(-5, 0, 10, 1);
    assert_eq!(
        t.get_rects(),
        &[
            Some(DirtyRect { x: 1, y: 2, w: 3, h: 4 }),
            Some(DirtyRect { x: -5, y: 0, w: 10, h: 1 })
        ]
    );
}

#[test]
fn tracker_ignores_empty_rects() {
    let mut t = DirtyRectTracker::new();
    t.add_rect(0, 0, 0, 5);
    t.add_rect(0, 0, 5, -1);
    assert!(t.get_rects().is_empty());
    assert!(!t.is_all_dirty());
}

#[test]
fn tracker_overflow_marks_all_dirty() {
    let mut t = DirtyRectTracker::new();
    for i in 0..MAX_DIRTY_RECTS as i32 {
        t.add_rect(i, i, 1, 1);
    }
    assert_eq!(t.get_rects().len(), 16);
    assert!(!t.is_all_dirty());
    t.add_rect(100, 100, 2, 2);
    assert!(t.is_all_dirty());
    assert_eq!(t.get_rects().len(), 16);
    t.clear();
    assert!(t.get_rects().is_empty());
    assert!(!t.is_all_dirty());
}

#[test]
fn tracker_all_dirty_ignores_new_rects() {
    let mut t = DirtyRectTracker::new();
    t.add_rect(0, 0, 1, 1);
    t.mark_all_dirty();
    t.add_rect(5, 5, 5, 5);
    assert!(t.is_all_dirty());
    assert_eq!(t.get_rects().len(), 1);
}

#[test]
fn search_query_push_pop_clear() {
    let mut q = SearchQuery::new();
    assert_eq!(query_of(&q), "");
    q.push('f');
    q.push('i');
    assert_eq!(query_of(&q), "fi");
    q.pop();
    assert_eq!(query_of(&q), "f");
    q.pop();
    q.pop();
    assert_eq!(q.len, 0);
    q.push('x');
    q.clear();
    assert_eq!(query_of(&q), "");
}

#[test]
fn search_query_ignores_non_ascii_and_overflow() {
    let mut q = SearchQuery::new();
    q.push('\u{e9}');
    q.push('\u{4e2d}');
    assert_eq!(q.len, 0);
    for _ in 0..80 {
        q.push('a');
    }
    assert_eq!(q.len, 64);
    assert_eq!(query_of(&q), "a".repeat(64));
}

#[test]
fn search_query_into_short_buffer() {
    let mut q = SearchQuery::new();
    for c in "settings".chars() {
        q.push(c);
    }
    let mut buf = [0u8; 3];
    assert_eq!(q.get_str(&mut buf), "set");
}

#[test]
fn backing_store_starts_empty_and_stale() {
    let s = WindowBackingStore::new();
    assert_eq!(s.pixels.len(), BACKING_STORE_WIDTH * BACKING_STORE_HEIGHT);
    assert!(s.pixels.iter().all(|&p| p == 0));
    assert_eq!(s.width, 0);
    assert_eq!(s.height, 0);
    assert!(s.is_dirty);
}

#[test]
fn input_state_starts_centered() {
    let s = InputState::new();
    assert_eq!((s.cursor_x, s.cursor_y), (400, 300));
    assert_eq!((s.prev_mouse_x, s.prev_mouse_y), (400, 300));
    assert_eq!(s.prev_left_clicked, 0);
    let d = InputState::default();
    assert_eq!((d.cursor_x, d.cursor_y), (400, 300));
}

#[test]
fn radiation_log_keeps_last_four() {
    let mut log = RadiationLog::new();
    assert!(visible_lines(&log).is_empty());
    add_radiation_log(&mut log, "one");
    add_radiation_log(&mut log, "two");
    assert_eq!(visible_lines(&log), vec![b"one".to_vec(), b"two".to_vec()]);
    for m in ["three", "four", "five"] {
        add_radiation_log(&mut log, m);
    }
    assert_eq!(log.count, 4);
    assert_eq!(
        visible_lines(&log),
        vec![b"two".to_vec(), b"three".to_vec(), b"four".to_vec(), b"five".to_vec()]
    );
}

#[test]
fn radiation_log_cuts_long_messages() {
    let mut log = RadiationLog::new();
    let long = "m".repeat(100);
    add_radiation_log(&mut log, &long);
    assert_eq!(visible_lines(&log)[0].len(), 63);
    assert_eq!(log.lines[3][63], 0);
}

#[test]
fn log_line_colors() {
    assert_eq!(line_color(b"FLIP2 injected"), (235, 100, 100));
    assert_eq!(line_color(b"x FLIP1 y"), (230, 170, 60));
    assert_eq!(line_color(b"FLIP1 and FLIP2"), (235, 100, 100));
    assert_eq!(line_color(b"ECC corrected"), (90, 200, 150));
    assert_eq!(line_color(b""), (90, 200, 150));
}

#[test]
fn ecc_numbers_in_decimal() {
    assert_eq!(ecc_number_text(0), b"0".to_vec());
    assert_eq!(ecc_number_text(7), b"7".to_vec());
    assert_eq!(ecc_number_text(12345), b"12345".to_vec());
    assert_eq!(ecc_number_text(u64::MAX), u64::MAX.to_string().into_bytes());
}

#[test]
fn byte_string_helpers() {
    assert_eq!(trimmed_len(b"bin//"), 3);
    assert_eq!(trimmed_len(b"///"), 0);
    assert_eq!(rfind_slash(b"/a/b"), Some(2));
    assert_eq!(rfind_slash(b"abc"), None);
    assert!(is_root(b"/"));
    assert!(!is_root(b"/a"));
    assert_eq!(join(b"/", b"x"), b"/x".to_vec());
    assert_eq!(join(b"/a", b"x"), b"/a/x".to_vec());
    assert_eq!(bytes_to_vec(b"abc"), b"abc".to_vec());
    let mut v = b"ab".to_vec();
    extend_bytes(&mut v, b"cd");
    assert_eq!(v, b"abcd".to_vec());
    let text = b"a\r\nbb\n\nc";
    assert_eq!(nth_line(text, 0), Some((0, 1)));
    assert_eq!(nth_line(text, 1), Some((3, 5)));
    assert_eq!(nth_line(text, 2), Some((6, 6)));
    assert_eq!(nth_line(text, 3), Some((7, 8)));
    assert_eq!(nth_line(text, 4), None);
    assert_eq!(nth_line(b"x\n", 1), None);
}

#[test]
fn line_spans_cover_every_line() {
    assert_eq!(line_spans(b"a\r\nbb\n\nc"), vec![(0, 1), (3, 5), (6, 6), (7, 8)]);
    assert_eq!(line_spans(b""), vec![]);
    assert_eq!(line_spans(b"x\n"), vec![(0, 1)]);
}

#[test]
fn canvas_load_bytes_replaces_pixels() {
    let mut c = Canvas::new(2, 1, 1);
    c.load_bytes(&[1, 2, 3, 4, 5, 6]);
    assert_eq!(c.get_pixel(0, 0), Some((1, 2, 3)));
    assert_eq!(c.get_pixel(1, 0), Some((4, 5, 6)));
}

#[test]
fn tracker_after_mixed_calls() {
    let mut t = DirtyRectTracker::new();
    t.add_rect(1, 1, 2, 2);
    t.add_rect(5, 5, 0, 3);
    t.add_rect(3, 4, 5, 6);
    t.mark_all_dirty();
    // After a full redraw is asked for, new rectangles are not listed.
    t.add_rect(7, 7, 7, 7);
    assert!(t.is_all_dirty());
    assert_eq!(
        t.get_rects(),
        &[Some(DirtyRect { x: 1, y: 1, w: 2, h: 2 }), Some(DirtyRect { x: 3, y: 4, w: 5, h: 6 })]
    );
    t.clear();
    t.add_rect(9, 9, 1, 1);
    assert!(!t.is_all_dirty());
    assert_eq!(t.get_rects(), &[Some(DirtyRect { x: 9, y: 9, w: 1, h: 1 })]);
}
