use lib::canvas::Canvas;
use lib::graphics::compositor::{
    copy_rect_back_to_fb, draw_cursor, draw_cursor_to_buf, get_app_card_layout, matches_search,
    restore_window_backing_store, snapshot_window_backing_store,
};
use lib::graphics::icons::{
    draw_icon, draw_tiny_file_icon, draw_tiny_folder_icon, draw_vector_folder_icon,
    draw_vector_launchpad_icon, draw_vector_metrics_icon, draw_vector_radiation_icon,
    draw_vector_settings_icon, draw_vector_terminal_icon, FolderIconMetrics, LaunchpadIconMetrics,
    MetricsIconMetrics, SettingsIconMetrics, TerminalIconMetrics,
};
use lib::graphics::raster::{
    draw_gradient, draw_line, draw_line_thick, draw_rect, draw_rect_alpha, draw_rect_outline,
    draw_rounded_rect, draw_rounded_rect_alpha, draw_rounded_rect_outline,
    draw_rounded_rect_outline_alpha, CornerTable,
};
use lib::graphics::shadow::{
    draw_rect_alpha_exclude, draw_shadow_rect_alpha, draw_shadow_rounded_rect_alpha,
    draw_window_shadow,
};
use lib::graphics::text::{draw_char, draw_char_smooth, draw_string, draw_string_smooth, Font};
use lib::state::WindowBackingStore;

fn table(max_radius: usize, cov: u8) -> CornerTable {
    let mut fills = Vec::new();
    for r in 0..=max_radius {
        fills.push(vec![cov; r * r]);
    }
    CornerTable::from_fills(fills).unwrap()
}

fn font_with(code: usize, rows: [u8; 16]) -> Font {
    let mut glyphs = vec![[0u8; 16]; 128];
    glyphs[code] = rows;
    Font::new(glyphs).unwrap()
}

#[test]
fn canvas_new_is_black_and_keeps_format() {
    let c = Canvas::new(4, 3, 1);
    assert_eq!(c.width(), 4);
    assert_eq!(c.height(), 3);
    assert_eq!(c.format(), 1);
    assert_eq!(c.get_pixel(3, 2), Some((0, 0, 0)));
    assert_eq!(c.get_pixel(4, 0), None);
    assert_eq!(c.get_pixel(-1, 0), None);
}

#[test]
fn canvas_new_caps_oversized_screen() {
    let c = Canvas::new(4000, 3000, 0);
    assert_eq!(c.width(), 1920);
    assert_eq!(c.height(), 1080);
    let ok = Canvas::new(3840, 2160, 0);
    assert_eq!(ok.width(), 3840);
}

#[test]
fn draw_pixel_stores_channels_in_format_order() {
    let mut bgr = Canvas::new(2, 2, 0);
    bgr.draw_pixel(1, 0, 10, 20, 30);
    assert_eq!(bgr.get_pixel(1, 0), Some((10, 20, 30)));
    assert_eq!(&bgr.as_bytes()[3..6], &[30, 20, 10]);
    let mut rgb = Canvas::new(2, 2, 1);
    rgb.draw_pixel(1, 0, 10, 20, 30);
    assert_eq!(&rgb.as_bytes()[3..6], &[10, 20, 30]);
}

#[test]
fn draw_pixel_outside_is_ignored() {
    let mut c = Canvas::new(2, 2, 0);
    c.draw_pixel(2, 0, 1, 2, 3);
    c.draw_pixel(0, -1, 1, 2, 3);
    assert!(c.as_bytes().iter().all(|&b| b == 0));
}

#[test]
fn draw_pixel_alpha_blends_with_rounding() {
    let mut c = Canvas::new(1, 1, 0);
    c.draw_pixel(0, 0, 0, 0, 255);
    c.draw_pixel_alpha(0, 0, 255, 0, 0, 128);
    assert_eq!(c.get_pixel(0, 0), Some((128, 0, 127)));
}

#[test]
fn draw_pixel_alpha_extremes() {
    let mut c = Canvas::new(1, 1, 1);
    c.draw_pixel(0, 0, 9, 8, 7);
    c.draw_pixel_alpha(0, 0, 200, 100, 50, 0);
    assert_eq!(c.get_pixel(0, 0), Some((9, 8, 7)));
    c.draw_pixel_alpha(0, 0, 200, 100, 50, 255);
    assert_eq!(c.get_pixel(0, 0), Some((200, 100, 50)));
}

#[test]
fn draw_rect_clips_to_canvas() {
    let mut c = Canvas::new(4, 4, 0);
    draw_rect(&mut c, -1, 2, 3, 5, 1, 2, 3);
    assert_eq!(c.get_pixel(0, 2), Some((1, 2, 3)));
    assert_eq!(c.get_pixel(1, 3), Some((1, 2, 3)));
    assert_eq!(c.get_pixel(2, 3), Some((0, 0, 0)));
    assert_eq!(c.get_pixel(0, 1), Some((0, 0, 0)));
}

#[test]
fn draw_rect_empty_sizes_draw_nothing() {
    let mut c = Canvas::new(3, 3, 0);
    draw_rect(&mut c, 0, 0, 0, 3, 9, 9, 9);
    draw_rect(&mut c, 0, 0, 3, -2, 9, 9, 9);
    assert!(c.as_bytes().iter().all(|&b| b == 0));
}

#[test]
fn draw_rect_alpha_blends_each_pixel_once() {
    let mut c = Canvas::new(3, 1, 0);
    draw_rect_alpha(&mut c, 0, 0, 2, 1, 255, 255, 255, 128);
    assert_eq!(c.get_pixel(0, 0), Some((128, 128, 128)));
    assert_eq!(c.get_pixel(1, 0), Some((128, 128, 128)));
    assert_eq!(c.get_pixel(2, 0), Some((0, 0, 0)));
}

#[test]
fn draw_rect_outline_leaves_interior() {
    let mut c = Canvas::new(5, 5, 0);
    draw_rect_outline(&mut c, 0, 0, 5, 5, 7, 7, 7, 1);
    assert_eq!(c.get_pixel(0, 0), Some((7, 7, 7)));
    assert_eq!(c.get_pixel(4, 2), Some((7, 7, 7)));
    assert_eq!(c.get_pixel(2, 4), Some((7, 7, 7)));
    assert_eq!(c.get_pixel(2, 2), Some((0, 0, 0)));
}

#[test]
fn draw_gradient_rounds_toward_zero() {
    let mut c = Canvas::new(2, 3, 0);
    draw_gradient(&mut c, 100, 0, 10, 0, 100, 10);
    assert_eq!(c.get_pixel(0, 0), Some((100, 0, 10)));
    assert_eq!(c.get_pixel(1, 1), Some((67, 33, 10)));
    assert_eq!(c.get_pixel(0, 2), Some((34, 66, 10)));
}

#[test]
fn draw_line_follows_bresenham() {
    let mut c = Canvas::new(6, 4, 0);
    draw_line(&mut c, 0, 0, 4, 2, 5, 5, 5);
    for (x, y) in [(0, 0), (1, 0), (2, 1), (3, 1), (4, 2)] {
        assert_eq!(c.get_pixel(x, y), Some((5, 5, 5)), "({}, {})", x, y);
    }
    assert_eq!(c.get_pixel(1, 1), Some((0, 0, 0)));
    assert_eq!(c.get_pixel(2, 0), Some((0, 0, 0)));
}

#[test]
fn draw_line_backwards_and_single_point() {
    let mut c = Canvas::new(4, 4, 0);
    draw_line(&mut c, 3, 3, 0, 0, 1, 1, 1);
    for i in 0..4 {
        assert_eq!(c.get_pixel(i, i), Some((1, 1, 1)));
    }
    let mut d = Canvas::new(2, 2, 0);
    draw_line(&mut d, 1, 1, 1, 1, 2, 2, 2);
    assert_eq!(d.get_pixel(1, 1), Some((2, 2, 2)));
    assert_eq!(d.get_pixel(0, 0), Some((0, 0, 0)));
}

#[test]
fn draw_line_thick_adds_neighbour() {
    let mut c = Canvas::new(5, 3, 0);
    draw_line_thick(&mut c, 0, 0, 3, 0, 4, 4, 4);
    assert_eq!(c.get_pixel(2, 0), Some((4, 4, 4)));
    assert_eq!(c.get_pixel(2, 1), Some((4, 4, 4)));
    assert_eq!(c.get_pixel(4, 0), Some((0, 0, 0)));
    let mut d = Canvas::new(3, 5, 0);
    draw_line_thick(&mut d, 0, 0, 0, 3, 4, 4, 4);
    assert_eq!(d.get_pixel(1, 2), Some((4, 4, 4)));
    assert_eq!(d.get_pixel(0, 1), Some((4, 4, 4)));
}

#[test]
fn corner_table_checks_sizes() {
    assert!(CornerTable::from_fills(vec![vec![], vec![1], vec![1, 2, 3, 4]]).is_some());
    assert!(CornerTable::from_fills(vec![vec![], vec![1, 2]]).is_none());
    assert_eq!(table(3, 0).len(), 4);
}

#[test]
fn rounded_rect_leaves_uncovered_corners() {
    let corners = table(8, 0);
    let mut c = Canvas::new(10, 10, 0);
    draw_rounded_rect_alpha(&mut c, &corners, 0, 0, 10, 10, 2, 9, 9, 9, 255);
    assert_eq!(c.get_pixel(0, 0), Some((0, 0, 0)));
    assert_eq!(c.get_pixel(1, 1), Some((0, 0, 0)));
    assert_eq!(c.get_pixel(2, 0), Some((9, 9, 9)));
    assert_eq!(c.get_pixel(0, 2), Some((9, 9, 9)));
    assert_eq!(c.get_pixel(9, 9), Some((0, 0, 0)));
    assert_eq!(c.get_pixel(5, 5), Some((9, 9, 9)));
}

#[test]
fn rounded_rect_full_coverage_fills_corners() {
    let corners = table(8, 255);
    let mut c = Canvas::new(6, 6, 0);
    draw_rounded_rect(&mut c, &corners, 0, 0, 6, 6, 3, 3, 3, 3);
    for y in 0..6 {
        for x in 0..6 {
            assert_eq!(c.get_pixel(x, y), Some((3, 3, 3)));
        }
    }
}

#[test]
fn rounded_rect_scales_corner_opacity() {
    let mut fills = vec![vec![], vec![0], vec![0, 0, 0, 128]];
    fills.push(vec![0; 9]);
    let corners = CornerTable::from_fills(fills).unwrap();
    let mut c = Canvas::new(4, 4, 0);
    draw_rounded_rect_alpha(&mut c, &corners, 0, 0, 4, 4, 2, 255, 255, 255, 255);
    // top-left pixel (1, 1) uses table cell (0, 0); bottom-right (3, 3) uses cell (1, 1).
    assert_eq!(c.get_pixel(1, 1), Some((0, 0, 0)));
    assert_eq!(c.get_pixel(3, 3), Some((128, 128, 128)));
    assert_eq!(c.get_pixel(0, 0), Some((128, 128, 128)));
}

#[test]
fn rounded_outline_draws_bands_only() {
    let corners = table(8, 0);
    let mut c = Canvas::new(8, 8, 0);
    draw_rounded_rect_outline(&mut c, &corners, 0, 0, 8, 8, 2, 6, 6, 6, 1);
    assert_eq!(c.get_pixel(3, 0), Some((6, 6, 6)));
    assert_eq!(c.get_pixel(0, 3), Some((6, 6, 6)));
    assert_eq!(c.get_pixel(7, 4), Some((6, 6, 6)));
    assert_eq!(c.get_pixel(3, 3), Some((0, 0, 0)));
    let mut d = Canvas::new(8, 8, 0);
    draw_rounded_rect_outline_alpha(&mut d, &corners, 0, 0, 8, 8, 2, 255, 255, 255, 1, 128);
    assert_eq!(d.get_pixel(4, 7), Some((128, 128, 128)));
}

#[test]
fn rect_alpha_exclude_skips_window() {
    let mut c = Canvas::new(6, 6, 0);
    draw_rect_alpha_exclude(&mut c, 0, 0, 6, 6, 255, 255, 255, 255, 2, 2, 2, 2);
    assert_eq!(c.get_pixel(0, 0), Some((255, 255, 255)));
    assert_eq!(c.get_pixel(2, 2), Some((0, 0, 0)));
    assert_eq!(c.get_pixel(3, 3), Some((0, 0, 0)));
    assert_eq!(c.get_pixel(4, 3), Some((255, 255, 255)));
    assert_eq!(c.get_pixel(3, 1), Some((255, 255, 255)));
}

#[test]
fn rect_alpha_exclude_without_overlap_draws_whole_rect() {
    let mut c = Canvas::new(6, 6, 0);
    draw_shadow_rect_alpha(&mut c, 0, 0, 2, 2, 9, 9, 9, 255, 4, 4, 2, 2);
    assert_eq!(c.get_pixel(1, 1), Some((9, 9, 9)));
    assert_eq!(c.get_pixel(4, 4), Some((0, 0, 0)));
}

#[test]
fn shadow_rounded_rect_spares_window() {
    let corners = table(30, 255);
    let mut c = Canvas::new(20, 20, 0);
    draw_shadow_rounded_rect_alpha(
        &mut c, &corners, 0, 0, 20, 20, 4, 255, 255, 255, 255, 5, 5, 10, 10,
    );
    assert_eq!(c.get_pixel(0, 0), Some((255, 255, 255)));
    assert_eq!(c.get_pixel(6, 6), Some((0, 0, 0)));
    assert_eq!(c.get_pixel(14, 14), Some((0, 0, 0)));
    assert_eq!(c.get_pixel(15, 15), Some((255, 255, 255)));
}

#[test]
fn cursor_draws_outline_and_fill() {
    let mut c = Canvas::new(10, 14, 0);
    draw_rect(&mut c, 0, 0, 10, 14, 50, 50, 50);
    draw_cursor(&mut c, 1, 1);
    assert_eq!(c.get_pixel(1, 1), Some((0, 0, 0)));
    assert_eq!(c.get_pixel(2, 2), Some((255, 255, 255)));
    assert_eq!(c.get_pixel(3, 1), Some((50, 50, 50)));
    assert_eq!(c.get_pixel(1, 12), Some((50, 50, 50)));
}

#[test]
fn cursor_to_buf_writes_gray_levels() {
    let mut fb = vec![7u8; 16 * 16 * 3 + 5];
    draw_cursor_to_buf(&mut fb, 0, 0, 16, 16);
    assert_eq!(&fb[0..3], &[0, 0, 0]);
    let p = (1 * 16 + 1) * 3;
    assert_eq!(&fb[p..p + 3], &[255, 255, 255]);
    let q = (0 * 16 + 2) * 3;
    assert_eq!(&fb[q..q + 3], &[7, 7, 7]);
    assert_eq!(fb[16 * 16 * 3], 7);
}

#[test]
fn copy_rect_moves_only_the_rect() {
    let mut back = Canvas::new(3, 3, 0);
    draw_rect(&mut back, 0, 0, 3, 3, 1, 2, 3);
    let mut fb = vec![0u8; 27];
    copy_rect_back_to_fb(&mut fb, back.as_bytes(), 1, 1, 1, 1, 3, 3);
    let o = (1 * 3 + 1) * 3;
    assert_eq!(&fb[o..o + 3], &[3, 2, 1]);
    assert_eq!(&fb[0..3], &[0, 0, 0]);
    copy_rect_back_to_fb(&mut fb, back.as_bytes(), -5, -5, 100, 100, 3, 3);
    assert_eq!(fb.as_slice(), back.as_bytes());
}

#[test]
fn snapshot_then_restore_round_trip() {
    let mut screen = Canvas::new(6, 5, 0);
    screen.draw_pixel(2, 1, 10, 20, 30);
    screen.draw_pixel(3, 2, 40, 50, 60);
    let mut store = WindowBackingStore::new();
    snapshot_window_backing_store(&mut store, &screen, 2, 1, 3, 2);
    assert_eq!(store.width, 3);
    assert_eq!(store.height, 2);
    assert_eq!(store.pixels[0], 0xFF0A141E);
    assert_eq!(store.pixels[580 + 1], 0xFF28323C);
    let mut other = Canvas::new(6, 5, 0);
    restore_window_backing_store(&mut other, &store, 2, 1);
    assert_eq!(other.get_pixel(2, 1), Some((10, 20, 30)));
    assert_eq!(other.get_pixel(3, 2), Some((40, 50, 60)));
    assert_eq!(other.get_pixel(5, 4), Some((0, 0, 0)));
}

#[test]
fn snapshot_of_empty_window_changes_nothing() {
    let screen = Canvas::new(2, 2, 0);
    let mut store = WindowBackingStore::new();
    snapshot_window_backing_store(&mut store, &screen, 0, 0, 0, 5);
    assert_eq!(store.width, 0);
    assert!(store.is_dirty);
}

#[test]
fn matches_search_ignores_case() {
    assert!(matches_search("File Manager", "man"));
    assert!(matches_search("Shut Down", "DOWN"));
    assert!(matches_search("Settings", ""));
    assert!(!matches_search("Console", "xyz"));
    assert!(!matches_search("Con", "Console"));
}

#[test]
fn card_layout_centers_rows() {
    assert_eq!(get_app_card_layout(0, 6, 1280, 720), (360, 180, 160, 140));
    assert_eq!(get_app_card_layout(4, 6, 1280, 720), (560, 350, 160, 140));
    assert_eq!(get_app_card_layout(3, 4, 1280, 720), (560, 350, 160, 140));
}

#[test]
fn draw_char_scales_font_pixels() {
    let mut rows = [0u8; 16];
    rows[0] = 0x80;
    let font = font_with(65, rows);
    let mut c = Canvas::new(6, 6, 0);
    draw_char(&mut c, &font, 0, 0, 'A', 9, 9, 9, 2);
    assert_eq!(c.get_pixel(0, 0), Some((9, 9, 9)));
    assert_eq!(c.get_pixel(1, 1), Some((9, 9, 9)));
    assert_eq!(c.get_pixel(2, 0), Some((0, 0, 0)));
    assert_eq!(c.get_pixel(0, 2), Some((0, 0, 0)));
    draw_char(&mut c, &font, 0, 0, 'é', 1, 1, 1, 1);
    assert_eq!(c.get_pixel(0, 0), Some((9, 9, 9)));
}

#[test]
fn draw_string_advances_and_skips_newlines() {
    let mut rows = [0u8; 16];
    rows[0] = 0x80;
    let font = font_with(65, rows);
    let mut c = Canvas::new(20, 2, 0);
    draw_string(&mut c, &font, 0, 0, "A\nA", 5, 5, 5, 1);
    assert_eq!(c.get_pixel(0, 0), Some((5, 5, 5)));
    assert_eq!(c.get_pixel(9, 0), Some((5, 5, 5)));
    assert_eq!(c.get_pixel(8, 0), Some((0, 0, 0)));
}

#[test]
fn smooth_char_full_glyph_is_opaque() {
    let font = font_with(66, [0xFF; 16]);
    let mut c = Canvas::new(10, 20, 0);
    draw_char_smooth(&mut c, &font, 1, 1, 'B', 200, 100, 50, 8, 16);
    assert_eq!(c.get_pixel(1, 1), Some((200, 100, 50)));
    assert_eq!(c.get_pixel(8, 16), Some((200, 100, 50)));
    assert_eq!(c.get_pixel(9, 1), Some((0, 0, 0)));
    assert_eq!(c.get_pixel(0, 0), Some((0, 0, 0)));
}

#[test]
fn smooth_char_partial_samples_give_partial_opacity() {
    let mut rows = [0u8; 16];
    rows[0] = 0x80;
    let font = font_with(67, rows);
    let mut c = Canvas::new(4, 4, 0);
    // A 4 x 8 cell halves the glyph: output pixel (0, 0) samples font pixels
    // (0, 0), (1, 0), (0, 1), (1, 1); only (0, 0) is set.
    draw_char_smooth(&mut c, &font, 0, 0, 'C', 255, 255, 255, 4, 8);
    assert_eq!(c.get_pixel(0, 0), Some((64, 64, 64)));
    assert_eq!(c.get_pixel(1, 0), Some((0, 0, 0)));
}

#[test]
fn smooth_string_places_cells_apart() {
    let font = font_with(66, [0xFF; 16]);
    let mut c = Canvas::new(12, 4, 0);
    draw_string_smooth(&mut c, &font, 0, 0, "BB", 9, 9, 9, 4, 4);
    assert_eq!(c.get_pixel(3, 0), Some((9, 9, 9)));
    assert_eq!(c.get_pixel(4, 0), Some((0, 0, 0)));
    assert_eq!(c.get_pixel(5, 0), Some((9, 9, 9)));
}

#[test]
fn tiny_icons_draw_their_shapes() {
    let corners = table(8, 255);
    let mut c = Canvas::new(20, 20, 0);
    draw_tiny_folder_icon(&mut c, &corners, 0, 0);
    assert_eq!(c.get_pixel(8, 10), Some((47, 140, 215)));
    assert_eq!(c.get_pixel(4, 0), Some((61, 174, 233)));
    let mut d = Canvas::new(20, 20, 0);
    draw_tiny_file_icon(&mut d, &corners, 0, 0);
    assert_eq!(d.get_pixel(3, 13), Some((215, 220, 232)));
    assert_eq!(d.get_pixel(0, 0), Some((0, 0, 0)));
}

#[test]
fn sidebar_icon_ids() {
    let corners = table(8, 255);
    let mut c = Canvas::new(50, 50, 0);
    draw_icon(&mut c, &corners, 2, 0, 0);
    assert_eq!(c.get_pixel(20, 20), Some((90, 200, 150)));
    let mut blank = Canvas::new(50, 50, 0);
    draw_icon(&mut blank, &corners, 9, 0, 0);
    assert!(blank.as_bytes().iter().all(|&b| b == 0));
}

#[test]
fn window_shadow_layers_fade_outwards() {
    let corners = table(26, 255);
    let mut c = Canvas::new(100, 100, 1);
    draw_rect(&mut c, 0, 0, 100, 100, 255, 255, 255);
    draw_window_shadow(&mut c, &corners, true, 30, 30, 40, 40);
    // Beside the window's left edge all five layers overlap:
    // 255 darkened by opacities 23, 20, 15, 8 and 4 in turn.
    assert_eq!(c.get_pixel(29, 50), Some((189, 189, 189)));
    // Nine pixels out only the outermost layer reaches, at opacity 4;
    // eleven pixels out nothing does.
    assert_eq!(c.get_pixel(21, 50), Some((251, 251, 251)));
    assert_eq!(c.get_pixel(19, 50), Some((255, 255, 255)));
    // Inside the window nothing is drawn.
    assert_eq!(c.get_pixel(31, 40), Some((255, 255, 255)));
    assert_eq!(c.get_pixel(69, 69), Some((255, 255, 255)));
    // Far from the window nothing is drawn either.
    assert_eq!(c.get_pixel(5, 5), Some((255, 255, 255)));
}

#[test]
fn window_shadow_off_draws_nothing() {
    let corners = table(26, 255);
    let mut c = Canvas::new(100, 100, 1);
    draw_rect(&mut c, 0, 0, 100, 100, 255, 255, 255);
    draw_window_shadow(&mut c, &corners, false, 30, 30, 40, 40);
    assert!(c.as_bytes().iter().all(|&b| b == 255));
}

fn icon_canvas() -> Canvas {
    let mut c = Canvas::new(64, 64, 1);
    draw_rect(&mut c, 0, 0, 64, 64, 10, 20, 30);
    c
}

#[test]
fn radiation_icon_draws_core_and_blades() {
    let (t, ring) = (table(30, 200), table(30, 120));
    let mut c = icon_canvas();
    draw_vector_radiation_icon(&mut c, &t, &ring, 4, 4, 40, 6);
    // The top blade is solid orange.
    assert_eq!(c.get_pixel(24, 14), Some((235, 140, 40)));
    // The same shapes drawn one by one give the same picture.
    let mut e = icon_canvas();
    draw_rounded_rect_alpha(&mut e, &t, 4, 4, 40, 40, 6, 32, 28, 44, 255);
    draw_rounded_rect_outline_alpha(&mut e, &ring, 4, 4, 40, 40, 6, 235, 140, 40, 1, 100);
    draw_rounded_rect_alpha(&mut e, &t, 21, 21, 6, 6, 3, 235, 140, 40, 255);
    draw_rect_alpha(&mut e, 22, 11, 4, 7, 235, 140, 40, 255);
    draw_rect_alpha(&mut e, 14, 29, 7, 4, 235, 140, 40, 255);
    draw_rect_alpha(&mut e, 27, 29, 7, 4, 235, 140, 40, 255);
    assert_eq!(c.as_bytes(), e.as_bytes());
}

#[test]
fn radiation_icon_raises_small_corner_radius() {
    let (t, ring) = (table(30, 200), table(30, 120));
    let mut c = icon_canvas();
    draw_vector_radiation_icon(&mut c, &t, &ring, 4, 4, 40, 1);
    let mut e = icon_canvas();
    draw_vector_radiation_icon(&mut e, &t, &ring, 4, 4, 40, 3);
    assert_eq!(c.as_bytes(), e.as_bytes());
}

#[test]
fn launchpad_icon_draws_nine_dots() {
    let (t, ring) = (table(30, 200), table(30, 120));
    let m = LaunchpadIconMetrics { corner: 7, dot: 6, gap: 6, inset: 11 };
    let mut c = icon_canvas();
    draw_vector_launchpad_icon(&mut c, &t, &ring, 2, 3, 50, m);
    let mut e = icon_canvas();
    draw_rounded_rect_alpha(&mut e, &t, 2, 3, 50, 50, 7, 50, 50, 60, 255);
    draw_rounded_rect_outline_alpha(&mut e, &ring, 2, 3, 50, 50, 7, 100, 100, 120, 1, 100);
    for row in 0..3 {
        for col in 0..3 {
            draw_rounded_rect_alpha(&mut e, &t, 2 + 11 + col * 12, 3 + 11 + row * 12, 6, 6, 3, 255, 255, 255, 230);
        }
    }
    assert_eq!(c.as_bytes(), e.as_bytes());
    assert_ne!(c.get_pixel(2 + 11 + 2 * 12 + 3, 3 + 11 + 12 + 3), Some((50, 50, 60)));
}

#[test]
fn launchpad_icon_keeps_tiny_dots_visible() {
    let (t, ring) = (table(30, 200), table(30, 120));
    let m = LaunchpadIconMetrics { corner: 0, dot: 1, gap: 1, inset: 2 };
    let mut c = icon_canvas();
    draw_vector_launchpad_icon(&mut c, &t, &ring, 0, 0, 10, m);
    let mut e = icon_canvas();
    draw_rounded_rect_alpha(&mut e, &t, 0, 0, 10, 10, 3, 50, 50, 60, 255);
    draw_rounded_rect_outline_alpha(&mut e, &ring, 0, 0, 10, 10, 3, 100, 100, 120, 1, 100);
    for row in 0..3 {
        for col in 0..3 {
            draw_rounded_rect_alpha(&mut e, &t, 2 + col * 2, 2 + row * 2, 2, 2, 1, 255, 255, 255, 230);
        }
    }
    assert_eq!(c.as_bytes(), e.as_bytes());
}

#[test]
fn terminal_icon_draws_dots_and_prompt() {
    let (t, ring) = (table(30, 200), table(30, 120));
    let m = TerminalIconMetrics {
        corner: 7,
        dot: 4,
        dot_radius: 2,
        dot_top: 7,
        dot1_left: 7,
        dot2_left: 15,
        dot3_left: 22,
        prompt_left: 12,
        prompt_top: 25,
        prompt_width: 7,
    };
    let mut c = icon_canvas();
    draw_vector_terminal_icon(&mut c, &t, &ring, 5, 5, 50, m);
    let mut e = icon_canvas();
    draw_rounded_rect_alpha(&mut e, &t, 5, 5, 50, 50, 7, 20, 22, 34, 255);
    draw_rounded_rect_outline_alpha(&mut e, &ring, 5, 5, 50, 50, 7, 60, 65, 80, 1, 100);
    draw_rounded_rect_alpha(&mut e, &t, 12, 12, 4, 4, 2, 230, 72, 58, 255);
    draw_rounded_rect_alpha(&mut e, &t, 20, 12, 4, 4, 2, 240, 185, 25, 255);
    draw_rounded_rect_alpha(&mut e, &t, 27, 12, 4, 4, 2, 39, 201, 63, 255);
    draw_line_thick(&mut e, 17, 30, 24, 33, 230, 235, 250);
    draw_line_thick(&mut e, 24, 33, 17, 37, 230, 235, 250);
    assert_eq!(c.as_bytes(), e.as_bytes());
    // The prompt's first stroke starts at its left end.
    assert_eq!(c.get_pixel(17, 30), Some((230, 235, 250)));
}

#[test]
fn metrics_icon_draws_three_bars() {
    let (t, ring) = (table(30, 200), table(30, 120));
    let m = MetricsIconMetrics {
        corner: 7,
        bar_width: 9,
        bar_radius: 2,
        bar1_left: 9,
        bar1_top: 25,
        bar1_height: 17,
        bar2_left: 20,
        bar2_top: 12,
        bar2_height: 30,
        bar3_left: 32,
        bar3_top: 20,
        bar3_height: 22,
    };
    let mut c = icon_canvas();
    draw_vector_metrics_icon(&mut c, &t, &ring, 4, 4, 50, m);
    let mut e = icon_canvas();
    draw_rounded_rect_alpha(&mut e, &t, 4, 4, 50, 50, 7, 32, 36, 54, 255);
    draw_rounded_rect_outline_alpha(&mut e, &ring, 4, 4, 50, 50, 7, 80, 85, 105, 1, 80);
    draw_rounded_rect_alpha(&mut e, &t, 13, 29, 9, 17, 2, 61, 174, 233, 255);
    draw_rounded_rect_alpha(&mut e, &t, 24, 16, 9, 30, 2, 90, 200, 150, 255);
    draw_rounded_rect_alpha(&mut e, &t, 36, 24, 9, 22, 2, 180, 100, 230, 255);
    assert_eq!(c.as_bytes(), e.as_bytes());
    assert_eq!(c.get_pixel(17, 35), Some((61, 174, 233)));
}

#[test]
fn settings_icon_draws_three_sliders() {
    let (t, ring) = (table(30, 200), table(30, 120));
    let m = SettingsIconMetrics {
        corner: 7,
        track_left: 10,
        track_width: 30,
        first_top: 12,
        step: 12,
        knob1: 15,
        knob2: 25,
        knob3: 10,
    };
    let mut c = icon_canvas();
    draw_vector_settings_icon(&mut c, &t, &ring, 4, 4, 50, m);
    let mut e = icon_canvas();
    draw_rounded_rect_alpha(&mut e, &t, 4, 4, 50, 50, 7, 44, 48, 64, 255);
    draw_rounded_rect_outline_alpha(&mut e, &ring, 4, 4, 50, 50, 7, 110, 115, 140, 1, 100);
    for (i, knob) in [15, 25, 10].into_iter().enumerate() {
        let ty = 16 + i as i32 * 12;
        draw_rounded_rect_alpha(&mut e, &t, 14, ty, 30, 2, 1, 80, 85, 105, 180);
        draw_rounded_rect_alpha(&mut e, &t, 14 + knob - 4, ty - 3, 8, 8, 4, 61, 174, 233, 255);
    }
    assert_eq!(c.as_bytes(), e.as_bytes());
}

#[test]
fn folder_icon_draws_tab_body_and_shine() {
    let t = table(30, 200);
    let m = FolderIconMetrics {
        tab_radius: 4,
        body_radius: 7,
        tab_left: 2,
        tab_top: 2,
        tab_width: 25,
        tab_height: 10,
        body_top: 9,
        body_height: 41,
        shine_left: 4,
        shine_top: 11,
        shine_width: 42,
        shine_height: 7,
    };
    let mut c = icon_canvas();
    draw_vector_folder_icon(&mut c, &t, 6, 6, 50, m);
    let mut e = icon_canvas();
    draw_rounded_rect_alpha(&mut e, &t, 8, 8, 25, 10, 4, 55, 155, 230, 255);
    draw_rounded_rect_alpha(&mut e, &t, 6, 15, 50, 41, 7, 48, 142, 218, 255);
    draw_rounded_rect_alpha(&mut e, &t, 10, 17, 42, 7, 4, 130, 210, 255, 45);
    assert_eq!(c.as_bytes(), e.as_bytes());
    assert_eq!(c.get_pixel(30, 40), Some((48, 142, 218)));
}

#[test]
fn thick_line_is_two_lines() {
    for &(x0, y0, x1, y1) in &[(1, 1, 12, 5), (3, 2, 6, 13), (12, 12, 2, 9), (5, 5, 5, 5)] {
        let mut a = Canvas::new(16, 16, 1);
        draw_line_thick(&mut a, x0, y0, x1, y1, 200, 100, 50);
        let mut b = Canvas::new(16, 16, 1);
        draw_line(&mut b, x0, y0, x1, y1, 200, 100, 50);
        if (x1 - x0).abs() >= (y1 - y0).abs() {
            draw_line(&mut b, x0, y0 + 1, x1, y1 + 1, 200, 100, 50);
        } else {
            draw_line(&mut b, x0 + 1, y0, x1 + 1, y1, 200, 100, 50);
        }
        assert_eq!(a.as_bytes(), b.as_bytes());
    }
}

#[test]
fn string_is_its_characters() {
    let mut glyphs = vec![[0u8; 16]; 128];
    glyphs[b'A' as usize] = [0x81; 16];
    glyphs[b'B' as usize] = [0x3c; 16];
    let font = Font::new(glyphs).unwrap();
    let mut a = Canvas::new(40, 20, 1);
    draw_string(&mut a, &font, 1, 1, "A\nBé", 7, 8, 9, 1);
    let mut b = Canvas::new(40, 20, 1);
    // Line feeds are skipped; every other character moves the pen 9 pixels.
    draw_char(&mut b, &font, 1, 1, 'A', 7, 8, 9, 1);
    draw_char(&mut b, &font, 10, 1, 'B', 7, 8, 9, 1);
    draw_char(&mut b, &font, 19, 1, 'é', 7, 8, 9, 1);
    assert_eq!(a.as_bytes(), b.as_bytes());
}

#[test]
fn shadow_outside_window_is_plain_rounded_rect() {
    let corners = table(10, 150);
    let mut base = Canvas::new(40, 40, 1);
    draw_rect(&mut base, 0, 0, 40, 40, 200, 210, 220);
    let mut a = Canvas::new(40, 40, 1);
    a.load_bytes(base.as_bytes());
    draw_shadow_rounded_rect_alpha(&mut a, &corners, 2, 3, 30, 28, 6, 0, 0, 0, 90, 10, 10, 12, 12);
    let mut b = Canvas::new(40, 40, 1);
    b.load_bytes(base.as_bytes());
    draw_rounded_rect_alpha(&mut b, &corners, 2, 3, 30, 28, 6, 0, 0, 0, 90);
    for y in 0..40 {
        for x in 0..40 {
            let inside = (10..22).contains(&x) && (10..22).contains(&y);
            let expect = if inside { base.get_pixel(x, y) } else { b.get_pixel(x, y) };
            assert_eq!(a.get_pixel(x, y), expect);
        }
    }
}

#[test]
fn cursor_and_glyph_at_the_edge_of_i32() {
    let mut c = Canvas::new(4, 4, 1);
    draw_cursor(&mut c, i32::MAX - 7, i32::MAX - 10);
    assert!(c.as_bytes().iter().all(|&b| b == 0));
    let font = font_with(b'A' as usize, [0xff; 16]);
    draw_char(&mut c, &font, i32::MAX - 7, 0, 'A', 9, 9, 9, 1);
    draw_char(&mut c, &font, 0, i32::MAX - 15, 'A', 9, 9, 9, 1);
    assert!(c.as_bytes().iter().all(|&b| b == 0));
    // A glyph reaching the canvas from the left still draws its last column.
    draw_char(&mut c, &font, -7, 0, 'A', 9, 9, 9, 1);
    assert_eq!(c.get_pixel(0, 0), Some((9, 9, 9)));
    assert_eq!(c.get_pixel(1, 0), Some((0, 0, 0)));
}
