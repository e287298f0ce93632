use lib::canvas::Canvas;
use lib::file_manager::state::{FileManagerState, MODAL_CONFIRM_DELETE, MODAL_NEW_FILE, MODAL_NEW_FOLDER};
use lib::file_manager::view::{
    fm_layout, hovered_entry, hovered_toolbar_button, listing_rows, modal_action_label,
    modal_placeholder, modal_title, path_label, preview_lines, scroll_arrow_hover, selected_entry,
    status_text, take_prefix, type_badge, RowMark,
};
use lib::graphics::compositor::{all_apps, matching_apps, search_cursor_visible};
use lib::graphics::stars::draw_star_field;
use lib::radiation::radiation_layout;
use lib::settings::{switch_knob_offset, system_lines, tab_look, TabLook};

#[test]
fn file_manager_layout() {
    let l = fm_layout(500);
    assert_eq!((l.list_width, l.preview_x, l.preview_width), (330, 348, 140));
    let s = fm_layout(300);
    assert_eq!((s.list_width, s.preview_x, s.preview_width), (180, 198, 120));
}

#[test]
fn hovered_entry_in_list_and_grid() {
    assert_eq!(hovered_entry(0, 0, 50, 100, 330, 400), 0);
    assert_eq!(hovered_entry(0, 28, 50, 100, 330, 400), 1);
    assert_eq!(hovered_entry(0, 0, 5, 100, 330, 400), -1);
    assert_eq!(hovered_entry(0, 0, 50, 380, 330, 400), -1);
    assert_eq!(hovered_entry(1, 0, 100, 156, 330, 400), 5);
    assert_eq!(hovered_entry(1, 0, 313, 100, 330, 400), -1);
}

#[test]
fn listing_rows_in_list_view() {
    let mut s = FileManagerState::new();
    s.selected_index = 1;
    let rows = listing_rows(&mut s, b"bin/\nnotes.txt\n", 50, 80, 500, 400).unwrap();
    assert_eq!(s.total_items, 2);
    assert_eq!(s.hovered_index, 0);
    assert_eq!(rows.len(), 2);
    assert_eq!((rows[0].x, rows[0].y, rows[0].visible), (12, 76, true));
    assert_eq!(rows[0].mark, RowMark::Hovered);
    assert!(rows[0].is_dir);
    assert_eq!(rows[0].label, b"bin".to_vec());
    assert_eq!((rows[1].y, rows[1].mark, rows[1].is_dir), (104, RowMark::Selected, false));
    assert_eq!(rows[1].label, b"notes.txt".to_vec());
}

#[test]
fn listing_rows_cut_labels_and_hide_scrolled_rows() {
    let mut s = FileManagerState::new();
    s.scroll_offset = 28;
    let rows =
        listing_rows(&mut s, b"a\nabcdefghijklmnopqrstuvwxyz\nz", 0, 0, 500, 400).unwrap();
    assert_eq!(s.hovered_index, -1);
    assert_eq!(rows[0].y, 48);
    assert!(!rows[0].visible);
    assert_eq!(rows[1].label, b"abcdefghijklmn".to_vec());
    assert_eq!(rows[2].mark, RowMark::Plain);
    let mut g = FileManagerState::new();
    g.view_mode = 1;
    let rows = listing_rows(&mut g, b"a\nb\nc\nd\nverylongname//\n", 0, 0, 500, 400).unwrap();
    assert_eq!((rows[4].x, rows[4].y), (16, 148));
    assert_eq!((rows[3].x, rows[3].y), (16 + 3 * 74, 78));
    assert_eq!(rows[4].label, b"verylon".to_vec());
    assert!(rows[4].visible);
}

#[test]
fn listing_rows_reject_bad_utf8() {
    let mut s = FileManagerState::new();
    s.total_items = 9;
    assert!(listing_rows(&mut s, &[0xC3, b'\n'], 0, 0, 500, 400).is_none());
    assert_eq!(s.total_items, 9);
    assert_eq!(s.hovered_index, -1);
}

#[test]
fn selection_and_labels() {
    assert_eq!(selected_entry(b"bin/\nnotes.txt", 0), Some((b"bin/".to_vec(), true)));
    assert_eq!(selected_entry(b"bin/\nnotes.txt", 1), Some((b"notes.txt".to_vec(), false)));
    assert_eq!(selected_entry(b"bin/\nnotes.txt", 2), None);
    assert_eq!(selected_entry(b"bin/", -1), None);
    let long = "x".repeat(100);
    assert_eq!(selected_entry(long.as_bytes(), 0).unwrap().0.len(), 64);
    assert_eq!(path_label(b"/system/logs/archive"), b"Path: /system/logs/a".to_vec());
    assert_eq!(path_label(b"/"), b"Path: /".to_vec());
    assert_eq!(status_text(3, b""), b"3 Items".to_vec());
    assert_eq!(status_text(12, b"folder/"), b"12 Items | Sel: folder".to_vec());
    assert_eq!(status_text(0, b"abcdefghijklm"), b"0 Items | Sel: abcdefghij".to_vec());
    assert_eq!(status_text(4, &[0xFF]), b"4 Items".to_vec());
    assert_eq!(take_prefix(b"abc", 2), b"ab".to_vec());
}

#[test]
fn type_badges() {
    assert_eq!(type_badge("dir/"), "Folder");
    assert_eq!(type_badge("main.rs"), "Rust Source");
    assert_eq!(type_badge("a.md"), "Text Doc");
    assert_eq!(type_badge("a.txt"), "Text Doc");
    assert_eq!(type_badge("sys.log"), "System Log");
    assert_eq!(type_badge("image.png"), "File");
    assert_eq!(type_badge("Cargo.toml"), "File");
}

#[test]
fn preview_lines_fit_the_window() {
    let text = b"one\ntwo\nthis line is long\nfour\nfive\nsix\n";
    let v = preview_lines(text, 300);
    assert_eq!(v.len(), 5);
    assert_eq!(v[2], b"this line is".to_vec());
    assert_eq!(preview_lines(text, 260).len(), 2);
    assert_eq!(preview_lines(text, 200).len(), 0);
    assert_eq!(preview_lines(&[0xFF], 400).len(), 0);
    assert_eq!(preview_lines(b"only", 400), vec![b"only".to_vec()]);
}

#[test]
fn modal_texts() {
    assert_eq!(modal_title(MODAL_NEW_FOLDER), "Create New Folder");
    assert_eq!(modal_title(MODAL_NEW_FILE), "Create New File");
    assert_eq!(modal_title(MODAL_CONFIRM_DELETE), "Delete Selected Item?");
    assert_eq!(modal_title(9), "Dialog");
    assert_eq!(modal_placeholder(MODAL_NEW_FOLDER), "Enter folder name...");
    assert_eq!(modal_placeholder(MODAL_NEW_FILE), "Enter file name...");
    assert_eq!(modal_action_label(MODAL_CONFIRM_DELETE), "Confirm");
    assert_eq!(modal_action_label(MODAL_NEW_FILE), "Create");
}

#[test]
fn toolbar_and_scrollbar_hover() {
    assert_eq!(hovered_toolbar_button(20, 40, 500), 1);
    assert_eq!(hovered_toolbar_button(20, 10, 500), 0);
    assert_eq!(hovered_toolbar_button(480, 60, 500), 7);
    assert_eq!(hovered_toolbar_button(100, 60, 500), 0);
    assert_eq!(scroll_arrow_hover(320, 80, 330, 400), (true, false));
    assert_eq!(scroll_arrow_hover(320, 360, 330, 400), (false, true));
    assert_eq!(scroll_arrow_hover(300, 80, 330, 400), (false, false));
}

#[test]
fn settings_view_parts() {
    assert_eq!(tab_look(0, 0, 0, 0), TabLook::Active);
    assert_eq!(tab_look(1, 0, 50, 90), TabLook::Hovered);
    assert_eq!(tab_look(1, 0, 50, 108), TabLook::Normal);
    assert_eq!(tab_look(2, 0, 130, 120), TabLook::Normal);
    assert_eq!(switch_knob_offset(true), 26);
    assert_eq!(switch_knob_offset(false), 2);
    let (a, b, c) = system_lines(5, 7, 4096 + 1023);
    assert_eq!(a, b"ECC Corrections: 5".to_vec());
    assert_eq!(b, b"Pages Quarantined: 7".to_vec());
    assert_eq!(c, b"Memory Used: 4 KB".to_vec());
}

#[test]
fn radiation_window_layout() {
    let l = radiation_layout(500);
    assert_eq!((l.card_w, l.flip1_x, l.flip2_x), (452, 340, 404));
    assert_eq!((l.box_w, l.quarantine_x, l.relocated_x), (148, 176, 328));
    let small = radiation_layout(10);
    assert_eq!((small.card_w, small.box_w), (-38, -15));
}

#[test]
fn application_search() {
    let apps = all_apps();
    assert_eq!(apps[4].title, "Radiation Simulator");
    assert_eq!(apps[5].id, 5);
    assert_eq!(matching_apps("se"), vec![3]);
    assert_eq!(matching_apps(""), vec![0, 1, 2, 3, 4, 5]);
    assert_eq!(matching_apps("O"), vec![0, 1, 4, 5]);
    assert_eq!(matching_apps("zzz"), Vec::<usize>::new());
    assert!(search_cursor_visible(0));
    assert!(!search_cursor_visible(30));
    assert!(search_cursor_visible(61));
}

fn blend(src: u8, dst: u8, a: u8) -> u8 {
    let v = src as u32 * a as u32 + dst as u32 * (255 - a as u32);
    ((v + 1 + v / 256) / 256) as u8
}

#[test]
fn star_field_matches_generator() {
    let (w, h) = (120i32, 90i32);
    let mut c = Canvas::new(w as u64, h as u64, 0);
    draw_star_field(&mut c);
    let mut model = vec![0u8; (w * h) as usize];
    let mut seed: u32 = 0xDEAD_C0DE;
    let mut next = |s: &mut u32| {
        *s = s.wrapping_mul(1_664_525).wrapping_add(1_013_904_223);
        *s
    };
    for _ in 0..350 {
        let sx = (next(&mut seed) >> 15) as i32 % w;
        let sy = (next(&mut seed) >> 15) as i32 % (h - 60);
        let s3 = next(&mut seed);
        let b = 80 + (s3 >> 24) as u8 % 175;
        model[(sy * w + sx) as usize] = b;
        if (s3 >> 18) & 7 == 0 {
            for (x, y) in [(sx - 1, sy), (sx + 1, sy), (sx, sy - 1), (sx, sy + 1)] {
                if x >= 0 && x < w && y >= 0 && y < h {
                    let p = &mut model[(y * w + x) as usize];
                    *p = blend(b, *p, 50);
                }
            }
        }
    }
    for y in 0..h {
        for x in 0..w {
            let m = model[(y * w + x) as usize];
            assert_eq!(c.get_pixel(x, y), Some((m, m, m)), "({}, {})", x, y);
        }
    }
    assert!(model.iter().any(|&m| m > 0));
}
