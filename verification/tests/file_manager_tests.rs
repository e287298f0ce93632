use lib::file_manager::input::{
    handle_file_manager_click, handle_file_manager_mouse_drag, set_track_scroll, ClickRequest,
};
use lib::file_manager::state::{
    delete_target, detect_file_type, execute_modal_action, handle_file_manager_key, open_entry,
    FileManagerState, ModalRequest, KEY_BACKSPACE, KEY_DOWN, KEY_ENTER, KEY_ESCAPE, KEY_PAGE_DOWN,
    KEY_PAGE_UP, KEY_UP, MODAL_CONFIRM_DELETE, MODAL_NEW_FILE, MODAL_NEW_FOLDER, MODAL_NONE,
};

fn path_of(s: &FileManagerState) -> String {
    let mut buf = [0u8; 256];
    s.get_path(&mut buf).to_string()
}

fn input_of(s: &FileManagerState) -> String {
    let mut buf = [0u8; 64];
    s.get_modal_input(&mut buf).to_string()
}

fn at(path: &str) -> FileManagerState {
    let mut s = FileManagerState::new();
    s.set_path(path);
    s
}

#[test]
fn new_state_starts_at_root() {
    let s = FileManagerState::new();
    assert_eq!(path_of(&s), "/");
    assert_eq!(s.selected_index, -1);
    assert_eq!(s.hovered_index, -1);
    assert_eq!(s.modal_mode, MODAL_NONE);
    assert_eq!(s.view_mode, 0);
    assert_eq!(s.scroll_offset, 0);
    assert_eq!(s.total_items, 0);
    assert_eq!(input_of(&s), "");
}

#[test]
fn set_path_resets_selection_and_scroll() {
    let mut s = FileManagerState::new();
    s.selected_index = 3;
    s.hovered_index = 2;
    s.scroll_offset = 40;
    s.set_path("/system/logs");
    assert_eq!(path_of(&s), "/system/logs");
    assert_eq!(s.selected_index, -1);
    assert_eq!(s.hovered_index, -1);
    assert_eq!(s.scroll_offset, 0);
}

#[test]
fn set_path_keeps_first_256_bytes() {
    let long = "a".repeat(300);
    let s = at(&long);
    assert_eq!(s.path_len, 256);
    assert_eq!(path_of(&s), "a".repeat(256));
}

#[test]
fn get_path_into_short_buffer() {
    let s = at("/system");
    let mut buf = [0u8; 4];
    assert_eq!(s.get_path(&mut buf), "/sys");
}

#[test]
fn get_path_falls_back_to_root_on_bad_utf8() {
    let mut s = FileManagerState::new();
    s.path_buf[0] = 0xFF;
    s.path_len = 1;
    assert_eq!(path_of(&s), "/");
}

#[test]
fn pop_dir_walks_up_to_root() {
    let mut s = at("/system/logs");
    s.pop_dir();
    assert_eq!(path_of(&s), "/system");
    s.pop_dir();
    assert_eq!(path_of(&s), "/");
    s.selected_index = 5;
    s.pop_dir();
    assert_eq!(path_of(&s), "/");
    assert_eq!(s.selected_index, 5);
}

#[test]
fn pop_dir_without_slash_goes_to_root() {
    let mut s = at("docs");
    s.pop_dir();
    assert_eq!(path_of(&s), "/");
}

#[test]
fn push_dir_joins_and_trims() {
    let mut s = FileManagerState::new();
    s.push_dir("system/");
    assert_eq!(path_of(&s), "/system");
    s.push_dir("logs");
    assert_eq!(path_of(&s), "/system/logs");
    s.pop_dir();
    assert_eq!(path_of(&s), "/system");
}

#[test]
fn toggle_view_mode_switches_and_scrolls_top() {
    let mut s = FileManagerState::new();
    s.scroll_offset = 30;
    s.toggle_view_mode();
    assert_eq!(s.view_mode, 1);
    assert_eq!(s.scroll_offset, 0);
    s.toggle_view_mode();
    assert_eq!(s.view_mode, 0);
    s.view_mode = 7;
    s.toggle_view_mode();
    assert_eq!(s.view_mode, 0);
}

#[test]
fn max_scroll_in_list_and_grid_view() {
    let mut s = FileManagerState::new();
    s.total_items = 10;
    assert_eq!(s.calculate_max_scroll(200, 200), 80);
    assert_eq!(s.calculate_max_scroll(400, 200), 0);
    s.view_mode = 1;
    assert_eq!(s.calculate_max_scroll(200, 200), 150);
    assert_eq!(s.calculate_max_scroll(200, 50), 500);
    s.total_items = 0;
    assert_eq!(s.calculate_max_scroll(200, 200), 0);
}

#[test]
fn scroll_down_and_up_are_clamped() {
    let mut s = FileManagerState::new();
    s.total_items = 10;
    s.scroll_down(50, 200, 200);
    assert_eq!(s.scroll_offset, 50);
    s.scroll_down(100, 200, 200);
    assert_eq!(s.scroll_offset, 80);
    s.scroll_up(30);
    assert_eq!(s.scroll_offset, 50);
    s.scroll_up(100);
    assert_eq!(s.scroll_offset, 0);
}

#[test]
fn modal_input_typing() {
    let mut s = FileManagerState::new();
    s.open_modal(MODAL_NEW_FOLDER);
    assert_eq!(s.modal_mode, MODAL_NEW_FOLDER);
    s.push_modal_char('a');
    s.push_modal_char('b');
    assert_eq!(input_of(&s), "ab");
    s.pop_modal_char();
    assert_eq!(input_of(&s), "a");
    s.pop_modal_char();
    s.pop_modal_char();
    assert_eq!(s.modal_input_len, 0);
    s.push_modal_char('z');
    s.close_modal();
    assert_eq!(s.modal_mode, MODAL_NONE);
    assert_eq!(input_of(&s), "");
}

#[test]
fn modal_input_is_capped_and_latin1_only() {
    let mut s = FileManagerState::new();
    s.open_modal(MODAL_NEW_FILE);
    for _ in 0..70 {
        s.push_modal_char('x');
    }
    assert_eq!(s.modal_input_len, 64);
    let mut t = FileManagerState::new();
    t.push_modal_char('\u{263A}');
    assert_eq!(t.modal_input_len, 0);
    t.push_modal_char('\u{e9}');
    assert_eq!(t.modal_input_len, 1);
    assert_eq!(t.modal_input_buf[0], 0xE9);
    assert_eq!(input_of(&t), "");
}

#[test]
fn get_modal_input_into_short_buffer() {
    let mut s = FileManagerState::new();
    for c in "hello".chars() {
        s.push_modal_char(c);
    }
    let mut buf = [0u8; 3];
    assert_eq!(s.get_modal_input(&mut buf), "hel");
}

#[test]
fn submitting_new_folder_asks_for_mkdir() {
    let mut s = at("/home");
    s.open_modal(MODAL_NEW_FOLDER);
    for c in "docs".chars() {
        s.push_modal_char(c);
    }
    let req = execute_modal_action(&mut s);
    assert_eq!(req, ModalRequest::MakeDir(b"/home/docs".to_vec()));
    assert_eq!(s.modal_mode, MODAL_NONE);
    assert_eq!(s.modal_input_len, 0);
}

#[test]
fn submitting_new_file_at_root() {
    let mut s = FileManagerState::new();
    s.open_modal(MODAL_NEW_FILE);
    for c in "a.txt".chars() {
        s.push_modal_char(c);
    }
    assert_eq!(
        execute_modal_action(&mut s),
        ModalRequest::CreateFile(b"/a.txt".to_vec())
    );
}

#[test]
fn submitting_empty_input_does_nothing() {
    let mut s = FileManagerState::new();
    s.open_modal(MODAL_NEW_FOLDER);
    assert_eq!(execute_modal_action(&mut s), ModalRequest::Nothing);
    assert_eq!(s.modal_mode, MODAL_NONE);
}

#[test]
fn submitting_delete_clears_selection() {
    let mut s = at("/data");
    s.selected_index = 2;
    s.open_modal(MODAL_CONFIRM_DELETE);
    let req = execute_modal_action(&mut s);
    assert_eq!(
        req,
        ModalRequest::DeleteEntry { dir: b"/data".to_vec(), index: 2 }
    );
    assert_eq!(s.selected_index, -1);
    let mut t = FileManagerState::new();
    t.open_modal(MODAL_CONFIRM_DELETE);
    assert_eq!(execute_modal_action(&mut t), ModalRequest::Nothing);
}

#[test]
fn delete_target_picks_the_listed_entry() {
    let listing = b"bin/\r\nnotes.txt\nlogs/\n";
    assert_eq!(delete_target(b"/", listing, 0), Some(b"/bin".to_vec()));
    assert_eq!(delete_target(b"/home", listing, 1), Some(b"/home/notes.txt".to_vec()));
    assert_eq!(delete_target(b"/home", listing, 2), Some(b"/home/logs".to_vec()));
    assert_eq!(delete_target(b"/home", listing, 3), None);
    assert_eq!(delete_target(b"/home", listing, -1), None);
    assert_eq!(delete_target(b"/home", &[0xFF, b'\n'], 0), None);
}

#[test]
fn keys_edit_the_modal_input() {
    let mut s = FileManagerState::new();
    s.open_modal(MODAL_NEW_FOLDER);
    for k in [b'a' as u32, b' ' as u32, b'-' as u32, 0x7F, 0x1002] {
        assert_eq!(handle_file_manager_key(&mut s, k), ModalRequest::Nothing);
    }
    assert_eq!(input_of(&s), "a -");
    handle_file_manager_key(&mut s, KEY_BACKSPACE);
    assert_eq!(input_of(&s), "a ");
    handle_file_manager_key(&mut s, 8);
    assert_eq!(input_of(&s), "a");
    let req = handle_file_manager_key(&mut s, KEY_ENTER);
    assert_eq!(req, ModalRequest::MakeDir(b"/a".to_vec()));
    assert_eq!(s.modal_mode, MODAL_NONE);
}

#[test]
fn escape_cancels_the_modal() {
    let mut s = FileManagerState::new();
    s.open_modal(MODAL_NEW_FILE);
    handle_file_manager_key(&mut s, b'q' as u32);
    assert_eq!(handle_file_manager_key(&mut s, KEY_ESCAPE), ModalRequest::Nothing);
    assert_eq!(s.modal_mode, MODAL_NONE);
    assert_eq!(s.modal_input_len, 0);
}

#[test]
fn keys_scroll_without_a_modal() {
    let mut s = FileManagerState::new();
    s.total_items = 20;
    handle_file_manager_key(&mut s, KEY_DOWN);
    assert_eq!(s.scroll_offset, 28);
    handle_file_manager_key(&mut s, KEY_PAGE_DOWN);
    assert_eq!(s.scroll_offset, 168);
    handle_file_manager_key(&mut s, KEY_PAGE_DOWN);
    assert_eq!(s.scroll_offset, 308);
    handle_file_manager_key(&mut s, KEY_PAGE_DOWN);
    assert_eq!(s.scroll_offset, 360);
    handle_file_manager_key(&mut s, KEY_UP);
    assert_eq!(s.scroll_offset, 332);
    handle_file_manager_key(&mut s, KEY_PAGE_UP);
    assert_eq!(s.scroll_offset, 192);
    handle_file_manager_key(&mut s, 0x48);
    assert_eq!(s.scroll_offset, 164);
    handle_file_manager_key(&mut s, b'a' as u32);
    assert_eq!(s.scroll_offset, 164);
}

#[test]
fn open_entry_selects_then_enters_directory() {
    let listing = b"bin/\nreadme.md\n";
    let mut s = at("/usr");
    open_entry(&mut s, listing, 0);
    assert_eq!(s.selected_index, 0);
    assert_eq!(path_of(&s), "/usr");
    open_entry(&mut s, listing, 0);
    assert_eq!(path_of(&s), "/usr/bin");
    assert_eq!(s.selected_index, -1);
    open_entry(&mut s, listing, 1);
    assert_eq!(s.selected_index, 1);
    open_entry(&mut s, listing, 1);
    assert_eq!(path_of(&s), "/usr/bin");
    assert_eq!(s.selected_index, 1);
    open_entry(&mut s, listing, 5);
    assert_eq!(s.selected_index, 1);
}

#[test]
fn detect_file_type_by_ending() {
    assert_eq!(detect_file_type("bin/"), "Folder");
    assert_eq!(detect_file_type("main.rs"), "Rust Source Code");
    assert_eq!(detect_file_type("a.txt"), "Text Document");
    assert_eq!(detect_file_type("README.md"), "Text Document");
    assert_eq!(detect_file_type("boot.log"), "System Log File");
    assert_eq!(detect_file_type("x.png"), "Bitmap Image");
    assert_eq!(detect_file_type("x.bmp"), "Bitmap Image");
    assert_eq!(detect_file_type("kernel.elf"), "Executable Binary");
    assert_eq!(detect_file_type("fw.bin"), "Executable Binary");
    assert_eq!(detect_file_type("Cargo.toml"), "Configuration File");
    assert_eq!(detect_file_type("a.json"), "Configuration File");
    assert_eq!(detect_file_type("rs"), "File");
    assert_eq!(detect_file_type(""), "File");
}

#[test]
fn drag_over_listing_scrolls_twice_the_distance() {
    let mut s = FileManagerState::new();
    s.total_items = 30;
    // Window body at (100, 50), 500 x 400: list width 330, view height 294.
    handle_file_manager_mouse_drag(&mut s, -10, 200, 200, 100, 50, 500, 400);
    assert_eq!(s.scroll_offset, 20);
    handle_file_manager_mouse_drag(&mut s, 4, 200, 200, 100, 50, 500, 400);
    assert_eq!(s.scroll_offset, 12);
    handle_file_manager_mouse_drag(&mut s, -10, 200, 60, 100, 50, 500, 400);
    assert_eq!(s.scroll_offset, 12);
}

#[test]
fn toolbar_clicks() {
    let mut s = at("/a/b");
    // Back button.
    assert_eq!(handle_file_manager_click(&mut s, 20, 40, 0, 0, 500, 400), ClickRequest::Nothing);
    assert_eq!(path_of(&s), "/a");
    // View toggle.
    handle_file_manager_click(&mut s, 80, 40, 0, 0, 500, 400);
    assert_eq!(s.view_mode, 1);
    // New folder.
    handle_file_manager_click(&mut s, 500 - 100, 40, 0, 0, 500, 400);
    assert_eq!(s.modal_mode, MODAL_NEW_FOLDER);
    let mut t = at("/x");
    t.selected_index = 1;
    handle_file_manager_click(&mut t, 60, 40, 0, 0, 500, 400);
    assert_eq!(t.selected_index, -1);
    // Delete needs a selection.
    handle_file_manager_click(&mut t, 500 - 20, 40, 0, 0, 500, 400);
    assert_eq!(t.modal_mode, MODAL_NONE);
    t.selected_index = 0;
    handle_file_manager_click(&mut t, 500 - 20, 40, 0, 0, 500, 400);
    assert_eq!(t.modal_mode, MODAL_CONFIRM_DELETE);
    // Root button.
    let mut u = at("/deep/path");
    handle_file_manager_click(&mut u, 40, 60, 0, 0, 500, 400);
    assert_eq!(path_of(&u), "/");
}

#[test]
fn modal_buttons_cancel_and_submit() {
    let mut s = at("/w");
    s.open_modal(MODAL_NEW_FILE);
    s.push_modal_char('f');
    // Window 500 x 400 at (0, 0): dialog at (110, 130).
    let req = handle_file_manager_click(&mut s, 110 + 200, 130 + 100, 0, 0, 500, 400);
    assert_eq!(req, ClickRequest::Modal(ModalRequest::CreateFile(b"/w/f".to_vec())));
    assert_eq!(s.modal_mode, MODAL_NONE);
    s.open_modal(MODAL_NEW_FOLDER);
    let req = handle_file_manager_click(&mut s, 110 + 120, 130 + 100, 0, 0, 500, 400);
    assert_eq!(req, ClickRequest::Nothing);
    assert_eq!(s.modal_mode, MODAL_NONE);
    s.open_modal(MODAL_NEW_FOLDER);
    assert_eq!(handle_file_manager_click(&mut s, 5, 5, 0, 0, 500, 400), ClickRequest::Nothing);
    assert_eq!(s.modal_mode, MODAL_NEW_FOLDER);
}

#[test]
fn scrollbar_clicks() {
    let mut s = FileManagerState::new();
    s.total_items = 30;
    // List width 330: scrollbar column 314..=340.
    handle_file_manager_click(&mut s, 320, 400 - 40, 0, 0, 500, 400);
    assert_eq!(s.scroll_offset, 28);
    handle_file_manager_click(&mut s, 320, 80, 0, 0, 500, 400);
    assert_eq!(s.scroll_offset, 0);
    let req = handle_file_manager_click(&mut s, 320, 150, 0, 0, 500, 400);
    assert_eq!(
        req,
        ClickRequest::ScrollTrack { track_rel_y: 56, track_h: 258, max_scroll: 546 }
    );
    set_track_scroll(&mut s, 1000, 546);
    assert_eq!(s.scroll_offset, 546);
    set_track_scroll(&mut s, -3, 546);
    assert_eq!(s.scroll_offset, 0);
}

#[test]
fn item_clicks_in_list_and_grid() {
    let mut s = at("/home");
    let req = handle_file_manager_click(&mut s, 50, 76 + 28 * 2 + 5, 0, 0, 500, 400);
    assert_eq!(req, ClickRequest::OpenEntry { dir: b"/home".to_vec(), index: 2 });
    s.view_mode = 1;
    // Grid: 4 columns in a 330-pixel list; card column 1, row 1.
    let req = handle_file_manager_click(&mut s, 16 + 74 + 10, 76 + 70 + 10, 0, 0, 500, 400);
    assert_eq!(req, ClickRequest::OpenEntry { dir: b"/home".to_vec(), index: 5 });
    let req = handle_file_manager_click(&mut s, 16 + 74 * 4 + 1, 100, 0, 0, 500, 400);
    assert_eq!(req, ClickRequest::Nothing);
}

#[test]
fn scroll_down_then_up_returns() {
    let mut s = FileManagerState::new();
    s.total_items = 10;
    s.scroll_offset = 20;
    s.scroll_down(30, 200, 200);
    assert_eq!(s.scroll_offset, 50);
    s.scroll_up(30);
    assert_eq!(s.scroll_offset, 20);
}
