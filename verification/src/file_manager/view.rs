//! What the file manager window shows: its layout, the row or card of every
//! directory entry, the selected entry, the preview of a file, the status
//! bar and the modal dialog's texts. Drawing them is left to the caller.
use vstd::prelude::*;
use vstd::utf8::valid_utf8;
use vstd::string::StringSliceAdditionalSpecFns;
use crate::strings::{
    SLASH, lines, line_spans, trim_trailing_slashes, str_from_utf8, trimmed_len, bytes_to_vec,
    extend_bytes,
};
use crate::file_manager::state::{
    FileManagerState, trunc_div, grid_columns, div_i32, has_suffix, MODAL_NEW_FOLDER,
    MODAL_NEW_FILE, MODAL_CONFIRM_DELETE,
};
use crate::file_manager::input::{
    clicked_index, grid_row_start, list_width_of, in_toolbar_row, toolbar_button,
};
use crate::radiation::{decimal, ecc_number_text};

verus! {

/// The first `n` bytes of `s`, or all of it when it is shorter.
pub open spec fn prefix(s: Seq<u8>, n: int) -> Seq<u8> {
    if s.len() <= n {
        s
    } else {
        s.subrange(0, n)
    }
}

/// The first `n` bytes of `s`, or all of it when it is shorter.
pub fn take_prefix(s: &[u8], n: usize) -> (v: Vec<u8>)
    ensures
        v@ == prefix(s@, n as int),
{
    let end = if s.len() <= n { s.len() } else { n };
    let v = bytes_to_vec(&s[0..end]);
    assert(s@.subrange(0, end as int) =~= prefix(s@, n as int));
    v
}

/// Horizontal layout of a file manager window `win_width` pixels wide: the
/// listing's width, where the preview drawer starts, and its width.
#[derive(Clone, Copy, Debug, PartialEq, Eq)]
pub struct FmLayout {
    /// Width of the item listing: all but 170 pixels, at least 180.
    pub list_width: i32,
    /// Left edge of the preview drawer, from the window body's left edge.
    pub preview_x: i32,
    /// Width of the preview drawer: what is left past the listing, at least 120.
    pub preview_width: i32,
}

/// The file manager layout for a window `win_width` pixels wide (taken as
/// an `i32`, as the window's width is everywhere).
pub fn fm_layout(win_width: usize) -> (l: FmLayout)
    requires
        win_width as i32 >= i32::MIN + 210,
    ensures
        l.list_width == list_width_of(win_width as i32 as int),
        l.preview_x == l.list_width + 18,
        l.preview_width == (if win_width as i32 - (l.list_width + 30) >= 120 {
            win_width as i32 - (l.list_width + 30)
        } else {
            120
        }),
{
    let ww = win_width as i32;
    let list_width = if ww - 170 >= 180 { ww - 170 } else { 180 };
    let rest = ww - (list_width + 30);
    FmLayout {
        list_width,
        preview_x: list_width + 18,
        preview_width: if rest >= 120 { rest } else { 120 },
    }
}

/// Whether the window-relative point `(rx, ry)` is over the listing's items.
pub open spec fn in_item_area(rx: int, ry: int, lw: int, wh: int) -> bool {
    rx >= 12 && rx < lw - 16 && ry >= 76 && ry < wh - 30
}

/// The entry under the window-relative point `(rx, ry)`, or -1: the row in
/// list view, the card in grid view.
pub open spec fn hovered_at(view_mode: u32, scroll: int, rx: int, ry: int, lw: int, wh: int) -> int {
    if in_item_area(rx, ry, lw, wh) {
        clicked_index(view_mode, scroll, rx, ry, lw)
    } else {
        -1
    }
}

/// The values that laying out a listing of `n` entries computes with stay
/// within `i32`: the window's size, the row under the cursor `(rx, ry)`, and
/// the top and bottom edge of every row or card.
pub open spec fn listing_fits(s: FileManagerState, n: int, rx: int, ry: int, ww: int, wh: int) -> bool {
    let lw = list_width_of(ww);
    &&& ww >= i32::MIN + 170
    &&& wh >= i32::MIN + 30
    &&& in_item_area(rx, ry, lw, wh) ==> ry - 76 + s.scroll_offset <= i32::MAX
    &&& in_item_area(rx, ry, lw, wh) ==> grid_index_fits(s.view_mode, s.scroll_offset as int, rx, ry, lw)
    &&& s.view_mode == 0 ==> 102 + 28 * n - s.scroll_offset <= i32::MAX
    &&& s.view_mode != 0 ==> 138 + 70 * n - s.scroll_offset <= i32::MAX
}

/// In grid view, the card index under the cursor computes within `i32`.
pub open spec fn grid_index_fits(view_mode: u32, scroll: int, rx: int, ry: int, lw: int) -> bool {
    view_mode != 0 ==> {
        &&& i32::MIN <= grid_row_start(scroll, ry, lw) <= i32::MAX
        &&& i32::MIN <= clicked_index(view_mode, scroll, rx, ry, lw) <= i32::MAX
    }
}

/// The entry under the cursor (see `hovered_at`).
pub fn hovered_entry(view_mode: u32, scroll: i32, rx: i32, ry: i32, lw: i32, wh: i32) -> (h: i32)
    requires
        180 <= lw,
        wh >= i32::MIN + 30,
        in_item_area(rx as int, ry as int, lw as int, wh as int) ==> ry - 76 + scroll <= i32::MAX,
        in_item_area(rx as int, ry as int, lw as int, wh as int) ==> grid_index_fits(
            view_mode,
            scroll as int,
            rx as int,
            ry as int,
            lw as int,
        ),
    ensures
        h == hovered_at(view_mode, scroll as int, rx as int, ry as int, lw as int, wh as int),
{
    if !(rx >= 12 && rx < lw - 16 && ry >= 76 && ry < wh - 30) {
        return -1;
    }
    if view_mode == 0 {
        div_i32(ry - 76 + scroll, 28)
    } else {
        let c0 = div_i32(lw - 24, 74);
        let cols = if c0 >= 1 { c0 } else { 1 };
        let c = div_i32(rx - 16, 74);
        let r = div_i32(ry - 76 + scroll, 70);
        if c >= 0 && c < cols {
            r * cols + c
        } else {
            -1
        }
    }
}

/// How an entry's row or card is highlighted.
#[derive(Clone, Copy, Debug, PartialEq, Eq)]
pub enum RowMark {
    /// The entry is selected.
    Selected,
    /// The cursor is over the entry.
    Hovered,
    /// Neither.
    Plain,
}

/// An entry of the listing as shown: a row in list view, a card in grid view.
#[derive(Clone, Debug, PartialEq, Eq)]
pub struct RowView {
    /// Position of the entry in the listing.
    pub index: usize,
    /// Left edge of the row's highlight or of the card, from the window body's left edge.
    pub x: i32,
    /// Top edge, from the window body's top edge.
    pub y: i32,
    /// Whether it lies inside the listing's view and is drawn.
    pub visible: bool,
    /// Its highlight.
    pub mark: RowMark,
    /// Whether the entry names a directory (ends with `/`).
    pub is_dir: bool,
    /// The text shown for it.
    pub label: Vec<u8>,
}

/// Left edge of entry `i`'s row (list view) or card (grid view, `cols` per row).
pub open spec fn row_x(view_mode: u32, i: int, cols: int) -> int {
    if view_mode == 0 {
        12
    } else {
        16 + (i % cols) * 74
    }
}

/// Top edge of entry `i`'s row or card: rows 28 pixels apart from 76, cards
/// 70 apart from 78, both moved up by the scroll offset.
pub open spec fn row_y(view_mode: u32, i: int, cols: int, scroll: int) -> int {
    if view_mode == 0 {
        76 - scroll + 28 * i
    } else {
        78 + (i / cols) * 70 - scroll
    }
}

/// Whether a row (26 high) or card (60 high) at `y` lies within the view of a
/// window `wh` high: from 76 down to 30 pixels above the bottom.
pub open spec fn row_visible(view_mode: u32, y: int, wh: int) -> bool {
    y >= 76 && y + (if view_mode == 0 {
        26int
    } else {
        60int
    }) <= wh - 30
}

/// The highlight of entry `i`.
pub open spec fn row_mark(i: int, selected: int, hovered: int) -> RowMark {
    if selected == i {
        RowMark::Selected
    } else if hovered == i {
        RowMark::Hovered
    } else {
        RowMark::Plain
    }
}

/// The text shown for entry `e`: in list view its first 14 bytes, a
/// directory's `/` dropped first; in grid view the first 7 bytes of the name
/// without trailing slashes.
pub open spec fn row_label(e: Seq<u8>, view_mode: u32) -> Seq<u8> {
    if view_mode == 0 {
        if has_suffix(e, seq![SLASH]) {
            prefix(e.drop_last(), 14)
        } else {
            prefix(e, 14)
        }
    } else {
        prefix(trim_trailing_slashes(e), 7)
    }
}

/// Whether `rows` shows the entries `es` of a listing, for the view mode,
/// scroll offset and selection of `s`, the entry `hovered` under the cursor,
/// `cols` cards per row and a window `wh` high.
pub open spec fn rows_show(
    rows: Seq<RowView>,
    es: Seq<Seq<u8>>,
    s: FileManagerState,
    hovered: int,
    cols: int,
    wh: int,
) -> bool {
    &&& rows.len() == es.len()
    &&& forall|i: int|
        0 <= i < rows.len() ==> {
            let r = #[trigger] rows[i];
            &&& r.index == i
            &&& r.x == row_x(s.view_mode, i, cols)
            &&& r.y == row_y(s.view_mode, i, cols, s.scroll_offset as int)
            &&& r.visible == row_visible(s.view_mode, r.y as int, wh)
            &&& r.mark == row_mark(i, s.selected_index as int, hovered)
            &&& r.is_dir == has_suffix(es[i], seq![SLASH])
            &&& r.label@ == row_label(es[i], s.view_mode)
        }
}

/// Whether `b` ends with `/`.
fn ends_with_slash(b: &[u8]) -> (r: bool)
    ensures
        r == has_suffix(b@, seq![SLASH]),
{
    if b.len() == 0 {
        return false;
    }
    let r = b[b.len() - 1] == SLASH;
    proof {
        let tail = b@.subrange(b@.len() - 1, b@.len() as int);
        if r {
            assert(tail =~= seq![SLASH]);
        } else {
            assert(tail[0] != seq![SLASH][0]);
        }
    }
    r
}

/// Reads the directory listing `listing` (one entry per line) for display:
/// records how many entries it has and which one is under the window-relative
/// cursor `(rx, ry)`, and returns every entry's row or card (see `rows_show`).
/// A listing that is not valid UTF-8 changes nothing and gives `None`.
pub fn listing_rows(
    state: &mut FileManagerState,
    listing: &[u8],
    rx: i32,
    ry: i32,
    win_width: usize,
    win_height: usize,
) -> (r: Option<Vec<RowView>>)
    requires
        listing@.len() <= 1024,
        listing_fits(
            *old(state),
            lines(listing@).len() as int,
            rx as int,
            ry as int,
            win_width as i32 as int,
            win_height as i32 as int,
        ),
    ensures
        r is Some == valid_utf8(listing@),
        r is None ==> *final(state) == *old(state),
        r matches Some(rows) ==> {
            let es = lines(listing@);
            let lw = list_width_of(win_width as i32 as int);
            let h = hovered_at(
                old(state).view_mode,
                old(state).scroll_offset as int,
                rx as int,
                ry as int,
                lw,
                win_height as i32 as int,
            );
            &&& *final(state) == (FileManagerState {
                total_items: es.len() as u32,
                hovered_index: h as i32,
                ..*old(state)
            })
            &&& rows_show(rows@, es, *old(state), h, grid_columns(lw), win_height as i32 as int)
        },
{
    if str_from_utf8(listing).is_none() {
        return None;
    }
    let spans = line_spans(listing);
    let ghost es = lines(listing@);
    proof {
        crate::strings::lemma_lines_len_bound(listing@);
    }
    let total = spans.len();
    state.total_items = total as u32;
    let ww = win_width as i32;
    let lw = if ww - 170 >= 180 { ww - 170 } else { 180 };
    let wh = win_height as i32;
    let view_mode = state.view_mode;
    let scroll = state.scroll_offset;
    let hovered = hovered_entry(view_mode, scroll, rx, ry, lw, wh);
    state.hovered_index = hovered;
    let c0 = div_i32(lw - 24, 74);
    let cols = if c0 >= 1 { c0 } else { 1 };
    let selected = state.selected_index;
    let mut rows: Vec<RowView> = Vec::new();
    let mut i: usize = 0;
    while i < total
        invariant
            i <= total,
            total == spans@.len(),
            total == es.len(),
            total <= 1024,
            es == lines(listing@),
            1 <= cols,
            cols == grid_columns(lw as int),
            view_mode == 0 ==> 102 + 28 * total - scroll <= i32::MAX,
            view_mode != 0 ==> 138 + 70 * total - scroll <= i32::MAX,
            wh >= i32::MIN + 30,
            forall|k: int|
                0 <= k < spans@.len() ==> (#[trigger] spans@[k]).0 <= spans@[k].1 <= listing@.len()
                    && listing@.subrange(spans@[k].0 as int, spans@[k].1 as int) == es[k],
            rows_show(
                rows@,
                es.subrange(0, i as int),
                FileManagerState { view_mode, scroll_offset: scroll, selected_index: selected, ..*state },
                hovered as int,
                cols as int,
                wh as int,
            ),
        decreases total - i,
    {
        let (start, end) = spans[i];
        let entry = &listing[start..end];
        assert(entry@ == es[i as int]);
        let is_dir = ends_with_slash(entry);
        let idx = i as i32;
        let (x, y) = if view_mode == 0 {
            (12, 76 - scroll + 28 * idx)
        } else {
            (16 + (idx % cols) * 74, 78 + (idx / cols) * 70 - scroll)
        };
        let visible = y >= 76 && y + (if view_mode == 0 { 26 } else { 60 }) <= wh - 30;
        let mark = if selected == idx {
            RowMark::Selected
        } else if hovered == idx {
            RowMark::Hovered
        } else {
            RowMark::Plain
        };
        let label = if view_mode == 0 {
            if is_dir {
                take_prefix(&entry[0..entry.len() - 1], 14)
            } else {
                take_prefix(entry, 14)
            }
        } else {
            let n = trimmed_len(entry);
            take_prefix(&entry[0..n], 7)
        };
        proof {
            if view_mode == 0 && is_dir {
                assert(entry@.subrange(0, entry@.len() - 1) =~= entry@.drop_last());
            }
        }
        rows.push(RowView { index: i, x, y, visible, mark, is_dir, label });
        proof {
            assert(es.subrange(0, i + 1).len() == i + 1);
            assert forall|k: int| 0 <= k < i + 1 implies es.subrange(0, i + 1)[k] == es[k] by {}
        }
        i = i + 1;
    }
    assert(es.subrange(0, total as int) =~= es);
    Some(rows)
}

/// The selected entry as the preview and the status bar use it: its first 64
/// bytes and whether it names a directory; `None` when the listing is not
/// valid UTF-8 or has no entry `selected`.
pub open spec fn selection_of(listing: Seq<u8>, selected: int) -> Option<(Seq<u8>, bool)> {
    if valid_utf8(listing) && 0 <= selected < lines(listing).len() {
        let e = lines(listing)[selected];
        Some((prefix(e, 64), has_suffix(e, seq![SLASH])))
    } else {
        None
    }
}

/// The selected entry of the listing (see `selection_of`).
pub fn selected_entry(listing: &[u8], selected: i32) -> (r: Option<(Vec<u8>, bool)>)
    ensures
        match r {
            Some(p) => selection_of(listing@, selected as int) == Some((p.0@, p.1)),
            None => selection_of(listing@, selected as int) is None,
        },
{
    if selected < 0 || str_from_utf8(listing).is_none() {
        return None;
    }
    match crate::strings::nth_line(listing, selected as usize) {
        Some((start, end)) => {
            let entry = &listing[start..end];
            Some((take_prefix(entry, 64), ends_with_slash(entry)))
        },
        None => None,
    }
}

/// The path shown in the toolbar: `Path: ` and the first 14 bytes of `path`.
pub open spec fn path_label_of(path: Seq<u8>) -> Seq<u8> {
    "Path: ".spec_bytes() + prefix(path, 14)
}

/// The path shown in the toolbar (see `path_label_of`).
pub fn path_label(path: &[u8]) -> (v: Vec<u8>)
    ensures
        v@ == path_label_of(path@),
{
    let mut v = bytes_to_vec("Path: ".as_bytes());
    let p = take_prefix(path, 14);
    extend_bytes(&mut v, p.as_slice());
    v
}

/// The status bar text: the item count, and with a selected name `sel`
/// (non-empty, valid UTF-8) `| Sel: ` and its first 10 bytes without
/// trailing slashes.
pub open spec fn status_of(total: u64, sel: Seq<u8>) -> Seq<u8> {
    if sel.len() > 0 && valid_utf8(sel) {
        decimal(total as nat) + " Items | Sel: ".spec_bytes() + prefix(trim_trailing_slashes(sel), 10)
    } else {
        decimal(total as nat) + " Items".spec_bytes()
    }
}

/// The status bar text (see `status_of`); `sel` is empty when nothing is selected.
pub fn status_text(total: u64, sel: &[u8]) -> (v: Vec<u8>)
    ensures
        v@ == status_of(total, sel@),
{
    let mut v = ecc_number_text(total);
    if sel.len() > 0 && str_from_utf8(sel).is_some() {
        extend_bytes(&mut v, " Items | Sel: ".as_bytes());
        let n = trimmed_len(sel);
        let p = take_prefix(&sel[0..n], 10);
        extend_bytes(&mut v, p.as_slice());
    } else {
        extend_bytes(&mut v, " Items".as_bytes());
    }
    v
}

/// The short kind shown in the preview for entry `name`.
pub open spec fn badge_of(name: Seq<u8>) -> &'static str {
    if has_suffix(name, "/".spec_bytes()) {
        "Folder"
    } else if has_suffix(name, ".rs".spec_bytes()) {
        "Rust Source"
    } else if has_suffix(name, ".txt".spec_bytes()) || has_suffix(name, ".md".spec_bytes()) {
        "Text Doc"
    } else if has_suffix(name, ".log".spec_bytes()) {
        "System Log"
    } else {
        "File"
    }
}

/// The short kind shown in the preview: the kind `detect_file_type` gives,
/// shortened, and `File` for the kinds without a short form.
pub fn type_badge(name: &str) -> (t: &'static str)
    ensures
        t == badge_of(name.spec_bytes()),
{
    let n = name.as_bytes();
    if crate::file_manager::state::ends_with(n, "/".as_bytes()) {
        "Folder"
    } else if crate::file_manager::state::ends_with(n, ".rs".as_bytes()) {
        "Rust Source"
    } else if crate::file_manager::state::ends_with(n, ".txt".as_bytes())
        || crate::file_manager::state::ends_with(n, ".md".as_bytes()) {
        "Text Doc"
    } else if crate::file_manager::state::ends_with(n, ".log".as_bytes()) {
        "System Log"
    } else {
        "File"
    }
}

/// How many preview lines fit a window `wh` high: lines 16 pixels apart from
/// 188, each 14 high, ending 32 pixels above the bottom.
pub open spec fn preview_room(wh: int) -> int {
    if wh - 234 < 0 {
        0
    } else {
        (wh - 234) / 16 + 1
    }
}

/// The lines of the file preview for file contents `content` in a window `wh`
/// high: at most 5 lines, as many as fit, each cut to 12 bytes; none when the
/// contents are not valid UTF-8.
pub open spec fn preview_of(content: Seq<u8>, wh: int) -> Seq<Seq<u8>> {
    if !valid_utf8(content) {
        seq![]
    } else {
        let ls = lines(content);
        let n = if ls.len() < 5 {
            ls.len() as int
        } else {
            5
        };
        let m = if n < preview_room(wh) {
            n
        } else {
            preview_room(wh)
        };
        Seq::new(m as nat, |k: int| prefix(ls[k], 12))
    }
}

/// The lines of the file preview (see `preview_of`).
pub fn preview_lines(content: &[u8], win_height: usize) -> (v: Vec<Vec<u8>>)
    requires
        win_height as i32 >= i32::MIN + 32,
    ensures
        v@.len() == preview_of(content@, win_height as i32 as int).len(),
        forall|k: int| 0 <= k < v@.len() ==> (#[trigger] v@[k])@ == preview_of(content@, win_height as i32 as int)[k],
{
    let mut v: Vec<Vec<u8>> = Vec::new();
    if str_from_utf8(content).is_none() {
        return v;
    }
    let spans = line_spans(content);
    let wh = win_height as i32;
    let ghost want = preview_of(content@, wh as int);
    let mut text_y: i32 = 188;
    let mut k: usize = 0;
    while k < spans.len() && k < 5
        invariant
            k <= 5,
            k <= spans@.len(),
            spans@.len() == lines(content@).len(),
            valid_utf8(content@),
            want == preview_of(content@, wh as int),
            wh >= i32::MIN + 32,
            text_y == 188 + 16 * k,
            k <= preview_room(wh as int),
            forall|j: int|
                0 <= j < spans@.len() ==> (#[trigger] spans@[j]).0 <= spans@[j].1 <= content@.len()
                    && content@.subrange(spans@[j].0 as int, spans@[j].1 as int) == lines(content@)[j],
            v@.len() == k,
            forall|j: int| 0 <= j < k ==> (#[trigger] v@[j])@ == prefix(lines(content@)[j], 12),
        ensures
            v@.len() == k,
            forall|j: int| 0 <= j < k ==> (#[trigger] v@[j])@ == prefix(lines(content@)[j], 12),
            k == (if (if spans@.len() < 5 { spans@.len() as int } else { 5 }) < preview_room(wh as int) {
                if spans@.len() < 5 { spans@.len() as int } else { 5 }
            } else {
                preview_room(wh as int)
            }),
        decreases 5 - k,
    {
        if text_y + 14 > wh - 32 {
            break;
        }
        let (start, end) = spans[k];
        let line = take_prefix(&content[start..end], 12);
        v.push(line);
        text_y = text_y + 16;
        k = k + 1;
    }
    proof {
        assert(v@.len() == want.len());
        assert forall|j: int| 0 <= j < v@.len() implies (#[trigger] v@[j])@ == want[j] by {}
    }
    v
}

/// The title of modal dialog `mode`.
pub open spec fn modal_title_of(mode: u32) -> &'static str {
    if mode == MODAL_NEW_FOLDER {
        "Create New Folder"
    } else if mode == MODAL_NEW_FILE {
        "Create New File"
    } else if mode == MODAL_CONFIRM_DELETE {
        "Delete Selected Item?"
    } else {
        "Dialog"
    }
}

/// The title of modal dialog `mode` (see `modal_title_of`).
pub fn modal_title(mode: u32) -> (t: &'static str)
    ensures
        t == modal_title_of(mode),
{
    if mode == MODAL_NEW_FOLDER {
        "Create New Folder"
    } else if mode == MODAL_NEW_FILE {
        "Create New File"
    } else if mode == MODAL_CONFIRM_DELETE {
        "Delete Selected Item?"
    } else {
        "Dialog"
    }
}

/// The hint shown in the empty text box of a new-folder (1) or new-file dialog.
pub fn modal_placeholder(mode: u32) -> (t: &'static str)
    ensures
        t == (if mode == MODAL_NEW_FOLDER {
            "Enter folder name..."
        } else {
            "Enter file name..."
        }),
{
    if mode == MODAL_NEW_FOLDER {
        "Enter folder name..."
    } else {
        "Enter file name..."
    }
}

/// The label of the dialog's action button: `Confirm` for a deletion, else `Create`.
pub fn modal_action_label(mode: u32) -> (t: &'static str)
    ensures
        t == (if mode == MODAL_CONFIRM_DELETE {
            "Confirm"
        } else {
            "Create"
        }),
{
    if mode == MODAL_CONFIRM_DELETE {
        "Confirm"
    } else {
        "Create"
    }
}

/// The toolbar button under the window-relative cursor (see `toolbar_button`),
/// 0 off the toolbar row.
pub fn hovered_toolbar_button(rx: i32, ry: i32, win_width: usize) -> (b: u32)
    requires
        win_width as i32 >= i32::MIN + 134,
    ensures
        b == (if in_toolbar_row(ry as int) {
            toolbar_button(rx as int, win_width as i32 as int)
        } else {
            0
        }),
{
    let ww = win_width as i32;
    if !(ry >= 38 && ry <= 68) {
        0
    } else if rx >= 14 && rx <= 30 {
        1
    } else if rx >= 34 && rx <= 50 {
        2
    } else if rx >= 54 && rx <= 70 {
        3
    } else if rx >= 74 && rx <= 98 {
        4
    } else if rx >= ww - 134 && rx <= ww - 88 {
        5
    } else if rx >= ww - 84 && rx <= ww - 42 {
        6
    } else if rx >= ww - 38 && rx <= ww - 14 {
        7
    } else {
        0
    }
}

/// Whether the window-relative cursor is over the scrollbar's up arrow and
/// over its down arrow, for a listing `lw` wide in a window `wh` high.
pub fn scroll_arrow_hover(rx: i32, ry: i32, lw: i32, wh: i32) -> (h: (bool, bool))
    requires
        lw >= i32::MIN + 14,
        wh >= i32::MIN + 46,
    ensures
        h.0 == (lw - 14 <= rx <= lw && 76 <= ry <= 92),
        h.1 == (lw - 14 <= rx <= lw && wh - 46 <= ry <= wh - 30),
{
    let on_column = rx >= lw - 14 && rx <= lw;
    (on_column && ry >= 76 && ry <= 92, on_column && ry >= wh - 46 && ry <= wh - 30)
}

} // verus!
