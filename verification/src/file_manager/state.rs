//! File manager state: the active directory path, selection and hover indices,
//! list or grid view, scroll position, item count and the modal dialog with its
//! text input.
use vstd::prelude::*;
use vstd::utf8::valid_utf8;
use vstd::string::StringSliceAdditionalSpecFns;
use crate::strings::{
    SLASH, root_path, trim_trailing_slashes, last_slash, join_path, str_from_utf8, trimmed_len,
    rfind_slash, join, is_root, bytes_to_vec, nth_line, lines,
};

verus! {

/// Capacity of the path buffer in bytes.
pub const PATH_CAPACITY: usize = 256;

/// Capacity of the modal text input in bytes.
pub const MODAL_INPUT_CAPACITY: usize = 64;

/// Height of one row in list view, in pixels.
pub const LIST_ROW_HEIGHT: i32 = 28;

/// Horizontal pitch of one card in grid view (card plus gap), in pixels.
pub const GRID_CELL_PITCH_X: i32 = 74;

/// Vertical pitch of one card row in grid view (card plus gap), in pixels.
pub const GRID_ROW_PITCH: i32 = 70;

/// Modal dialog: none open.
pub const MODAL_NONE: u32 = 0;

/// Modal dialog: create a folder.
pub const MODAL_NEW_FOLDER: u32 = 1;

/// Modal dialog: create a file.
pub const MODAL_NEW_FILE: u32 = 2;

/// Modal dialog: confirm deleting the selected item.
pub const MODAL_CONFIRM_DELETE: u32 = 3;

/// The state of the file manager window.
pub struct FileManagerState {
    /// Bytes of the active directory path; the first `path_len` are in use.
    pub path_buf: [u8; 256],
    /// Length of the active directory path.
    pub path_len: u32,
    /// Selected item index, -1 for none.
    pub selected_index: i32,
    /// Item index under the mouse cursor, -1 for none.
    pub hovered_index: i32,
    /// Open modal dialog (0 none, 1 new folder, 2 new file, 3 confirm delete).
    pub modal_mode: u32,
    /// Bytes typed into the modal dialog; the first `modal_input_len` are in use.
    pub modal_input_buf: [u8; 64],
    /// Length of the modal text input.
    pub modal_input_len: u32,
    /// View mode (0 list, 1 grid).
    pub view_mode: u32,
    /// Vertical scroll offset of the item listing, in pixels.
    pub scroll_offset: i32,
    /// Number of items in the active directory.
    pub total_items: u32,
    /// Whether the scrollbar thumb is being dragged (nonzero when it is).
    pub is_dragging_scrollbar: u32,
}

/// The path shown for the stored path bytes `p`: `p` itself when it is valid
/// UTF-8, else the root path.
pub open spec fn shown_path(p: Seq<u8>) -> Seq<u8> {
    if valid_utf8(p) {
        p
    } else {
        root_path()
    }
}

/// The modal text shown for the stored input bytes `p`: `p` itself when it is
/// valid UTF-8, else empty.
pub open spec fn shown_input(p: Seq<u8>) -> Seq<u8> {
    if valid_utf8(p) {
        p
    } else {
        Seq::empty()
    }
}

/// What the path buffer holds after storing `p`: its first 256 bytes.
pub open spec fn stored_path(p: Seq<u8>) -> Seq<u8> {
    if p.len() <= 256 {
        p
    } else {
        p.subrange(0, 256)
    }
}

/// The path reached by entering the directory `name` from the shown path `cur`.
pub open spec fn pushed_path(cur: Seq<u8>, name: Seq<u8>) -> Seq<u8> {
    stored_path(pushed_path_unstored(cur, name))
}

/// The joined path before it is cut to the buffer size.
pub open spec fn pushed_path_unstored(cur: Seq<u8>, name: Seq<u8>) -> Seq<u8> {
    join_path(cur, trim_trailing_slashes(name))
}

/// The path of the parent of the shown path `cur`, or `None` when `cur` is the root.
pub open spec fn parent_path(cur: Seq<u8>) -> Option<Seq<u8>> {
    if cur == root_path() {
        None
    } else {
        match last_slash(cur) {
            Some(i) => if i == 0 {
                Some(root_path())
            } else {
                Some(cur.subrange(0, i))
            },
            None => Some(root_path()),
        }
    }
}

/// Rust's `/` on `i32` values for a positive divisor: rounds toward zero.
pub open spec fn trunc_div(a: int, b: int) -> int {
    if a >= 0 {
        a / b
    } else {
        -((-a) / b)
    }
}

/// Number of card columns in grid view for a list of width `list_width`.
pub open spec fn grid_columns(list_width: int) -> int {
    let c = trunc_div(list_width - 24, GRID_CELL_PITCH_X as int);
    if c >= 1 {
        c
    } else {
        1
    }
}

/// Height in pixels of the whole item listing.
pub open spec fn listing_height(total: int, view_mode: u32, list_width: int) -> int {
    if view_mode == 0 {
        total * 28
    } else {
        let cols = grid_columns(list_width);
        trunc_div(total + cols - 1, cols) * 70
    }
}

/// Whether computing the listing height and the scroll limit stays within `i32`.
pub open spec fn scroll_limit_fits(total: int, view_mode: u32, container_h: int, list_width: int) -> bool {
    &&& i32::MIN <= total * 28 <= i32::MAX || view_mode != 0
    &&& (view_mode != 0 ==> {
        &&& i32::MIN <= list_width - 24
        &&& total + grid_columns(list_width) <= i32::MAX
        &&& i32::MIN <= trunc_div(total + grid_columns(list_width) - 1, grid_columns(list_width))
            * 70 <= i32::MAX
    })
    &&& i32::MIN <= listing_height(total, view_mode, list_width) - container_h <= i32::MAX
}

/// Largest scroll offset: the part of the listing that does not fit the view, or 0.
pub open spec fn max_scroll(total: int, view_mode: u32, container_h: int, list_width: int) -> int {
    let over = listing_height(total, view_mode, list_width) - container_h;
    if over >= 0 {
        over
    } else {
        0
    }
}

/// Scroll offset after scrolling down by `delta` with limit `m`: at most `m`, at least 0.
pub open spec fn scrolled_down(offset: int, delta: int, m: int) -> int {
    let t = if offset + delta <= m {
        offset + delta
    } else {
        m
    };
    if t >= 0 {
        t
    } else {
        0
    }
}

/// Scroll offset after scrolling up by `delta`: at least 0.
pub open spec fn scrolled_up(offset: int, delta: int) -> int {
    if offset - delta >= 0 {
        offset - delta
    } else {
        0
    }
}

proof fn lemma_trunc_div_bounds(a: int, b: int)
    requires
        b > 0,
    ensures
        a >= 0 ==> 0 <= trunc_div(a, b) <= a,
        a < 0 ==> a <= trunc_div(a, b) <= 0,
{
    if a >= 0 {
        assert(a / b <= a) by (nonlinear_arith)
            requires
                a >= 0,
                b > 0,
        ;
        assert(a / b >= 0) by (nonlinear_arith)
            requires
                a >= 0,
                b > 0,
        ;
    } else {
        assert((-a) / b <= -a) by (nonlinear_arith)
            requires
                -a > 0,
                b > 0,
        ;
        assert((-a) / b >= 0) by (nonlinear_arith)
            requires
                -a > 0,
                b > 0,
        ;
    }
}

/// Rust's `/` on `i32` for a positive divisor.
pub(crate) fn div_i32(a: i32, b: i32) -> (q: i32)
    requires
        b > 0,
    ensures
        q == trunc_div(a as int, b as int),
{
    proof {
        lemma_trunc_div_bounds(a as int, b as int);
    }
    if a >= 0 {
        a / b
    } else {
        let n: i64 = -(a as i64);
        let q: i64 = n / (b as i64);
        assert(0 <= q <= n) by (nonlinear_arith)
            requires
                q == n / (b as i64),
                n > 0,
                b > 0,
        ;
        let neg: i64 = -q;
        neg as i32
    }
}

impl FileManagerState {
    /// The stored lengths are within the buffers.
    pub open spec fn wf(&self) -> bool {
        &&& self.path_len <= 256
        &&& self.modal_input_len <= 64
    }

    /// The stored directory path bytes.
    pub open spec fn path(&self) -> Seq<u8> {
        self.path_buf@.subrange(0, self.path_len as int)
    }

    /// The stored modal input bytes.
    pub open spec fn modal_input(&self) -> Seq<u8> {
        self.modal_input_buf@.subrange(0, self.modal_input_len as int)
    }

    /// The scroll limit for the current item count and view mode.
    pub open spec fn spec_max_scroll(&self, container_h: int, list_width: int) -> int {
        max_scroll(self.total_items as i32 as int, self.view_mode, container_h, list_width)
    }

    /// Whether the scroll limit for the current item count fits in `i32`.
    pub open spec fn scroll_fits(&self, container_h: int, list_width: int) -> bool {
        scroll_limit_fits(self.total_items as i32 as int, self.view_mode, container_h, list_width)
    }

    /// A state at the root directory `/`, nothing selected or hovered, list
    /// view, no scroll, no items, no modal.
    pub fn new() -> (s: Self)
        ensures
            s.wf(),
            s.path() == root_path(),
            s.selected_index == -1,
            s.hovered_index == -1,
            s.modal_mode == MODAL_NONE,
            s.modal_input_len == 0,
            s.view_mode == 0,
            s.scroll_offset == 0,
            s.total_items == 0,
            s.is_dragging_scrollbar == 0,
    {
        let mut buf = [0u8; 256];
        buf[0] = SLASH;
        let s = FileManagerState {
            path_buf: buf,
            path_len: 1,
            selected_index: -1,
            hovered_index: -1,
            modal_mode: MODAL_NONE,
            modal_input_buf: [0u8; 64],
            modal_input_len: 0,
            view_mode: 0,
            scroll_offset: 0,
            total_items: 0,
            is_dragging_scrollbar: 0,
        };
        assert(s.path() =~= root_path());
        s
    }
}


/// The literal `"/"` holds the bytes of the root path.
proof fn lemma_root_literal()
    ensures
        "/".spec_bytes() == root_path(),
{
    reveal_strlit("/");
    vstd::utf8::is_ascii_chars_encode_utf8("/"@);
    assert("/".spec_bytes() =~= root_path());
}

/// The literal `""` holds no bytes.
proof fn lemma_empty_literal()
    ensures
        "".spec_bytes() == Seq::<u8>::empty(),
{
    reveal_strlit("");
    assert("".spec_bytes() =~= Seq::<u8>::empty());
}

impl FileManagerState {
    /// Copies the active path into `buf` (as much of it as fits) and returns it
    /// as a string slice over `buf`, or `"/"` when the copied bytes are not
    /// valid UTF-8.
    pub fn get_path<'a>(&self, buf: &'a mut [u8]) -> (s: &'a str)
        requires
            self.wf(),
        ensures
            ({
                let limit = if self.path_len <= old(buf)@.len() {
                    self.path_len as int
                } else {
                    old(buf)@.len() as int
                };
                &&& final(buf)@.len() == old(buf)@.len()
                &&& final(buf)@.subrange(0, limit) == self.path().subrange(0, limit)
                &&& final(buf)@.subrange(limit, old(buf)@.len() as int) == old(buf)@.subrange(
                    limit,
                    old(buf)@.len() as int,
                )
                &&& s.spec_bytes() == shown_path(self.path().subrange(0, limit))
            }),
    {
        let len = self.path_len as usize;
        let limit = if len <= buf.len() { len } else { buf.len() };
        let ghost start = buf@;
        let mut i: usize = 0;
        while i < limit
            invariant
                i <= limit,
                limit <= 256,
                limit <= buf@.len(),
                buf@.len() == start.len(),
                limit <= self.path_len,
                forall|k: int| 0 <= k < i ==> buf@[k] == self.path_buf@[k],
                forall|k: int| i <= k < buf@.len() ==> buf@[k] == start[k],
            decreases limit - i,
        {
            buf[i] = self.path_buf[i];
            i = i + 1;
        }
        assert(buf@.subrange(0, limit as int) =~= self.path().subrange(0, limit as int));
        assert(buf@.subrange(limit as int, buf@.len() as int) =~= start.subrange(
            limit as int,
            start.len() as int,
        ));
        let filled: &'a [u8] = buf;
        match str_from_utf8(&filled[0..limit]) {
            Some(s) => s,
            None => {
                proof {
                    lemma_root_literal();
                }
                "/"
            },
        }
    }
}


impl FileManagerState {
    /// The modal dialog, view mode, item count and drag flag are those of `other`.
    pub open spec fn same_except_navigation(&self, other: &Self) -> bool {
        &&& self.modal_mode == other.modal_mode
        &&& self.modal_input_buf == other.modal_input_buf
        &&& self.modal_input_len == other.modal_input_len
        &&& self.view_mode == other.view_mode
        &&& self.total_items == other.total_items
        &&& self.is_dragging_scrollbar == other.is_dragging_scrollbar
    }

    /// The path and the indices are those of `other`.
    pub open spec fn same_location(&self, other: &Self) -> bool {
        &&& self.path_buf == other.path_buf
        &&& self.path_len == other.path_len
        &&& self.selected_index == other.selected_index
        &&& self.hovered_index == other.hovered_index
    }

    /// Every field but the scroll offset is that of `other`.
    pub open spec fn same_except_scroll(&self, other: &Self) -> bool {
        &&& self.same_location(other)
        &&& self.same_except_navigation(other)
    }

    /// Every field but the modal dialog and its input is that of `other`.
    pub open spec fn same_except_modal(&self, other: &Self) -> bool {
        &&& self.same_location(other)
        &&& self.view_mode == other.view_mode
        &&& self.scroll_offset == other.scroll_offset
        &&& self.total_items == other.total_items
        &&& self.is_dragging_scrollbar == other.is_dragging_scrollbar
    }

    /// The state after moving to a stored path: nothing selected or hovered,
    /// scrolled to the top, all else kept.
    pub open spec fn moved_to(&self, old_state: &Self, p: Seq<u8>) -> bool {
        &&& self.wf()
        &&& self.path() == stored_path(p)
        &&& self.selected_index == -1
        &&& self.hovered_index == -1
        &&& self.scroll_offset == 0
        &&& self.same_except_navigation(old_state)
    }

    /// Stores the first 256 bytes of `bytes` as the active path and resets the
    /// selection, hover and scroll.
    fn set_path_bytes(&mut self, bytes: &[u8])
        requires
            old(self).wf(),
        ensures
            final(self).moved_to(old(self), bytes@),
    {
        let limit = if bytes.len() <= PATH_CAPACITY {
            bytes.len()
        } else {
            PATH_CAPACITY
        };
        let mut i: usize = 0;
        while i < limit
            invariant
                i <= limit,
                limit <= 256,
                limit <= bytes@.len(),
                limit == (if bytes@.len() <= 256 { bytes@.len() } else { 256 }),
                forall|k: int| 0 <= k < i ==> self.path_buf@[k] == bytes@[k],
                self.same_except_navigation(old(self)),
            decreases limit - i,
        {
            self.path_buf[i] = bytes[i];
            i = i + 1;
        }
        self.path_len = limit as u32;
        self.selected_index = -1;
        self.hovered_index = -1;
        self.scroll_offset = 0;
        assert(self.path() =~= stored_path(bytes@));
    }

    /// Makes `new_path` (its first 256 bytes) the active path, clearing the
    /// selection and hover and scrolling to the top.
    pub fn set_path(&mut self, new_path: &str)
        requires
            old(self).wf(),
        ensures
            final(self).moved_to(old(self), new_path.spec_bytes()),
    {
        self.set_path_bytes(new_path.as_bytes());
    }

    /// Makes the root `/` the active path, clearing the selection and hover and
    /// scrolling to the top.
    pub(crate) fn set_path_root(&mut self)
        requires
            old(self).wf(),
        ensures
            final(self).moved_to(old(self), root_path()),
    {
        proof {
            lemma_root_literal();
        }
        self.set_path("/");
    }

    /// Enters the child directory `dir_name` (trailing `/` removed) of the
    /// shown path.
    pub fn push_dir(&mut self, dir_name: &str)
        requires
            old(self).wf(),
        ensures
            final(self).moved_to(
                old(self),
                pushed_path_unstored(shown_path(old(self).path()), dir_name.spec_bytes()),
            ),
            final(self).path() == pushed_path(shown_path(old(self).path()), dir_name.spec_bytes()),
    {
        self.push_dir_bytes(dir_name.as_bytes());
    }

    /// Enters the child directory named by the bytes `name` (trailing `/` removed).
    fn push_dir_bytes(&mut self, name: &[u8])
        requires
            old(self).wf(),
        ensures
            final(self).moved_to(old(self), pushed_path_unstored(shown_path(old(self).path()), name@)),
            final(self).path() == pushed_path(shown_path(old(self).path()), name@),
    {
        let mut current_buf = [0u8; 256];
        let current = self.get_path(&mut current_buf);
        assert(self.path().subrange(0, self.path_len as int) == self.path());
        let cur = current.as_bytes();
        let n = trimmed_len(name);
        let joined = join(cur, &name[0..n]);
        self.set_path_bytes(joined.as_slice());
    }

    /// The shown path as a new vector.
    pub(crate) fn shown_path_vec(&self) -> (v: Vec<u8>)
        requires
            self.wf(),
        ensures
            v@ == shown_path(self.path()),
    {
        let mut current_buf = [0u8; 256];
        let current = self.get_path(&mut current_buf);
        assert(self.path().subrange(0, self.path_len as int) == self.path());
        bytes_to_vec(current.as_bytes())
    }

    /// Moves to the parent of the shown path; does nothing at the root.
    pub fn pop_dir(&mut self)
        requires
            old(self).wf(),
        ensures
            match parent_path(shown_path(old(self).path())) {
                Some(p) => final(self).moved_to(old(self), p),
                None => *final(self) == *old(self),
            },
    {
        let mut current_buf = [0u8; 256];
        let current = self.get_path(&mut current_buf);
        assert(self.path().subrange(0, self.path_len as int) == self.path());
        let cur = current.as_bytes();
        if is_root(cur) {
            return;
        }
        match rfind_slash(cur) {
            Some(i) => {
                if i == 0 {
                    proof {
                        lemma_root_literal();
                    }
                    self.set_path_bytes("/".as_bytes());
                } else {
                    self.set_path_bytes(&cur[0..i]);
                }
            },
            None => {
                proof {
                    lemma_root_literal();
                }
                self.set_path_bytes("/".as_bytes());
            },
        }
    }
}


/// The path held after going up from the stored path `path`.
pub open spec fn path_after_pop(path: Seq<u8>) -> Seq<u8> {
    match parent_path(shown_path(path)) {
        Some(q) => stored_path(q),
        None => path,
    }
}

proof fn lemma_root_valid()
    ensures
        valid_utf8(root_path()),
{
    reveal_with_fuel(valid_utf8, 2);
    assert(vstd::utf8::pop_first_scalar(root_path()) =~= Seq::<u8>::empty());
}

proof fn lemma_trim_valid(name: Seq<u8>)
    requires
        valid_utf8(name),
    ensures
        valid_utf8(trim_trailing_slashes(name)),
        trim_trailing_slashes(name).len() <= name.len(),
        trim_trailing_slashes(name) == name.subrange(0, trim_trailing_slashes(name).len() as int),
    decreases name.len(),
{
    if name.len() > 0 && name.last() == SLASH {
        let shorter = name.drop_last();
        let k = (name.len() - 1) as int;
        vstd::utf8::is_char_boundary_iff_not_is_continuation_byte(name, k);
        vstd::utf8::valid_utf8_split(name, k);
        assert(name.subrange(0, k) =~= shorter);
        lemma_trim_valid(shorter);
        assert(shorter.subrange(0, trim_trailing_slashes(shorter).len() as int) =~= name.subrange(
            0,
            trim_trailing_slashes(shorter).len() as int,
        ));
    } else {
        assert(name.subrange(0, name.len() as int) =~= name);
    }
}

proof fn lemma_last_slash_of_join(a: Seq<u8>, t: Seq<u8>)
    requires
        forall|k: int| 0 <= k < t.len() ==> t[k] != SLASH,
    ensures
        last_slash(a + root_path() + t) == Some(a.len() as int),
    decreases t.len(),
{
    let s = a + root_path() + t;
    if t.len() == 0 {
        assert(s.last() == SLASH);
    } else {
        assert(s.drop_last() =~= a + root_path() + t.drop_last());
        lemma_last_slash_of_join(a, t.drop_last());
    }
}

/// Entering a child directory and then going up again returns to the starting
/// directory, when the start is a valid UTF-8 path other than the empty one, the
/// child's name holds no `/` except trailing ones, and the joined path fits the
/// 256-byte path buffer.
pub proof fn law_push_dir_then_pop_dir(p: Seq<u8>, name: Seq<u8>)
    requires
        valid_utf8(p),
        p.len() > 0,
        valid_utf8(name),
        forall|k: int|
            0 <= k < trim_trailing_slashes(name).len() ==> #[trigger] trim_trailing_slashes(name)[k]
                != SLASH,
        pushed_path_unstored(p, name).len() <= 256,
    ensures
        shown_path(p) == p,
        path_after_pop(pushed_path(shown_path(p), name)) == p,
{
    let t = trim_trailing_slashes(name);
    lemma_trim_valid(name);
    lemma_root_valid();
    if p == root_path() {
        let pushed = root_path() + t;
        vstd::utf8::valid_utf8_concat(root_path(), t);
        lemma_last_slash_of_join(Seq::<u8>::empty(), t);
        assert(Seq::<u8>::empty() + root_path() + t =~= pushed);
        if pushed == root_path() {
        } else {
            assert(parent_path(pushed) == Some(root_path()));
        }
    } else {
        let pushed = p + root_path() + t;
        vstd::utf8::valid_utf8_concat(p, root_path());
        vstd::utf8::valid_utf8_concat(p + root_path(), t);
        lemma_last_slash_of_join(p, t);
        if pushed == root_path() {
            assert(pushed.len() == 1);
            assert(false);
        }
        assert(pushed.subrange(0, p.len() as int) =~= p);
    }
}


/// The view mode after the view button: grid (1) from list (0), list from any other.
pub open spec fn toggled_mode(m: u32) -> u32 {
    if m == 0 {
        1
    } else {
        0
    }
}

/// Pressing the view button twice gives back the list or grid view.
pub proof fn law_toggle_view_mode_twice(m: u32)
    requires
        m <= 1,
    ensures
        toggled_mode(toggled_mode(m)) == m,
{
}

/// Scrolling down by `d` and back up by `d` returns to the offset `o` when
/// the way down stays within the scroll limit `m`.
pub proof fn law_scroll_down_then_up(o: int, d: int, m: int)
    requires
        0 <= o,
        0 <= d,
        o + d <= m,
    ensures
        scrolled_up(scrolled_down(o, d, m), d) == o,
{
}

impl FileManagerState {
    /// Switches between list view (0) and grid view (1) and scrolls to the top;
    /// any mode other than 0 switches to list view.
    pub fn toggle_view_mode(&mut self)
        ensures
            final(self).view_mode == toggled_mode(old(self).view_mode),
            final(self).scroll_offset == 0,
            final(self).same_location(old(self)),
            final(self).modal_mode == old(self).modal_mode,
            final(self).modal_input_buf == old(self).modal_input_buf,
            final(self).modal_input_len == old(self).modal_input_len,
            final(self).total_items == old(self).total_items,
            final(self).is_dragging_scrollbar == old(self).is_dragging_scrollbar,
    {
        let new_mode: u32 = if self.view_mode == 0 { 1 } else { 0 };
        self.view_mode = new_mode;
        self.scroll_offset = 0;
    }

    /// The largest scroll offset for a view `container_h` pixels high and a list
    /// `list_width` pixels wide: the listing height beyond the view, or 0. List
    /// rows are 28 pixels high; grid rows 70, with as many 74-pixel columns as
    /// fit `list_width - 24` (at least one).
    pub fn calculate_max_scroll(&self, container_h: i32, list_width: i32) -> (m: i32)
        requires
            self.scroll_fits(container_h as int, list_width as int),
        ensures
            m == self.spec_max_scroll(container_h as int, list_width as int),
            m >= 0,
    {
        let total = self.total_items as i32;
        let max_height = if self.view_mode == 0 {
            total * LIST_ROW_HEIGHT
        } else {
            let c = div_i32(list_width - 24, GRID_CELL_PITCH_X);
            let cols = if c >= 1 { c } else { 1 };
            div_i32(total + cols - 1, cols) * GRID_ROW_PITCH
        };
        let over = max_height - container_h;
        if over >= 0 { over } else { 0 }
    }

    /// Scrolls down by `delta` pixels, keeping the offset within `0..=max_scroll`.
    pub fn scroll_down(&mut self, delta: i32, container_h: i32, list_width: i32)
        requires
            old(self).scroll_fits(container_h as int, list_width as int),
            i32::MIN <= old(self).scroll_offset + delta <= i32::MAX,
        ensures
            final(self).scroll_offset == scrolled_down(
                old(self).scroll_offset as int,
                delta as int,
                old(self).spec_max_scroll(container_h as int, list_width as int),
            ),
            0 <= final(self).scroll_offset <= old(self).spec_max_scroll(
                container_h as int,
                list_width as int,
            ),
            final(self).same_except_scroll(old(self)),
    {
        let max_scroll = self.calculate_max_scroll(container_h, list_width);
        let sum = self.scroll_offset + delta;
        let t = if sum <= max_scroll { sum } else { max_scroll };
        self.scroll_offset = if t >= 0 { t } else { 0 };
    }

    /// Scrolls up by `delta` pixels, not above the top.
    pub fn scroll_up(&mut self, delta: i32)
        requires
            i32::MIN <= old(self).scroll_offset - delta <= i32::MAX,
        ensures
            final(self).scroll_offset == scrolled_up(old(self).scroll_offset as int, delta as int),
            final(self).scroll_offset >= 0,
            final(self).same_except_scroll(old(self)),
    {
        let next = self.scroll_offset - delta;
        self.scroll_offset = if next >= 0 { next } else { 0 };
    }

    /// Opens the modal dialog `mode` with an empty text input.
    pub fn open_modal(&mut self, mode: u32)
        ensures
            final(self).modal_mode == mode,
            final(self).modal_input_len == 0,
            final(self).modal_input_buf == old(self).modal_input_buf,
            final(self).same_except_modal(old(self)),
    {
        self.modal_input_len = 0;
        self.modal_mode = mode;
    }

    /// Closes the modal dialog and empties its text input.
    pub fn close_modal(&mut self)
        ensures
            final(self).modal_mode == MODAL_NONE,
            final(self).modal_input_len == 0,
            final(self).modal_input_buf == old(self).modal_input_buf,
            final(self).same_except_modal(old(self)),
    {
        self.modal_mode = MODAL_NONE;
        self.modal_input_len = 0;
    }

    /// Appends `c` to the modal input when the input holds fewer than 64 bytes
    /// and `c` is at most U+00FF (stored as that single byte); otherwise nothing.
    pub fn push_modal_char(&mut self, c: char)
        requires
            old(self).wf(),
        ensures
            final(self).wf(),
            final(self).modal_mode == old(self).modal_mode,
            final(self).same_except_modal(old(self)),
            (old(self).modal_input_len < 64 && (c as u32) <= 255) ==> final(self).modal_input()
                == old(self).modal_input().push(c as u32 as u8),
            !(old(self).modal_input_len < 64 && (c as u32) <= 255) ==> *final(self) == *old(self),
    {
        let len = self.modal_input_len as usize;
        if len < MODAL_INPUT_CAPACITY {
            let val = c as u32;
            if val <= 255 {
                self.modal_input_buf[len] = val as u8;
                self.modal_input_len = (len + 1) as u32;
                assert(self.modal_input() =~= old(self).modal_input().push(c as u32 as u8));
            }
        }
    }

    /// Removes the last byte of the modal input, if any.
    pub fn pop_modal_char(&mut self)
        requires
            old(self).wf(),
        ensures
            final(self).wf(),
            final(self).modal_mode == old(self).modal_mode,
            final(self).modal_input_buf == old(self).modal_input_buf,
            final(self).same_except_modal(old(self)),
            old(self).modal_input_len > 0 ==> final(self).modal_input() == old(self).modal_input().drop_last(),
            old(self).modal_input_len == 0 ==> *final(self) == *old(self),
    {
        let len = self.modal_input_len as usize;
        if len > 0 {
            self.modal_input_len = (len - 1) as u32;
            assert(self.modal_input() =~= old(self).modal_input().drop_last());
        }
    }

    /// Copies the modal input into `buf` (as much of it as fits) and returns it
    /// as a string slice over `buf`, or `""` when the copied bytes are not valid
    /// UTF-8.
    pub fn get_modal_input<'a>(&self, buf: &'a mut [u8]) -> (s: &'a str)
        requires
            self.wf(),
        ensures
            ({
                let limit = if self.modal_input_len <= old(buf)@.len() {
                    self.modal_input_len as int
                } else {
                    old(buf)@.len() as int
                };
                &&& final(buf)@.len() == old(buf)@.len()
                &&& final(buf)@.subrange(0, limit) == self.modal_input().subrange(0, limit)
                &&& final(buf)@.subrange(limit, old(buf)@.len() as int) == old(buf)@.subrange(
                    limit,
                    old(buf)@.len() as int,
                )
                &&& s.spec_bytes() == shown_input(self.modal_input().subrange(0, limit))
            }),
    {
        let len = self.modal_input_len as usize;
        let limit = if len <= buf.len() { len } else { buf.len() };
        let ghost start = buf@;
        let mut i: usize = 0;
        while i < limit
            invariant
                i <= limit,
                limit <= 64,
                limit <= buf@.len(),
                buf@.len() == start.len(),
                limit <= self.modal_input_len,
                forall|k: int| 0 <= k < i ==> buf@[k] == self.modal_input_buf@[k],
                forall|k: int| i <= k < buf@.len() ==> buf@[k] == start[k],
            decreases limit - i,
        {
            buf[i] = self.modal_input_buf[i];
            i = i + 1;
        }
        assert(buf@.subrange(0, limit as int) =~= self.modal_input().subrange(0, limit as int));
        assert(buf@.subrange(limit as int, buf@.len() as int) =~= start.subrange(
            limit as int,
            start.len() as int,
        ));
        let filled: &'a [u8] = buf;
        match str_from_utf8(&filled[0..limit]) {
            Some(s) => s,
            None => {
                proof {
                    lemma_empty_literal();
                }
                ""
            },
        }
    }
}


/// Outside work that submitting a modal dialog asks for.
#[derive(Debug, PartialEq, Eq)]
pub enum ModalRequest {
    /// Nothing to do.
    Nothing,
    /// Create the directory at this path.
    MakeDir(Vec<u8>),
    /// Create the file at this path and write `NEW_FILE_TEXT` into it.
    CreateFile(Vec<u8>),
    /// Read the listing of the directory `dir` and remove its entry number
    /// `index` (see `delete_target`).
    DeleteEntry { dir: Vec<u8>, index: i32 },
}

/// Text written into a newly created file.
pub const NEW_FILE_TEXT: &'static str = "// New File\n";

/// Whether `req` is the request that submitting the modal dialog of `s` makes:
/// a folder or a file named by the typed text (when it is not empty) inside
/// the shown path, or the deletion of the selected entry (when one is selected).
pub open spec fn is_modal_request_for(req: ModalRequest, s: FileManagerState) -> bool {
    let input = shown_input(s.modal_input());
    let dir = shown_path(s.path());
    if s.modal_mode == MODAL_NEW_FOLDER && input.len() > 0 {
        req matches ModalRequest::MakeDir(p) && p@ == join_path(dir, input)
    } else if s.modal_mode == MODAL_NEW_FILE && input.len() > 0 {
        req matches ModalRequest::CreateFile(p) && p@ == join_path(dir, input)
    } else if s.modal_mode == MODAL_CONFIRM_DELETE && s.selected_index >= 0 {
        req matches ModalRequest::DeleteEntry { dir: d, index } && d@ == dir && index
            == s.selected_index
    } else {
        req is Nothing
    }
}

/// `after` is `before` once its modal dialog was submitted: the dialog closed,
/// and the selection cleared when the dialog confirmed a deletion of a
/// selected item.
pub open spec fn submitted(after: FileManagerState, before: FileManagerState) -> bool {
    &&& after.modal_mode == MODAL_NONE
    &&& after.modal_input_len == 0
    &&& after.modal_input_buf == before.modal_input_buf
    &&& after.selected_index == (if before.modal_mode == MODAL_CONFIRM_DELETE
        && before.selected_index >= 0 {
        -1i32
    } else {
        before.selected_index
    })
    &&& after.path_buf == before.path_buf
    &&& after.path_len == before.path_len
    &&& after.hovered_index == before.hovered_index
    &&& after.view_mode == before.view_mode
    &&& after.scroll_offset == before.scroll_offset
    &&& after.total_items == before.total_items
    &&& after.is_dragging_scrollbar == before.is_dragging_scrollbar
}

/// Submits the modal dialog: works out the request it makes, clears the
/// selection when that request is a deletion, and closes the dialog.
pub fn execute_modal_action(state: &mut FileManagerState) -> (req: ModalRequest)
    requires
        old(state).wf(),
    ensures
        is_modal_request_for(req, *old(state)),
        submitted(*final(state), *old(state)),
{
    let mode = state.modal_mode;
    let mut input_tmp = [0u8; 64];
    let input_text = state.get_modal_input(&mut input_tmp);
    assert(state.modal_input().subrange(0, state.modal_input_len as int) == state.modal_input());
    let input = input_text.as_bytes();
    let req = if mode == MODAL_NEW_FOLDER && input.len() > 0 {
        let dir = state.shown_path_vec();
        ModalRequest::MakeDir(join(dir.as_slice(), input))
    } else if mode == MODAL_NEW_FILE && input.len() > 0 {
        let dir = state.shown_path_vec();
        ModalRequest::CreateFile(join(dir.as_slice(), input))
    } else if mode == MODAL_CONFIRM_DELETE && state.selected_index >= 0 {
        let dir = state.shown_path_vec();
        let index = state.selected_index;
        state.selected_index = -1;
        ModalRequest::DeleteEntry { dir, index }
    } else {
        ModalRequest::Nothing
    };
    state.close_modal();
    req
}

/// The path to remove for a deletion request: entry number `index` of the
/// directory listing `listing` (one entry per line, trailing `/` removed)
/// inside `dir`. `None` when the listing is not valid UTF-8 or has no such entry.
pub fn delete_target(dir: &[u8], listing: &[u8], index: i32) -> (p: Option<Vec<u8>>)
    ensures
        (valid_utf8(listing@) && 0 <= index < lines(listing@).len()) == p.is_some(),
        p matches Some(v) ==> v@ == join_path(dir@, trim_trailing_slashes(lines(listing@)[index as int])),
{
    if index < 0 {
        return None;
    }
    if str_from_utf8(listing).is_none() {
        return None;
    }
    match nth_line(listing, index as usize) {
        Some((start, end)) => {
            let entry = &listing[start..end];
            let n = trimmed_len(entry);
            Some(join(dir, &entry[0..n]))
        },
        None => None,
    }
}


/// Key code of Enter.
pub const KEY_ENTER: u32 = 0x1001;
/// Key code of Backspace.
pub const KEY_BACKSPACE: u32 = 0x1000;
/// Key code of Escape.
pub const KEY_ESCAPE: u32 = 0x101B;
/// Key code of the Up arrow.
pub const KEY_UP: u32 = 0x1002;
/// Key code of the Down arrow.
pub const KEY_DOWN: u32 = 0x1003;
/// Key code of Page Up.
pub const KEY_PAGE_UP: u32 = 0x1004;
/// Key code of Page Down.
pub const KEY_PAGE_DOWN: u32 = 0x1005;

/// Height of the view assumed when scrolling from the keyboard.
pub const KEY_SCROLL_VIEW_HEIGHT: i32 = 200;
/// Width of the list assumed when scrolling from the keyboard.
pub const KEY_SCROLL_LIST_WIDTH: i32 = 200;

/// Enter, carriage return or line feed.
pub open spec fn is_submit_key(key: u32) -> bool {
    key == KEY_ENTER || key == 13 || key == 10
}

/// Backspace or ASCII backspace.
pub open spec fn is_erase_key(key: u32) -> bool {
    key == KEY_BACKSPACE || key == 8
}

/// Escape or ASCII escape.
pub open spec fn is_cancel_key(key: u32) -> bool {
    key == KEY_ESCAPE || key == 27
}

/// The byte a character key types into the modal input: the printable ASCII
/// characters and the space.
pub open spec fn is_typable(b: u8) -> bool {
    0x20 <= b <= 0x7e
}

/// Down arrow or `P` scan code.
pub open spec fn is_line_down_key(key: u32) -> bool {
    key == KEY_DOWN || key == 0x50
}

/// Up arrow or `H` scan code.
pub open spec fn is_line_up_key(key: u32) -> bool {
    key == KEY_UP || key == 0x48
}

/// Scrolling by `delta` with the keyboard's view size stays within `i32`.
pub open spec fn key_scroll_down_ok(s: FileManagerState, delta: int) -> bool {
    &&& s.scroll_fits(KEY_SCROLL_VIEW_HEIGHT as int, KEY_SCROLL_LIST_WIDTH as int)
    &&& s.scroll_offset + delta <= i32::MAX
}

/// The inputs on which a key press computes within `i32`.
pub open spec fn key_ok(s: FileManagerState, key: u32) -> bool {
    s.modal_mode == 0 ==> {
        &&& is_line_down_key(key) ==> key_scroll_down_ok(s, 28)
        &&& key == KEY_PAGE_DOWN ==> key_scroll_down_ok(s, 140)
        &&& is_line_up_key(key) ==> s.scroll_offset - 28 >= i32::MIN
        &&& key == KEY_PAGE_UP ==> s.scroll_offset - 140 >= i32::MIN
    }
}

/// Handles a key press: with a modal dialog open, Enter submits it (and the
/// request is returned), Backspace erases, Escape cancels and printable keys
/// type; without one, the arrows scroll by a row and the page keys by five.
pub fn handle_file_manager_key(state: &mut FileManagerState, key: u32) -> (req: ModalRequest)
    requires
        old(state).wf(),
        key_ok(*old(state), key),
    ensures
        final(state).wf(),
        (old(state).modal_mode > 0 && is_submit_key(key)) ==> is_modal_request_for(req, *old(state))
            && submitted(*final(state), *old(state)),
        !(old(state).modal_mode > 0 && is_submit_key(key)) ==> req is Nothing,
        (old(state).modal_mode > 0 && !is_submit_key(key) && is_erase_key(key)) ==> {
            &&& final(state).modal_mode == old(state).modal_mode
            &&& final(state).same_except_modal(old(state))
            &&& final(state).modal_input() == (if old(state).modal_input_len > 0 {
                old(state).modal_input().drop_last()
            } else {
                old(state).modal_input()
            })
        },
        (old(state).modal_mode > 0 && !is_submit_key(key) && !is_erase_key(key) && is_cancel_key(
            key,
        )) ==> {
            &&& final(state).modal_mode == MODAL_NONE
            &&& final(state).modal_input_len == 0
            &&& final(state).same_except_modal(old(state))
        },
        (old(state).modal_mode > 0 && !is_submit_key(key) && !is_erase_key(key) && !is_cancel_key(
            key,
        )) ==> {
            if key < 0x1000 && is_typable(key as u8) && old(state).modal_input_len < 64 {
                &&& final(state).modal_mode == old(state).modal_mode
                &&& final(state).same_except_modal(old(state))
                &&& final(state).modal_input() == old(state).modal_input().push(key as u8)
            } else {
                *final(state) == *old(state)
            }
        },
        old(state).modal_mode == 0 ==> {
            &&& final(state).same_except_scroll(old(state))
            &&& final(state).scroll_offset == (if is_line_down_key(key) {
                scrolled_down(
                    old(state).scroll_offset as int,
                    28,
                    old(state).spec_max_scroll(200, 200),
                )
            } else if is_line_up_key(key) {
                scrolled_up(old(state).scroll_offset as int, 28)
            } else if key == KEY_PAGE_DOWN {
                scrolled_down(
                    old(state).scroll_offset as int,
                    140,
                    old(state).spec_max_scroll(200, 200),
                )
            } else if key == KEY_PAGE_UP {
                scrolled_up(old(state).scroll_offset as int, 140)
            } else {
                old(state).scroll_offset as int
            })
        },
{
    if state.modal_mode > 0 {
        if key == KEY_ENTER || key == 13 || key == 10 {
            return execute_modal_action(state);
        } else if key == KEY_BACKSPACE || key == 8 {
            state.pop_modal_char();
        } else if key == KEY_ESCAPE || key == 27 {
            state.close_modal();
        } else if key < 0x1000 {
            let b = key as u8;
            if b >= 0x20 && b <= 0x7e {
                state.push_modal_char(b as char);
            }
        }
    } else {
        if key == KEY_DOWN || key == 0x50 {
            state.scroll_down(28, KEY_SCROLL_VIEW_HEIGHT, KEY_SCROLL_LIST_WIDTH);
        } else if key == KEY_UP || key == 0x48 {
            state.scroll_up(28);
        } else if key == KEY_PAGE_DOWN {
            state.scroll_down(140, KEY_SCROLL_VIEW_HEIGHT, KEY_SCROLL_LIST_WIDTH);
        } else if key == KEY_PAGE_UP {
            state.scroll_up(140);
        }
    }
    ModalRequest::Nothing
}


/// Whether `s` ends with `suffix`.
pub open spec fn has_suffix(s: Seq<u8>, suffix: Seq<u8>) -> bool {
    suffix.len() <= s.len() && s.subrange(s.len() - suffix.len(), s.len() as int) == suffix
}

/// Whether the bytes `s` end with the bytes `suffix`.
pub(crate) fn ends_with(s: &[u8], suffix: &[u8]) -> (b: bool)
    ensures
        b == has_suffix(s@, suffix@),
{
    if suffix.len() > s.len() {
        return false;
    }
    let sl = s.len();
    let off = sl - suffix.len();
    let mut i: usize = 0;
    while i < suffix.len()
        invariant
            sl == s@.len(),
            off + suffix@.len() == s@.len(),
            i <= suffix@.len(),
            forall|k: int| 0 <= k < i ==> s@[off + k] == suffix@[k],
        decreases suffix@.len() - i,
    {
        if s[off + i] != suffix[i] {
            assert(s@.subrange(off as int, s@.len() as int)[i as int] != suffix@[i as int]);
            return false;
        }
        i = i + 1;
    }
    assert(s@.subrange(off as int, s@.len() as int) =~= suffix@);
    true
}

/// Acts on a click on entry `index` of the directory listing `listing` (one
/// entry per line): a second click on the selected entry, when it names a
/// directory (ends with `/`), enters that directory; any other click on an
/// existing entry selects it. Nothing happens when the listing is not valid
/// UTF-8 or has no such entry.
pub fn open_entry(state: &mut FileManagerState, listing: &[u8], index: i32)
    requires
        old(state).wf(),
    ensures
        final(state).wf(),
        (valid_utf8(listing@) && 0 <= index < lines(listing@).len()) ==> {
            let e = lines(listing@)[index as int];
            if old(state).selected_index == index && has_suffix(e, root_path()) {
                final(state).moved_to(
                    old(state),
                    pushed_path_unstored(shown_path(old(state).path()), e),
                )
            } else {
                &&& final(state).selected_index == index
                &&& final(state).path_buf == old(state).path_buf
                &&& final(state).path_len == old(state).path_len
                &&& final(state).hovered_index == old(state).hovered_index
                &&& final(state).scroll_offset == old(state).scroll_offset
                &&& final(state).same_except_navigation(old(state))
            }
        },
        !(valid_utf8(listing@) && 0 <= index < lines(listing@).len()) ==> *final(state) == *old(
            state,
        ),
{
    if index < 0 {
        return;
    }
    if str_from_utf8(listing).is_none() {
        return;
    }
    match nth_line(listing, index as usize) {
        Some((start, end)) => {
            let entry = &listing[start..end];
            proof {
                lemma_root_literal();
            }
            if state.selected_index == index && ends_with(entry, "/".as_bytes()) {
                state.push_dir_bytes(entry);
            } else {
                state.selected_index = index;
            }
        },
        None => {},
    }
}

/// The kind of item that a directory entry `name` names, by its ending.
pub open spec fn file_type_of(name: Seq<u8>) -> &'static str {
    if has_suffix(name, "/".spec_bytes()) {
        "Folder"
    } else if has_suffix(name, ".rs".spec_bytes()) {
        "Rust Source Code"
    } else if has_suffix(name, ".txt".spec_bytes()) || has_suffix(name, ".md".spec_bytes()) {
        "Text Document"
    } else if has_suffix(name, ".log".spec_bytes()) {
        "System Log File"
    } else if has_suffix(name, ".bmp".spec_bytes()) || has_suffix(name, ".png".spec_bytes()) {
        "Bitmap Image"
    } else if has_suffix(name, ".elf".spec_bytes()) || has_suffix(name, ".bin".spec_bytes()) {
        "Executable Binary"
    } else if has_suffix(name, ".toml".spec_bytes()) || has_suffix(name, ".json".spec_bytes()) {
        "Configuration File"
    } else {
        "File"
    }
}

/// A readable description of the kind of item `name` names: a folder (ends
/// with `/`), Rust source, text, log, image, executable or configuration file
/// by extension, else a plain file.
pub fn detect_file_type(name: &str) -> (t: &'static str)
    ensures
        t == file_type_of(name.spec_bytes()),
{
    let n = name.as_bytes();
    if ends_with(n, "/".as_bytes()) {
        "Folder"
    } else if ends_with(n, ".rs".as_bytes()) {
        "Rust Source Code"
    } else if ends_with(n, ".txt".as_bytes()) || ends_with(n, ".md".as_bytes()) {
        "Text Document"
    } else if ends_with(n, ".log".as_bytes()) {
        "System Log File"
    } else if ends_with(n, ".bmp".as_bytes()) || ends_with(n, ".png".as_bytes()) {
        "Bitmap Image"
    } else if ends_with(n, ".elf".as_bytes()) || ends_with(n, ".bin".as_bytes()) {
        "Executable Binary"
    } else if ends_with(n, ".toml".as_bytes()) || ends_with(n, ".json".as_bytes()) {
        "Configuration File"
    } else {
        "File"
    }
}

} // verus!
