//! What the settings window shows: the highlight of each sidebar tab, the
//! shadow switch, and the lines of the system tab.
use vstd::prelude::*;
use vstd::string::StringSliceAdditionalSpecFns;
use crate::radiation::{decimal, ecc_number_text};
use crate::strings::{bytes_to_vec, extend_bytes};

verus! {

/// How a sidebar tab is drawn.
#[derive(Clone, Copy, Debug, PartialEq, Eq)]
pub enum TabLook {
    /// The open tab.
    Active,
    /// Under the cursor.
    Hovered,
    /// Neither.
    Normal,
}

/// Top edge of sidebar tab `i` (0 Appearance, 1 System, 2 About), from the
/// window body's top edge: 32 pixels apart from 50.
pub open spec fn tab_top(i: int) -> int {
    50 + 32 * i
}

/// How tab `i` is drawn with tab `active` open and the cursor at the
/// window-relative point `(rx, ry)`: tabs are 110 x 26 from 10 pixels in.
pub open spec fn tab_look_at(i: int, active: u32, rx: int, ry: int) -> TabLook {
    if active == i {
        TabLook::Active
    } else if 10 <= rx < 120 && tab_top(i) <= ry < tab_top(i) + 26 {
        TabLook::Hovered
    } else {
        TabLook::Normal
    }
}

/// How sidebar tab `i` is drawn (see `tab_look_at`).
pub fn tab_look(i: u32, active: u32, rx: i32, ry: i32) -> (l: TabLook)
    requires
        i < 3,
    ensures
        l == tab_look_at(i as int, active, rx as int, ry as int),
{
    let top = 50 + 32 * (i as i32);
    if active == i {
        TabLook::Active
    } else if rx >= 10 && rx < 120 && ry >= top && ry < top + 26 {
        TabLook::Hovered
    } else {
        TabLook::Normal
    }
}

/// Where the shadow switch's knob sits, from the switch's left edge: at the
/// right (26) when shadows are on, at the left (2) when off.
pub fn switch_knob_offset(shadows_on: bool) -> (dx: i32)
    ensures
        dx == (if shadows_on { 26i32 } else { 2i32 }),
{
    if shadows_on {
        26
    } else {
        2
    }
}

/// The lines of the system tab: ECC corrections, quarantined pages, and the
/// memory in use in whole kilobytes.
pub open spec fn system_lines_of(ecc: u64, quarantined: u64, heap_used: u64) -> (Seq<u8>, Seq<u8>, Seq<u8>) {
    (
        "ECC Corrections: ".spec_bytes() + decimal(ecc as nat),
        "Pages Quarantined: ".spec_bytes() + decimal(quarantined as nat),
        "Memory Used: ".spec_bytes() + decimal((heap_used / 1024) as nat) + " KB".spec_bytes(),
    )
}

/// The lines of the system tab (see `system_lines_of`).
pub fn system_lines(ecc: u64, quarantined: u64, heap_used: u64) -> (t: (Vec<u8>, Vec<u8>, Vec<u8>))
    ensures
        (t.0@, t.1@, t.2@) == system_lines_of(ecc, quarantined, heap_used),
{
    let mut a = bytes_to_vec("ECC Corrections: ".as_bytes());
    let n = ecc_number_text(ecc);
    extend_bytes(&mut a, n.as_slice());
    let mut b = bytes_to_vec("Pages Quarantined: ".as_bytes());
    let n = ecc_number_text(quarantined);
    extend_bytes(&mut b, n.as_slice());
    let mut c = bytes_to_vec("Memory Used: ".as_bytes());
    let n = ecc_number_text(heap_used / 1024);
    extend_bytes(&mut c, n.as_slice());
    extend_bytes(&mut c, " KB".as_bytes());
    (a, b, c)
}

/// The open tab always shows as open, wherever the cursor is; another tab
/// shows hovered exactly when the cursor is in its 110 x 26 box, and plain
/// otherwise.
pub proof fn law_open_tab_keeps_its_look(i: int, active: u32, rx: int, ry: int)
    ensures
        active == i ==> tab_look_at(i, active, rx, ry) == TabLook::Active,
        active != i ==> (tab_look_at(i, active, rx, ry) == TabLook::Hovered <==> (10 <= rx < 120 && 50 + 32
            * i <= ry < 76 + 32 * i)),
        active != i ==> tab_look_at(i, active, rx, ry) != TabLook::Active,
{
}

} // verus!
