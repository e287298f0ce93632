//! Tracking of the screen regions that changed since the last frame, so that
//! only those are copied from the back buffer to the display. The tracker holds
//! at most 16 rectangles; past that, or when asked, it falls back to a full
//! redraw.
use vstd::prelude::*;

verus! {

/// Number of rectangles the tracker holds before it falls back to a full redraw.
pub const MAX_DIRTY_RECTS: usize = 16;

/// A rectangle of the screen that changed since the last frame.
#[derive(Clone, Copy, Debug, PartialEq, Eq)]
pub struct DirtyRect {
    /// Left edge.
    pub x: i32,
    /// Top edge.
    pub y: i32,
    /// Width.
    pub w: i32,
    /// Height.
    pub h: i32,
}

/// A tracker's contents as plain values, the recorded rectangles and the
/// full-redraw flag, once the region `(x, y, w, h)` is added to `st`.
pub open spec fn after_add(st: (Seq<Option<DirtyRect>>, bool), r: (i32, i32, i32, i32)) -> (
    Seq<Option<DirtyRect>>,
    bool,
) {
    if st.1 || r.2 <= 0 || r.3 <= 0 {
        st
    } else if st.0.len() >= 16 {
        (st.0, true)
    } else {
        (st.0.push(Some(DirtyRect { x: r.0, y: r.1, w: r.2, h: r.3 })), false)
    }
}

/// The tracker contents `st` once the regions `rs` are added in order.
pub open spec fn after_adds(st: (Seq<Option<DirtyRect>>, bool), rs: Seq<(i32, i32, i32, i32)>) -> (
    Seq<Option<DirtyRect>>,
    bool,
)
    decreases rs.len(),
{
    if rs.len() == 0 {
        st
    } else {
        after_add(after_adds(st, rs.drop_last()), rs.last())
    }
}

/// Adding one more region after a list of them is one more step.
pub proof fn lemma_after_adds_push(
    st: (Seq<Option<DirtyRect>>, bool),
    rs: Seq<(i32, i32, i32, i32)>,
    r: (i32, i32, i32, i32),
)
    ensures
        after_adds(st, rs.push(r)) == after_add(after_adds(st, rs), r),
{
    assert(rs.push(r).drop_last() =~= rs);
}

/// Changed screen regions recorded since the last frame.
pub struct DirtyRectTracker {
    rects: [Option<DirtyRect>; 16],
    count: usize,
    all_dirty: bool,
}

impl DirtyRectTracker {
    #[verifier::type_invariant]
    spec fn well_formed(self) -> bool {
        &&& self.count <= 16
        &&& forall|i: int|
            0 <= i < self.count ==> ((#[trigger] self.rects@[i]) matches Some(r) && r.w > 0 && r.h
                > 0)
    }

    /// The recorded rectangles, oldest first.
    pub closed spec fn recorded(&self) -> Seq<Option<DirtyRect>> {
        self.rects@.subrange(0, self.count as int)
    }

    /// Whether the whole screen is to be redrawn.
    pub closed spec fn spec_all_dirty(&self) -> bool {
        self.all_dirty
    }

    /// The recorded rectangles and the full-redraw flag.
    pub open spec fn contents(&self) -> (Seq<Option<DirtyRect>>, bool) {
        (self.recorded(), self.spec_all_dirty())
    }

    /// An empty tracker: no rectangles, no full redraw.
    pub fn new() -> (t: Self)
        ensures
            t.recorded() == Seq::<Option<DirtyRect>>::empty(),
            !t.spec_all_dirty(),
    {
        let t = DirtyRectTracker { rects: [None; 16], count: 0, all_dirty: false };
        assert(t.recorded() =~= Seq::<Option<DirtyRect>>::empty());
        t
    }

    /// Asks for a full redraw of the screen.
    pub fn mark_all_dirty(&mut self)
        ensures
            final(self).spec_all_dirty(),
            final(self).recorded() == old(self).recorded(),
    {
        proof {
            use_type_invariant(&*self);
        }
        self.all_dirty = true;
    }

    /// Forgets every rectangle and the full-redraw request.
    pub fn clear(&mut self)
        ensures
            final(self).recorded() == Seq::<Option<DirtyRect>>::empty(),
            !final(self).spec_all_dirty(),
    {
        self.count = 0;
        self.all_dirty = false;
        let mut i: usize = 0;
        while i < MAX_DIRTY_RECTS
            invariant
                i <= 16,
                self.count == 0,
                !self.all_dirty,
            decreases 16 - i,
        {
            self.rects[i] = None;
            i = i + 1;
        }
        assert(self.recorded() =~= Seq::<Option<DirtyRect>>::empty());
    }

    /// Records the changed region with corner `(x, y)` and size `w x h`.
    /// Ignored when a full redraw is already due or the region is empty; when
    /// 16 regions are already recorded, a full redraw is asked for instead.
    pub fn add_rect(&mut self, x: i32, y: i32, w: i32, h: i32)
        ensures
            (old(self).spec_all_dirty() || w <= 0 || h <= 0) ==> final(self).recorded() == old(
                self,
            ).recorded() && final(self).spec_all_dirty() == old(self).spec_all_dirty(),
            (!old(self).spec_all_dirty() && w > 0 && h > 0 && old(self).recorded().len() >= 16)
                ==> final(self).recorded() == old(self).recorded() && final(self).spec_all_dirty(),
            (!old(self).spec_all_dirty() && w > 0 && h > 0 && old(self).recorded().len() < 16)
                ==> final(self).recorded() == old(self).recorded().push(
                Some(DirtyRect { x, y, w, h }),
            ) && !final(self).spec_all_dirty(),
            final(self).contents() == after_add(old(self).contents(), (x, y, w, h)),
    {
        proof {
            use_type_invariant(&*self);
        }
        if self.all_dirty || w <= 0 || h <= 0 {
            return;
        }
        if self.count >= MAX_DIRTY_RECTS {
            self.all_dirty = true;
            return;
        }
        let ghost before = self.recorded();
        let c = self.count;
        self.rects[c] = Some(DirtyRect { x, y, w, h });
        self.count = c + 1;
        assert(self.recorded() =~= before.push(Some(DirtyRect { x, y, w, h })));
    }

    /// The recorded rectangles, oldest first.
    pub fn get_rects(&self) -> (r: &[Option<DirtyRect>])
        ensures
            r@ == self.recorded(),
            r@.len() <= 16,
            forall|i: int|
                0 <= i < r@.len() ==> ((#[trigger] r@[i]) matches Some(d) && d.w > 0 && d.h > 0),
    {
        proof {
            use_type_invariant(self);
        }
        &self.rects[0..self.count]
    }

    /// Whether the whole screen is to be redrawn.
    pub fn is_all_dirty(&self) -> (b: bool)
        ensures
            b == self.spec_all_dirty(),
    {
        self.all_dirty
    }
}

/// A call on a tracker, as the tracker sees it.
pub enum TrackerCall {
    /// `add_rect(x, y, w, h)`.
    Add(i32, i32, i32, i32),
    /// `mark_all_dirty()`.
    MarkAll,
    /// `clear()`.
    Clear,
}

/// A tracker's contents `st` after the call `c` (see `add_rect`,
/// `mark_all_dirty` and `clear`).
pub open spec fn after_call(st: (Seq<Option<DirtyRect>>, bool), c: TrackerCall) -> (Seq<Option<DirtyRect>>, bool) {
    match c {
        TrackerCall::Add(x, y, w, h) => after_add(st, (x, y, w, h)),
        TrackerCall::MarkAll => (st.0, true),
        TrackerCall::Clear => (Seq::empty(), false),
    }
}

/// A tracker's contents `st` after the calls `cs`, in order.
pub open spec fn after_calls(st: (Seq<Option<DirtyRect>>, bool), cs: Seq<TrackerCall>) -> (
    Seq<Option<DirtyRect>>,
    bool,
)
    decreases cs.len(),
{
    if cs.len() == 0 {
        st
    } else {
        after_call(after_calls(st, cs.drop_last()), cs.last())
    }
}

/// The rectangles of non-empty size among the calls `cs`, in call order.
pub open spec fn added(cs: Seq<TrackerCall>) -> Seq<Option<DirtyRect>>
    decreases cs.len(),
{
    if cs.len() == 0 {
        seq![]
    } else {
        let before = added(cs.drop_last());
        match cs.last() {
            TrackerCall::Add(x, y, w, h) => if w > 0 && h > 0 {
                before.push(Some(DirtyRect { x, y, w, h }))
            } else {
                before
            },
            _ => before,
        }
    }
}

/// Whether `cs` holds only calls of `add_rect`.
pub open spec fn only_adds(cs: Seq<TrackerCall>) -> bool {
    forall|i: int| 0 <= i < cs.len() ==> #[trigger] cs[i] is Add
}

/// Whether `cs` holds no call of `clear`.
pub open spec fn no_clear(cs: Seq<TrackerCall>) -> bool {
    forall|i: int| 0 <= i < cs.len() ==> !(#[trigger] cs[i] is Clear)
}

/// The tracker lists rectangles in call order: starting from recorded
/// rectangles `st.0` (at most 16) with no full redraw asked for, calls of
/// `add_rect` record the non-empty rectangles after them, in order, while
/// there is room for all; when there is not, the first 16 are kept and a
/// full redraw is asked for.
pub proof fn law_tracker_records_in_call_order(st: (Seq<Option<DirtyRect>>, bool), cs: Seq<TrackerCall>)
    requires
        !st.1,
        st.0.len() <= 16,
        only_adds(cs),
    ensures
        after_calls(st, cs) == (if st.0.len() + added(cs).len() <= 16 {
            (st.0 + added(cs), false)
        } else {
            ((st.0 + added(cs)).take(16), true)
        }),
    decreases cs.len(),
{
    if cs.len() > 0 {
        let prefix = cs.drop_last();
        assert(only_adds(prefix)) by {
            assert forall|i: int| 0 <= i < prefix.len() implies #[trigger] prefix[i] is Add by {
                assert(prefix[i] == cs[i]);
            }
        }
        law_tracker_records_in_call_order(st, prefix);
        assert(cs[cs.len() - 1] is Add);
        let all = st.0 + added(prefix);
        match cs.last() {
            TrackerCall::Add(x, y, w, h) => {
                if w > 0 && h > 0 {
                    let r = Some(DirtyRect { x, y, w, h });
                    assert(st.0 + added(cs) =~= all.push(r));
                    if all.len() > 16 {
                        assert(all.push(r).take(16) =~= all.take(16));
                    } else if all.len() == 16 {
                        assert(all.push(r).take(16) =~= all);
                    }
                } else {
                    assert(added(cs) == added(prefix));
                }
            },
            _ => {},
        }
    }
}

/// A full redraw, once asked for, stays asked for, with the recorded
/// rectangles unchanged, until the tracker is cleared.
pub proof fn law_full_redraw_stays_until_clear(st: (Seq<Option<DirtyRect>>, bool), cs: Seq<TrackerCall>)
    requires
        st.1,
        no_clear(cs),
    ensures
        after_calls(st, cs) == st,
    decreases cs.len(),
{
    if cs.len() > 0 {
        let prefix = cs.drop_last();
        assert(no_clear(prefix)) by {
            assert forall|i: int| 0 <= i < prefix.len() implies !(#[trigger] prefix[i] is Clear) by {
                assert(prefix[i] == cs[i]);
            }
        }
        law_full_redraw_stays_until_clear(st, prefix);
        assert(!(cs[cs.len() - 1] is Clear));
    }
}


/// The calls of `cs` after its last call of `clear` (all of them when it has none).
pub open spec fn since_clear(cs: Seq<TrackerCall>) -> Seq<TrackerCall>
    decreases cs.len(),
{
    if cs.len() == 0 {
        cs
    } else if cs.last() is Clear {
        Seq::empty()
    } else {
        since_clear(cs.drop_last()).push(cs.last())
    }
}

/// Index of the first call of `mark_all_dirty` in `cs`, or its length when it
/// has none.
pub open spec fn first_mark(cs: Seq<TrackerCall>) -> int
    decreases cs.len(),
{
    if cs.len() == 0 {
        0
    } else {
        let f = first_mark(cs.drop_last());
        if f < cs.len() - 1 {
            f
        } else if cs.last() is MarkAll {
            cs.len() - 1
        } else {
            cs.len() as int
        }
    }
}

proof fn lemma_first_mark_range(cs: Seq<TrackerCall>)
    ensures
        0 <= first_mark(cs) <= cs.len(),
    decreases cs.len(),
{
    if cs.len() > 0 {
        lemma_first_mark_range(cs.drop_last());
    }
}

/// What a tracker holds after any calls `cs` from `new()`: since the last
/// `clear()`, the non-empty rectangles passed to `add_rect` before the first
/// `mark_all_dirty()` are listed in call order, the first 16 of them when
/// there are more; a full redraw is asked for exactly when `mark_all_dirty()`
/// was called since the last `clear()`, or `add_rect` was called with a
/// non-empty rectangle while 16 were stored.
pub proof fn law_tracker_after_any_calls(cs: Seq<TrackerCall>)
    ensures
        ({
            let tail = since_clear(cs);
            let k = first_mark(tail);
            let pre = added(tail.take(k));
            after_calls((Seq::empty(), false), cs) == (if pre.len() <= 16 {
                (pre, k < tail.len())
            } else {
                (pre.take(16), true)
            })
        }),
    decreases cs.len(),
{
    if cs.len() == 0 {
        assert(since_clear(cs).take(0) =~= Seq::<TrackerCall>::empty());
    } else {
        let p = cs.drop_last();
        let c = cs.last();
        law_tracker_after_any_calls(p);
        let tail = since_clear(p);
        let k = first_mark(tail);
        let pre = added(tail.take(k));
        lemma_first_mark_range(tail);
        if c is Clear {
            assert(since_clear(cs).take(0) =~= Seq::<TrackerCall>::empty());
        } else {
            let tail1 = since_clear(cs);
            assert(tail1 == tail.push(c));
            assert(tail1.drop_last() =~= tail);
            let k1 = first_mark(tail1);
            if k < tail.len() {
                assert(k1 == k);
                assert(tail1.take(k1) =~= tail.take(k));
            } else {
                assert(tail1.take(k) =~= tail.take(k));
                match c {
                    TrackerCall::MarkAll => {
                        assert(k1 == k);
                    },
                    TrackerCall::Add(x, y, w, h) => {
                        assert(k1 == tail1.len());
                        assert(tail1.take(k1) =~= tail1);
                        assert(tail.take(k) =~= tail);
                        assert(tail1.drop_last() =~= tail);
                        let pre1 = added(tail1);
                        if w > 0 && h > 0 {
                            let r = Some(DirtyRect { x, y, w, h });
                            assert(pre1 == pre.push(r));
                            if pre.len() > 16 {
                                assert(pre.push(r).take(16) =~= pre.take(16));
                            } else if pre.len() == 16 {
                                assert(pre.push(r).take(16) =~= pre);
                            }
                        } else {
                            assert(pre1 == pre);
                        }
                    },
                    TrackerCall::Clear => {},
                }
            }
        }
    }
}

} // verus!
