//! Desktop-wide state: the search query typed on the Applications screen and
//! the per-window caches of rendered contents.
use vstd::prelude::*;
use vstd::utf8::valid_utf8;
use vstd::string::StringSliceAdditionalSpecFns;
use crate::strings::str_from_utf8;

verus! {

/// Capacity of the search query in bytes.
pub const SEARCH_CAPACITY: usize = 64;

/// Width in pixels of the largest window contents a backing store caches.
pub const BACKING_STORE_WIDTH: usize = 580;

/// Height in pixels of the largest window contents a backing store caches.
pub const BACKING_STORE_HEIGHT: usize = 380;

/// Cached pixels of a window's rendered contents.
pub struct WindowBackingStore {
    /// Cached pixels in 32-bit ARGB, row-major with 580 pixels per row.
    pub pixels: Vec<u32>,
    /// Width of the cached contents.
    pub width: u32,
    /// Height of the cached contents.
    pub height: u32,
    /// Whether the cache is stale and the window must be drawn again.
    pub is_dirty: bool,
}

impl WindowBackingStore {
    /// The pixel vector has room for 580 x 380 pixels.
    pub open spec fn wf(&self) -> bool {
        self.pixels@.len() == BACKING_STORE_WIDTH * BACKING_STORE_HEIGHT
    }

    /// An empty, stale cache.
    pub fn new() -> (s: Self)
        ensures
            s.wf(),
            s.width == 0,
            s.height == 0,
            s.is_dirty,
            forall|i: int| 0 <= i < s.pixels@.len() ==> s.pixels@[i] == 0,
    {
        let n: usize = BACKING_STORE_WIDTH * BACKING_STORE_HEIGHT;
        let mut pixels: Vec<u32> = Vec::new();
        let mut i: usize = 0;
        while i < n
            invariant
                i <= n,
                n == BACKING_STORE_WIDTH * BACKING_STORE_HEIGHT,
                pixels@.len() == i,
                forall|k: int| 0 <= k < i ==> pixels@[k] == 0,
            decreases n - i,
        {
            pixels.push(0);
            i = i + 1;
        }
        WindowBackingStore { pixels, width: 0, height: 0, is_dirty: true }
    }
}

/// The search query typed on the Applications screen.
pub struct SearchQuery {
    /// Bytes of the query; the first `len` are in use.
    pub buffer: [u8; 64],
    /// Length of the query.
    pub len: u32,
}

impl SearchQuery {
    /// The stored length is within the buffer.
    pub open spec fn wf(&self) -> bool {
        self.len <= 64
    }

    /// The bytes of the query.
    pub open spec fn query(&self) -> Seq<u8> {
        self.buffer@.subrange(0, self.len as int)
    }

    /// An empty query over a zeroed buffer.
    pub fn new() -> (q: Self)
        ensures
            q.wf(),
            q.query() == Seq::<u8>::empty(),
            q.len == 0,
            forall|i: int| 0 <= i < 64 ==> #[trigger] q.buffer@[i] == 0,
    {
        let q = SearchQuery { buffer: [0u8; 64], len: 0 };
        assert(q.query() =~= Seq::<u8>::empty());
        q
    }

    /// Empties the query.
    pub fn clear(&mut self)
        ensures
            final(self).wf(),
            final(self).query() == Seq::<u8>::empty(),
            final(self).buffer == old(self).buffer,
    {
        self.len = 0;
        assert(self.query() =~= Seq::<u8>::empty());
    }

    /// Appends the ASCII character `c` when the query holds fewer than 64
    /// bytes; a full query or a character outside ASCII leaves it unchanged.
    pub fn push(&mut self, c: char)
        requires
            old(self).wf(),
        ensures
            final(self).wf(),
            (old(self).len < 64 && (c as u32) <= 127) ==> final(self).query() == old(
                self,
            ).query().push(c as u32 as u8),
            !(old(self).len < 64 && (c as u32) <= 127) ==> *final(self) == *old(self),
    {
        let len = self.len as usize;
        if len < SEARCH_CAPACITY {
            let val = c as u32;
            if val <= 127 {
                self.buffer[len] = val as u8;
                self.len = (len + 1) as u32;
                assert(self.query() =~= old(self).query().push(c as u32 as u8));
            }
        }
    }

    /// Removes the last byte of the query, if any.
    pub fn pop(&mut self)
        requires
            old(self).wf(),
        ensures
            final(self).wf(),
            final(self).buffer == old(self).buffer,
            old(self).len > 0 ==> final(self).query() == old(self).query().drop_last(),
            old(self).len == 0 ==> *final(self) == *old(self),
    {
        let len = self.len as usize;
        if len > 0 {
            self.len = (len - 1) as u32;
            assert(self.query() =~= old(self).query().drop_last());
        }
    }

    /// Copies the query into `buf` (as much of it as fits) and returns it as a
    /// string slice over `buf`, or `""` when the copied bytes are not valid UTF-8.
    pub fn get_str<'a>(&self, buf: &'a mut [u8]) -> (s: &'a str)
        requires
            self.wf(),
        ensures
            ({
                let limit = if self.len <= old(buf)@.len() {
                    self.len as int
                } else {
                    old(buf)@.len() as int
                };
                let copied = self.query().subrange(0, limit);
                &&& final(buf)@.len() == old(buf)@.len()
                &&& final(buf)@.subrange(0, limit) == copied
                &&& final(buf)@.subrange(limit, old(buf)@.len() as int) == old(buf)@.subrange(
                    limit,
                    old(buf)@.len() as int,
                )
                &&& s.spec_bytes() == (if valid_utf8(copied) {
                    copied
                } else {
                    Seq::<u8>::empty()
                })
            }),
    {
        let len = self.len as usize;
        let limit = if len <= buf.len() { len } else { buf.len() };
        let ghost start = buf@;
        let mut i: usize = 0;
        while i < limit
            invariant
                i <= limit,
                limit <= 64,
                limit <= buf@.len(),
                buf@.len() == start.len(),
                limit <= self.len,
                forall|k: int| 0 <= k < i ==> buf@[k] == self.buffer@[k],
                forall|k: int| i <= k < buf@.len() ==> buf@[k] == start[k],
            decreases limit - i,
        {
            buf[i] = self.buffer[i];
            i = i + 1;
        }
        assert(buf@.subrange(0, limit as int) =~= self.query().subrange(0, limit as int));
        assert(buf@.subrange(limit as int, buf@.len() as int) =~= start.subrange(
            limit as int,
            start.len() as int,
        ));
        let filled: &'a [u8] = buf;
        match str_from_utf8(&filled[0..limit]) {
            Some(s) => s,
            None => {
                proof {
                    reveal_strlit("");
                    assert("".spec_bytes() =~= Seq::<u8>::empty());
                }
                ""
            },
        }
    }
}

/// Pushing an ASCII character onto a query with room for it and popping again
/// restores the query.
pub proof fn law_search_push_then_pop(before: SearchQuery, pushed: SearchQuery, popped: SearchQuery, c: char)
    requires
        before.wf(),
        before.len < 64,
        (c as u32) <= 127,
        pushed.wf(),
        pushed.query() == before.query().push(c as u32 as u8),
        popped.query() == pushed.query().drop_last(),
    ensures
        popped.query() == before.query(),
{
    assert(before.query().push(c as u32 as u8).drop_last() =~= before.query());
}

} // verus!
