//! A ring-flattening byte buffer with a read cursor and a write cursor.
//!
//! The region between the two cursors holds the readable data; the region
//! after the write cursor is free space.  `consume` collapses both cursors
//! to zero once the buffer drains, so a long-lived buffer does not creep
//! towards its end.

use vstd::prelude::*;

verus! {

/// Default capacity for a freshly created buffer.
pub const DEFAULT_BUFSIZE: usize = 0x8000;

/// A fixed-capacity byte region with a read cursor `pos` and a write cursor
/// `cap`; the readable data is `buf[pos .. cap]`.
#[derive(Debug)]
pub struct AsyncBuf {
    pub(crate) buf: Vec<u8>,
    pub(crate) pos: usize,
    pub(crate) cap: usize,
}

impl View for AsyncBuf {
    type V = Seq<u8>;

    /// The readable data.
    closed spec fn view(&self) -> Seq<u8> {
        self.buf@.subrange(self.pos as int, self.cap as int)
    }
}

impl AsyncBuf {
    /// Cursors stay ordered and inside the allocation.
    pub closed spec fn wf(&self) -> bool {
        self.pos <= self.cap <= self.buf@.len()
    }

    /// The read cursor.
    pub closed spec fn spec_pos(&self) -> int {
        self.pos as int
    }

    /// The write cursor.
    pub closed spec fn spec_cap(&self) -> int {
        self.cap as int
    }

    /// The size of the allocation.
    pub closed spec fn spec_capacity(&self) -> int {
        self.buf@.len() as int
    }

    /// Free space after the write cursor.
    pub open spec fn spec_free(&self) -> int {
        self.spec_capacity() - self.spec_cap()
    }

    pub fn new() -> (r: AsyncBuf)
        ensures
            r.wf(),
            r@ == Seq::<u8>::empty(),
            r.spec_pos() == 0,
            r.spec_cap() == 0,
            r.spec_capacity() == DEFAULT_BUFSIZE,
    {
        AsyncBuf::with_capacity(DEFAULT_BUFSIZE)
    }

    pub fn with_capacity(capacity: usize) -> (r: AsyncBuf)
        ensures
            r.wf(),
            r@ == Seq::<u8>::empty(),
            r.spec_pos() == 0,
            r.spec_cap() == 0,
            r.spec_capacity() == capacity,
    {
        let mut buf: Vec<u8> = Vec::new();
        buf.resize(capacity, 0);
        let r = AsyncBuf { buf, pos: 0, cap: 0 };
        assert(r@ =~= Seq::<u8>::empty());
        r
    }

    /// Whether `n` free bytes can be had without growing: either they are
    /// already free at the tail, or sliding the live data to the head frees
    /// them and the live region is no larger than the head slack.
    pub open spec fn can_reserve(&self, n: int) -> bool {
        self.spec_cap() + n <= self.spec_capacity() || (self@.len() <= self.spec_pos()
            && self@.len() + n <= self.spec_capacity())
    }

    /// Make `n` bytes of free space available without growing, sliding the
    /// live data to the head when that is enough and productive.
    pub fn try_reserve(&mut self, n: usize) -> (r: bool)
        requires
            old(self).wf(),
            old(self).spec_cap() + n <= usize::MAX,
        ensures
            final(self).wf(),
            final(self)@ == old(self)@,
            final(self).spec_capacity() == old(self).spec_capacity(),
            r == old(self).can_reserve(n as int),
            r ==> final(self).spec_cap() + n <= final(self).spec_capacity(),
            !r ==> *final(self) == *old(self),
    {
        if self.cap + n <= self.buf.len() {
            return true;
        }
        let data_len = self.cap - self.pos;
        if data_len > self.pos || data_len + n > self.buf.len() {
            false
        } else {
            let ghost prev = self.buf@;
            let ghost gpos = self.pos as int;
            let mut i: usize = 0;
            while i < data_len
                invariant
                    i <= data_len,
                    data_len <= gpos,
                    gpos == self.pos,
                    self.wf(),
                    self.cap - self.pos == data_len,
                    self.buf@.len() == prev.len(),
                    forall|j: int| 0 <= j < i ==> self.buf@[j] == prev[gpos + j],
                    forall|j: int| i <= j < prev.len() ==> self.buf@[j] == prev[j],
                decreases data_len - i,
            {
                let b = self.buf[self.pos + i];
                self.buf.set(i, b);
                i += 1;
            }
            self.pos = 0;
            self.cap = data_len;
            assert(self@ =~= prev.subrange(gpos, gpos + data_len));
            true
        }
    }

    /// Guarantee `n` free bytes, growing the allocation only when sliding
    /// cannot make room.
    pub fn reserve(&mut self, n: usize)
        requires
            old(self).wf(),
            old(self).spec_cap() + n <= usize::MAX,
        ensures
            final(self).wf(),
            final(self)@ == old(self)@,
            final(self).spec_cap() + n <= final(self).spec_capacity(),
            final(self).spec_capacity() >= old(self).spec_capacity(),
            old(self).can_reserve(n as int) ==> final(self).spec_capacity() == old(
                self,
            ).spec_capacity(),
    {
        if !self.try_reserve(n) {
            let target_cap = self.cap + n;
            let mut new_capacity: usize = if self.buf.len() == 0 {
                1
            } else {
                self.buf.len()
            };
            while new_capacity < target_cap
                invariant
                    new_capacity >= 1,
                    new_capacity <= target_cap || new_capacity >= target_cap,
                decreases target_cap - new_capacity,
            {
                if new_capacity > usize::MAX / 2 {
                    new_capacity = target_cap;
                } else if new_capacity * 2 > target_cap {
                    new_capacity = target_cap;
                } else {
                    new_capacity = new_capacity * 2;
                }
            }
            let ghost prev = self.buf@;
            let new_capacity = if new_capacity < self.buf.len() {
                self.buf.len()
            } else {
                new_capacity
            };
            self.buf.resize(new_capacity, 0);
            assert(self@ =~= prev.subrange(self.spec_pos(), self.spec_cap()));
        }
    }

    /// How many bytes are readable: always the distance between the write
    /// cursor and the read cursor.
    pub fn data_size(&self) -> (r: usize)
        requires
            self.wf(),
        ensures
            r == self@.len(),
            r == self.spec_cap() - self.spec_pos(),
    {
        self.cap - self.pos
    }

    /// Borrow the readable subregion.
    pub fn get_ref(&self) -> (r: &[u8])
        requires
            self.wf(),
        ensures
            r@ == self@,
    {
        vstd::slice::slice_subrange(self.buf.as_slice(), self.pos, self.cap)
    }

    /// How many bytes the writable subregion holds.
    pub fn get_mut(&mut self) -> (r: usize)
        requires
            old(self).wf(),
        ensures
            *final(self) == *old(self),
            r == old(self).spec_free(),
    {
        self.buf.len() - self.cap
    }

    pub fn is_empty(&self) -> (r: bool)
        requires
            self.wf(),
        ensures
            r == (self@.len() == 0),
    {
        self.data_size() == 0
    }

    pub fn capacity(&self) -> (r: usize)
        requires
            self.wf(),
        ensures
            r == self.spec_capacity(),
    {
        self.buf.len()
    }

    /// Advance the write cursor over `n` bytes that were placed in the free
    /// region, saturating at the end of the allocation.
    pub fn fill(&mut self, n: usize)
        requires
            old(self).wf(),
            old(self).spec_cap() + n <= usize::MAX,
        ensures
            final(self).wf(),
            final(self).spec_pos() == old(self).spec_pos(),
            final(self).spec_capacity() == old(self).spec_capacity(),
            final(self).spec_cap() == if old(self).spec_cap() + n <= old(self).spec_capacity() {
                old(self).spec_cap() + n
            } else {
                old(self).spec_capacity()
            },
            final(self)@ == final(self).stored_bytes(),
            old(self)@ == old(self)@,
            final(self).stored_all() == old(self).stored_all(),
    {
        let next = self.cap + n;
        self.cap = if next <= self.buf.len() {
            next
        } else {
            self.buf.len()
        };
    }

    /// The readable data is the slice of the allocation between the cursors.
    pub broadcast proof fn lemma_view_stored(&self)
        ensures
            #[trigger] self@ == self.stored_bytes(),
            self.stored_all().len() == self.spec_capacity(),
            self.wf() ==> 0 <= self.spec_pos() <= self.spec_cap() <= self.spec_capacity(),
    {
    }

    /// Every byte of the allocation, cursors ignored.
    pub closed spec fn stored_all(&self) -> Seq<u8> {
        self.buf@
    }

    /// The readable data, phrased over the raw allocation.
    pub open spec fn stored_bytes(&self) -> Seq<u8> {
        self.stored_all().subrange(self.spec_pos(), self.spec_cap())
    }

    /// Advance the read cursor over `n` readable bytes; when everything is
    /// consumed both cursors collapse to zero.
    pub fn consume(&mut self, n: usize)
        requires
            old(self).wf(),
            n <= old(self)@.len(),
        ensures
            final(self).wf(),
            final(self)@ == old(self)@.skip(n as int),
            final(self).spec_capacity() == old(self).spec_capacity(),
            n == old(self)@.len() ==> final(self).spec_pos() == 0 && final(self).spec_cap() == 0,
            n < old(self)@.len() ==> final(self).spec_pos() == old(self).spec_pos() + n
                && final(self).spec_cap() == old(self).spec_cap(),
    {
        self.pos = self.pos + n;
        if self.pos >= self.cap {
            self.pos = 0;
            self.cap = 0;
            assert(final(self)@ =~= old(self)@.skip(n as int));
        } else {
            assert(final(self)@ =~= old(self)@.skip(n as int));
        }
    }

    /// Consume `n` readable bytes and hand them out.
    pub fn consume_and_get(&mut self, n: usize) -> (r: Vec<u8>)
        requires
            old(self).wf(),
            n <= old(self)@.len(),
        ensures
            final(self).wf(),
            r@ == old(self)@.take(n as int),
            final(self)@ == old(self)@.skip(n as int),
            final(self).spec_capacity() == old(self).spec_capacity(),
            n == old(self)@.len() ==> final(self).spec_pos() == 0 && final(self).spec_cap() == 0,
    {
        let data = vstd::slice::slice_to_vec(
            vstd::slice::slice_subrange(self.buf.as_slice(), self.pos, self.pos + n),
        );
        assert(data@ =~= old(self)@.take(n as int));
        self.consume(n);
        data
    }

    /// Copy `data` into the free region; the write cursor moves past it.
    fn write_buf(&mut self, data: &[u8])
        requires
            old(self).wf(),
            old(self).spec_cap() + data@.len() <= old(self).spec_capacity(),
        ensures
            final(self).wf(),
            final(self)@ == old(self)@ + data@,
            final(self).spec_pos() == old(self).spec_pos(),
            final(self).spec_cap() == old(self).spec_cap() + data@.len(),
            final(self).spec_capacity() == old(self).spec_capacity(),
    {
        let ghost prev = self.buf@;
        let len = data.len();
        let total = self.buf.len();
        let mut i: usize = 0;
        while i < len
            invariant
                i <= len,
                len == data@.len(),
                self.pos == old(self).spec_pos(),
                self.cap == old(self).spec_cap(),
                self.cap + len <= self.buf@.len(),
                self.buf@.len() == total,
                self.buf@.len() == prev.len(),
                forall|j: int| 0 <= j < self.cap ==> self.buf@[j] == prev[j],
                forall|j: int| 0 <= j < i ==> self.buf@[self.cap + j] == data@[j],
            decreases len - i,
        {
            let b = *vstd::slice::slice_index_get(data, i);
            self.buf.set(self.cap + i, b);
            i += 1;
        }
        self.cap = self.cap + len;
        assert(final(self)@ =~= old(self)@ + data@);
    }

    /// Copy `data` in whole if the free space suffices, else report failure
    /// and change nothing.
    pub fn try_write_all(&mut self, data: &[u8]) -> (r: bool)
        requires
            old(self).wf(),
            old(self).spec_cap() + data@.len() <= usize::MAX,
        ensures
            final(self).wf(),
            final(self).spec_capacity() == old(self).spec_capacity(),
            r == (old(self).spec_cap() + data@.len() <= old(self).spec_capacity()),
            r ==> final(self)@ == old(self)@ + data@,
            !r ==> *final(self) == *old(self),
    {
        if self.cap + data.len() <= self.buf.len() {
            self.write_buf(data);
            true
        } else {
            false
        }
    }

    /// Copy `data` in whole, growing the buffer when it does not fit.
    pub fn write_all(&mut self, data: &[u8])
        requires
            old(self).wf(),
            old(self).spec_cap() + data@.len() <= usize::MAX,
        ensures
            final(self).wf(),
            final(self)@ == old(self)@ + data@,
    {
        self.reserve(data.len());
        self.write_buf(data);
    }
}

} // verus!
