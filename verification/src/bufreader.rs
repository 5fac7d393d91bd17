//! A buffered non-blocking reader over any byte source: exact-length reads
//! and delimiter reads that suspend instead of blocking, and lose nothing
//! when they suspend.

use vstd::prelude::*;

use crate::buf::AsyncBuf;
use crate::{Async, IoErrorKind};

verus! {

/// What one read from the underlying source came to.
enum ReadOutcome {
    /// The source handed over this many bytes; zero means end of stream.
    Data(usize),
    /// The source has nothing yet.
    WouldBlock,
    /// The source failed.
    Failed(IoErrorKind),
}

/// Relies on std::io::Read::read: reads once into the buffer's free region
/// and reports how many bytes came, zero meaning end of stream; the cursors,
/// the readable data, and the allocation size stay as they were, and a
/// WouldBlock error becomes its own case.
#[verifier::external_body]
fn read_once<R: std::io::Read>(inner: &mut R, buf: &mut AsyncBuf) -> (r: ReadOutcome)
    requires
        old(buf).wf(),
    ensures
        final(buf).wf(),
        final(buf).spec_pos() == old(buf).spec_pos(),
        final(buf).spec_cap() == old(buf).spec_cap(),
        final(buf).spec_capacity() == old(buf).spec_capacity(),
        final(buf)@ == old(buf)@,
        r matches ReadOutcome::Data(n) ==> n <= old(buf).spec_free(),
        r matches ReadOutcome::Failed(k) ==> k != IoErrorKind::InvalidData,
{
    match inner.read(&mut buf.buf[buf.cap..]) {
        Ok(n) => ReadOutcome::Data(n),
        Err(e) => match e.kind() {
            std::io::ErrorKind::WouldBlock => ReadOutcome::WouldBlock,
            std::io::ErrorKind::UnexpectedEof => ReadOutcome::Failed(IoErrorKind::UnexpectedEof),
            _ => ReadOutcome::Failed(IoErrorKind::Other),
        },
    }
}

/// Find the first occurrence of a byte.
fn find_first(s: &[u8], b: u8) -> (r: Option<usize>)
    ensures
        r matches Some(i) ==> i < s@.len() && s@[i as int] == b && forall|j: int|
            0 <= j < i ==> s@[j] != b,
        r is None ==> forall|j: int| 0 <= j < s@.len() ==> s@[j] != b,
{
    let mut i: usize = 0;
    let n = s.len();
    while i < n
        invariant
            i <= n,
            n == s@.len(),
            forall|j: int| 0 <= j < i ==> s@[j] != b,
        decreases n - i,
    {
        if *vstd::slice::slice_index_get(s, i) == b {
            return Some(i);
        }
        i += 1;
    }
    None
}

/// Wraps a non-blocking byte source in an `AsyncBuf`.
pub struct AsyncBufReader<R> {
    inner: R,
    buf: AsyncBuf,
}

impl<R> View for AsyncBufReader<R> {
    type V = Seq<u8>;

    /// The bytes read from the source and not yet handed out.
    closed spec fn view(&self) -> Seq<u8> {
        self.buf@
    }
}

impl<R> AsyncBufReader<R> {
    pub closed spec fn wf(&self) -> bool {
        self.buf.wf()
    }

    /// The buffer's write cursor, which bounds what a reserve may ask for.
    pub closed spec fn spec_cap(&self) -> int {
        self.buf.spec_cap()
    }

    pub fn new(inner: R) -> (r: AsyncBufReader<R>)
        ensures
            r.wf(),
            r@ == Seq::<u8>::empty(),
    {
        AsyncBufReader { inner, buf: AsyncBuf::new() }
    }

    pub fn with_capacity(capacity: usize, inner: R) -> (r: AsyncBufReader<R>)
        ensures
            r.wf(),
            r@ == Seq::<u8>::empty(),
    {
        AsyncBufReader { inner, buf: AsyncBuf::with_capacity(capacity) }
    }
}

impl<R: std::io::Read> AsyncBufReader<R> {
    /// One read from the source into the buffer; a read of nothing is an
    /// error, since the callers still wait for data.
    #[verifier::rlimit(50)]
    fn fill_buf_no_eof(&mut self) -> (r: Result<Async<()>, IoErrorKind>)
        requires
            old(self).wf(),
        ensures
            final(self).wf(),
            final(self).spec_cap() >= old(self).spec_cap(),
            r matches Ok(a) ==> exists|fresh: Seq<u8>|
                final(self)@ == old(self)@ + fresh && (a is NotReady ==> fresh.len() == 0),
            r is Err ==> final(self)@ == old(self)@,
            r matches Err(k) ==> k != IoErrorKind::InvalidData,
    {
        broadcast use crate::buf::AsyncBuf::lemma_view_stored;

        let total = self.buf.capacity();
        match read_once(&mut self.inner, &mut self.buf) {
            ReadOutcome::WouldBlock => {
                assert(final(self)@ =~= old(self)@ + Seq::<u8>::empty());
                Ok(Async::NotReady)
            },
            ReadOutcome::Failed(k) => Err(k),
            ReadOutcome::Data(n) => {
                if n == 0 {
                    return Err(IoErrorKind::UnexpectedEof);
                }
                let ghost pos = self.buf.spec_pos();
                let ghost cap = self.buf.spec_cap();
                let ghost stored = self.buf.stored_all();
                self.buf.fill(n);
                proof {
                    let fresh = stored.subrange(cap, cap + n);
                    assert(self.buf@ =~= stored.subrange(pos, cap) + fresh);
                }
                Ok(Async::Ready(()))
            },
        }
    }

    /// Hand out exactly `n` bytes once they are buffered; suspend, keeping
    /// everything, while they are not.  The source is read at most once per
    /// call, and never more than `n` bytes leave the buffer.
    pub fn nb_read_exact(&mut self, n: usize) -> (r: Result<Async<Vec<u8>>, IoErrorKind>)
        requires
            old(self).wf(),
        ensures
            final(self).wf(),
            r matches Ok(Async::Ready(v)) ==> v@.len() == n && exists|fresh: Seq<u8>|
                old(self)@ + fresh == v@ + final(self)@,
            old(self)@.len() >= n ==> (r matches Ok(Async::Ready(v)) && v@ == old(self)@.take(
                n as int,
            ) && final(self)@ == old(self)@.skip(n as int)),
            r matches Ok(Async::NotReady) ==> final(self)@.len() < n && exists|fresh: Seq<u8>|
                final(self)@ == old(self)@ + fresh,
            r is Err ==> final(self)@ == old(self)@,
    {
        broadcast use crate::buf::AsyncBuf::lemma_view_stored;

        if self.buf.data_size() >= n {
            let v = self.buf.consume_and_get(n);
            proof {
                assert(old(self)@ + Seq::<u8>::empty() =~= v@ + final(self)@);
            }
            return Ok(Async::Ready(v));
        }
        if n > usize::MAX - self.buf.capacity() {
            return Err(IoErrorKind::Other);
        }
        self.buf.reserve(n);
        match self.fill_buf_no_eof() {
            Err(k) => Err(k),
            Ok(Async::NotReady) => Ok(Async::NotReady),
            Ok(Async::Ready(())) => {
                if self.buf.data_size() < n {
                    Ok(Async::NotReady)
                } else {
                    let ghost grown = self.buf@;
                    let v = self.buf.consume_and_get(n);
                    proof {
                        let fresh = choose|fresh: Seq<u8>| grown == old(self)@ + fresh;
                        assert(old(self)@ + fresh =~= v@ + final(self)@);
                    }
                    Ok(Async::Ready(v))
                }
            },
        }
    }

    /// Hand out the bytes up to, and consume including, the first occurrence
    /// of `byte`; suspend while it has not arrived and fewer than `limit`
    /// bytes are buffered, fail with `InvalidData` once the limit is
    /// reached without it.
    pub fn nb_read_until(&mut self, byte: u8, limit: usize) -> (r: Result<
        Async<Vec<u8>>,
        IoErrorKind,
    >)
        requires
            old(self).wf(),
        ensures
            final(self).wf(),
            r matches Ok(Async::Ready(v)) ==> !v@.contains(byte) && exists|fresh: Seq<u8>|
                old(self)@ + fresh == v@ + seq![byte] + final(self)@,
            r matches Ok(Async::NotReady) ==> !final(self)@.contains(byte) && final(self)@.len()
                < limit && exists|fresh: Seq<u8>| final(self)@ == old(self)@ + fresh,
            r == Err::<Async<Vec<u8>>, IoErrorKind>(IoErrorKind::InvalidData)
                ==> !final(self)@.contains(byte) && final(self)@.len() >= limit,
            r matches Err(k) && k != IoErrorKind::InvalidData ==> final(self)@ == old(self)@,
    {
        broadcast use crate::buf::AsyncBuf::lemma_view_stored;

        let pre = self.buf.get_ref();
        let found = find_first(pre, byte);
        match found {
            Some(idx) => {
                let v = self.buf.consume_and_get(idx);
                self.buf.consume(1);
                proof {
                    assert(old(self)@ + Seq::<u8>::empty() =~= v@ + seq![byte] + final(self)@);
                }
                return Ok(Async::Ready(v));
            },
            None => {},
        }
        if self.buf.data_size() >= limit {
            return Err(IoErrorKind::InvalidData);
        }
        if limit > usize::MAX - self.buf.capacity() {
            return Err(IoErrorKind::Other);
        }
        self.buf.reserve(limit);
        match self.fill_buf_no_eof() {
            Err(k) => Err(k),
            Ok(Async::NotReady) => Ok(Async::NotReady),
            Ok(Async::Ready(())) => {
                let ghost grown = self.buf@;
                let now = self.buf.get_ref();
                let found2 = find_first(now, byte);
                match found2 {
                    Some(idx) => {
                        let v = self.buf.consume_and_get(idx);
                        self.buf.consume(1);
                        proof {
                            let fresh = choose|fresh: Seq<u8>| grown == old(self)@ + fresh;
                            assert(old(self)@ + fresh =~= v@ + seq![byte] + final(self)@);
                        }
                        Ok(Async::Ready(v))
                    },
                    None => {
                        if self.buf.data_size() < limit {
                            Ok(Async::NotReady)
                        } else {
                            Err(IoErrorKind::InvalidData)
                        }
                    },
                }
            },
        }
    }
}

} // verus!
