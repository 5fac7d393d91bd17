//! A buffered non-blocking writer over any byte sink: exact writes that
//! either land in the buffer or report suspension, and explicit flushing.
//! What leaves the buffer leaves in order, and suspension loses nothing.

use vstd::prelude::*;

use crate::buf::AsyncBuf;
use crate::{Async, IoErrorKind};

verus! {

/// What one write to the underlying sink came to.
enum WriteOutcome {
    /// The sink took this many bytes from the front of what was offered.
    Wrote(usize),
    /// The sink cannot take anything yet.
    WouldBlock,
    /// The sink failed.
    Failed(IoErrorKind),
}

/// What one flush of the underlying sink came to.
enum FlushOutcome {
    /// Everything previously written has left the sink.
    Flushed,
    /// The sink cannot flush yet.
    WouldBlock,
    /// The sink failed.
    Failed(IoErrorKind),
}

/// Relies on std::io::Write::write: offers `data` once and reports how many
/// of its first bytes the sink took, which its contract bounds by the length
/// offered; a WouldBlock error becomes its own case.
#[verifier::external_body]
fn write_once<W: std::io::Write>(inner: &mut W, data: &[u8]) -> (r: WriteOutcome)
    ensures
        r matches WriteOutcome::Wrote(n) ==> n <= data@.len(),
{
    match inner.write(data) {
        Ok(n) => WriteOutcome::Wrote(n),
        Err(e) => match e.kind() {
            std::io::ErrorKind::WouldBlock => WriteOutcome::WouldBlock,
            std::io::ErrorKind::UnexpectedEof => WriteOutcome::Failed(IoErrorKind::UnexpectedEof),
            _ => WriteOutcome::Failed(IoErrorKind::Other),
        },
    }
}

/// Relies on std::io::Write::flush: pushes what the sink holds onwards; a
/// WouldBlock error becomes its own case.
#[verifier::external_body]
fn flush_once<W: std::io::Write>(inner: &mut W) -> (r: FlushOutcome)
    ensures
        r is Flushed || r is WouldBlock || r is Failed,
{
    match inner.flush() {
        Ok(()) => FlushOutcome::Flushed,
        Err(e) => match e.kind() {
            std::io::ErrorKind::WouldBlock => FlushOutcome::WouldBlock,
            std::io::ErrorKind::UnexpectedEof => FlushOutcome::Failed(IoErrorKind::UnexpectedEof),
            _ => FlushOutcome::Failed(IoErrorKind::Other),
        },
    }
}

/// Wraps a non-blocking byte sink in an `AsyncBuf`.
#[derive(Debug)]
pub struct AsyncBufWriter<W> {
    inner: W,
    buf: AsyncBuf,
}

/// Flushing failed while the writer was being taken apart; the writer comes
/// back with the failure.
#[derive(Debug)]
pub struct IntoInnerError<W>(W, IoErrorKind);

impl<W> View for AsyncBufWriter<W> {
    type V = Seq<u8>;

    /// The bytes accepted and not yet offered to the sink.
    closed spec fn view(&self) -> Seq<u8> {
        self.buf@
    }
}

impl<W> AsyncBufWriter<W> {
    pub closed spec fn wf(&self) -> bool {
        self.buf.wf()
    }

    /// The buffer's write cursor, which bounds what one more write may ask.
    pub closed spec fn spec_cap(&self) -> int {
        self.buf.spec_cap()
    }

    /// The buffer's allocation size.
    pub closed spec fn spec_capacity(&self) -> int {
        self.buf.spec_capacity()
    }

    pub fn new(inner: W) -> (r: AsyncBufWriter<W>)
        ensures
            r.wf(),
            r@ == Seq::<u8>::empty(),
    {
        AsyncBufWriter { inner, buf: AsyncBuf::new() }
    }

    pub fn with_capacity(capacity: usize, inner: W) -> (r: AsyncBufWriter<W>)
        ensures
            r.wf(),
            r@ == Seq::<u8>::empty(),
            r.spec_capacity() == capacity,
    {
        AsyncBufWriter { inner, buf: AsyncBuf::with_capacity(capacity) }
    }
}

impl<W: std::io::Write> AsyncBufWriter<W> {
    /// Offer the buffered bytes to the sink once; what it takes leaves the
    /// buffer, front first, and Ready means the buffer drained whole.
    pub fn nb_flush_buf(&mut self) -> (r: Result<Async<()>, IoErrorKind>)
        requires
            old(self).wf(),
        ensures
            final(self).wf(),
            final(self).spec_capacity() == old(self).spec_capacity(),
            final(self).spec_cap() <= old(self).spec_cap(),
            r matches Ok(a) ==> exists|k: int|
                0 <= k <= old(self)@.len() && final(self)@ == old(self)@.skip(k) && (a is Ready
                    <==> final(self)@.len() == 0),
            r is Err ==> final(self)@ == old(self)@,
    {
        broadcast use crate::buf::AsyncBuf::lemma_view_stored;

        let outcome = write_once(&mut self.inner, self.buf.get_ref());
        match outcome {
            WriteOutcome::WouldBlock => {
                assert(self@ =~= old(self)@.skip(0));
                if self.buf.is_empty() {
                    Ok(Async::Ready(()))
                } else {
                    Ok(Async::NotReady)
                }
            },
            WriteOutcome::Failed(k) => Err(k),
            WriteOutcome::Wrote(amt) => {
                self.buf.consume(amt);
                assert(self@ =~= old(self)@.skip(amt as int));
                if self.buf.is_empty() {
                    Ok(Async::Ready(()))
                } else {
                    Ok(Async::NotReady)
                }
            },
        }
    }

    /// Drain the buffer, then flush the sink itself; Ready only when both
    /// are through.
    pub fn nb_flush(&mut self) -> (r: Result<Async<()>, IoErrorKind>)
        requires
            old(self).wf(),
        ensures
            final(self).wf(),
            exists|k: int| 0 <= k <= old(self)@.len() && final(self)@ == old(self)@.skip(k),
            r matches Ok(Async::Ready(())) ==> final(self)@.len() == 0,
    {
        if !self.buf.is_empty() {
            match self.nb_flush_buf() {
                Err(k) => {
                    assert(self@ == old(self)@.skip(0));
                    return Err(k);
                },
                Ok(Async::NotReady) => {
                    return Ok(Async::NotReady);
                },
                Ok(Async::Ready(())) => {},
            }
        } else {
            assert(self@ == old(self)@.skip(0));
        }
        proof {
            assert(exists|k: int| 0 <= k <= old(self)@.len() && self@ == old(self)@.skip(k));
        }
        match flush_once(&mut self.inner) {
            FlushOutcome::Flushed => Ok(Async::Ready(())),
            FlushOutcome::WouldBlock => Ok(Async::NotReady),
            FlushOutcome::Failed(k) => Err(k),
        }
    }

    /// Accept `data` in whole, or report suspension and accept nothing: if
    /// it can ever fit the buffer, it is buffered after a drain; if it is
    /// larger than the buffer, the drained sink takes it directly and the
    /// unwritten tail is absorbed into the buffer.
    pub fn nb_write_exact(&mut self, data: &[u8]) -> (r: Result<Async<()>, IoErrorKind>)
        requires
            old(self).wf(),
        ensures
            final(self).wf(),
            r matches Ok(Async::Ready(())) ==> exists|k: int, m: int|
                0 <= k <= old(self)@.len() && 0 <= m <= data@.len() && final(self)@ == old(
                    self,
                )@.skip(k) + data@.skip(m) && (m > 0 ==> k == old(self)@.len()),
            r matches Ok(Async::NotReady) ==> exists|k: int|
                0 <= k <= old(self)@.len() && final(self)@ == old(self)@.skip(k),
            r is Err ==> exists|k: int|
                0 <= k <= old(self)@.len() && final(self)@ == old(self)@.skip(k),
    {
        broadcast use crate::buf::AsyncBuf::lemma_view_stored;

        if data.len() > usize::MAX - self.buf.capacity() {
            assert(self@ == old(self)@.skip(0));
            return Err(IoErrorKind::Other);
        }
        if data.len() > self.buf.capacity() {
            if !self.buf.is_empty() {
                match self.nb_flush_buf() {
                    Err(k) => {
                        assert(self@ == old(self)@.skip(0));
                        return Err(k);
                    },
                    Ok(Async::NotReady) => {
                        return Ok(Async::NotReady);
                    },
                    Ok(Async::Ready(())) => {},
                }
            }
            match write_once(&mut self.inner, data) {
                WriteOutcome::Wrote(amt) => {
                    let rest = vstd::slice::slice_subrange(data, amt, data.len());
                    self.buf.write_all(rest);
                    proof {
                        assert(self@ =~= old(self)@.skip(old(self)@.len() as int) + data@.skip(
                            amt as int,
                        ));
                    }
                    Ok(Async::Ready(()))
                },
                WriteOutcome::WouldBlock => Ok(Async::NotReady),
                WriteOutcome::Failed(k) => Err(k),
            }
        } else {
            proof {
                self.buf.lemma_view_stored();
            }
            if self.buf.try_write_all(data) {
                proof {
                    assert(self@ =~= old(self)@.skip(0) + data@.skip(0));
                }
                Ok(Async::Ready(()))
            } else {
                match self.nb_flush_buf() {
                    Err(k) => {
                        assert(self@ == old(self)@.skip(0));
                        Err(k)
                    },
                    Ok(Async::NotReady) => Ok(Async::NotReady),
                    Ok(Async::Ready(())) => {
                        proof {
                            self.buf.lemma_view_stored();
                        }
                        if self.buf.try_write_all(data) {
                            proof {
                                assert(self@ =~= old(self)@.skip(old(self)@.len() as int)
                                    + data@.skip(0));
                            }
                            Ok(Async::Ready(()))
                        } else {
                            Ok(Async::NotReady)
                        }
                    },
                }
            }
        }
    }

    /// Flush everything and hand the sink back; while something cannot leave
    /// yet, the writer and its buffered bytes are given up.
    pub fn nb_into_inner(self) -> (r: Result<Async<W>, IntoInnerError<AsyncBufWriter<W>>>)
        requires
            self.wf(),
    {
        let mut this = self;
        match this.nb_flush() {
            Ok(Async::NotReady) => Ok(Async::NotReady),
            Ok(Async::Ready(())) => Ok(Async::Ready(this.inner)),
            Err(e) => Err(IntoInnerError(this, e)),
        }
    }
}

} // verus!
