//! Traits and types for buffering.
use vstd::prelude::*;

use crate::buffer::init::Uninit;
use crate::error::{BufError, BufFlushError, BufferOverflow};
use crate::{Buffer, Read, Write};
pub use crate::alloc_impls::BufReaderRequire;

verus! {

/// The smaller of `amount` and `len`.
pub open spec fn clamp(amount: usize, len: nat) -> int {
    if amount <= len { amount as int } else { len as int }
}

/// `a + b`, or `usize::MAX` where the sum does not fit.
pub open spec fn saturated_sum(a: usize, b: usize) -> usize {
    if a + b > usize::MAX { usize::MAX } else { (a + b) as usize }
}

/// A size hint with both bounds raised by `extra` bytes (saturating).
pub open spec fn raised_hint(min_bytes: usize, max_bytes: Option<usize>, extra: usize) -> (usize, Option<usize>) {
    (saturated_sum(min_bytes, extra), match max_bytes {
        Some(max) => Some(saturated_sum(max, extra)),
        None => None,
    })
}

/// A `BufRead` is a type of `Read`er which has an internal buffer, allowing it to perform extra
/// ways of reading.
///
/// When it follows the pending-bytes model, its buffered bytes are the first pending ones.
pub trait BufRead: Read {
    /// The bytes held in the internal buffer.
    spec fn buffered(&self) -> Seq<u8>;

    /// Fills the internal buffer of this object if it is empty, returning the buffer contents.
    ///
    /// This function is a lower-level call. It needs to be paired with the consume() method to
    /// function properly.
    fn fill_buf(&mut self) -> (r: Result<&[u8], Self::ReadError>)
        ensures
            r matches Ok(s) ==> s@ == final(self).buffered(),
            old(self).buffered().len() > 0 ==> r is Ok && final(self).buffered() == old(self).buffered(),
            Self::obeys_read_model() ==> {
                &&& final(self).pending() == old(self).pending()
                &&& final(self).buffered().len() <= final(self).pending().len()
                &&& final(self).pending().take(final(self).buffered().len() as int) == final(self).buffered()
                &&& (r is Ok && final(self).buffered().len() == 0 ==> final(self).pending().len() == 0)
            },
    ;

    /// Tells this buffer that `amount` bytes have been consumed from the buffer, so they should no
    /// longer be returned in calls to `read`. At most the buffered bytes are consumed.
    fn consume(&mut self, amount: usize)
        ensures
            final(self).buffered() == old(self).buffered().skip(clamp(amount, old(self).buffered().len())),
            Self::obeys_read_model() ==> final(self).pending() == old(self).pending().skip(
                clamp(amount, old(self).buffered().len()),
            ),
    ;
}

impl<'a, R: BufRead> BufRead for &'a mut R {
    open spec fn buffered(&self) -> Seq<u8> {
        (**self).buffered()
    }

    fn fill_buf(&mut self) -> (r: Result<&[u8], Self::ReadError>) {
        (**self).fill_buf()
    }

    fn consume(&mut self, amount: usize) {
        (**self).consume(amount)
    }
}

impl<'a> BufRead for &'a [u8] {
    open spec fn buffered(&self) -> Seq<u8> {
        self@
    }

    fn fill_buf(&mut self) -> (r: Result<&[u8], Self::ReadError>) {
        assert(self@.take(self@.len() as int) =~= self@);
        Ok(*self)
    }

    fn consume(&mut self, amount: usize) {
        let amount = if amount > self.len() { self.len() } else { amount };
        let buf = *self;
        *self = vstd::slice::slice_subrange(buf, amount, buf.len());
    }
}

/// `BufRead` with a guarantee that successive calls of `fill_progress` hold more and more bytes
/// (or fail).
pub trait BufReadProgress: BufRead {
    /// Error that occurs in buffer itself. Most often if buffer is out of memory.
    type BufReadError;

    /// Fills the internal buffer so that it holds more bytes than before.
    fn fill_progress(&mut self) -> (r: Result<&[u8], BufError<Self::BufReadError, Self::ReadError>>)
        ensures
            r matches Ok(s) ==> s@ == final(self).buffered() && (old(self).buffered().len() < usize::MAX
                ==> s@.len() > old(self).buffered().len()),
            r matches Ok(s) ==> s@.take(old(self).buffered().len() as int) == old(self).buffered(),
            Self::obeys_read_model() ==> {
                &&& final(self).pending() == old(self).pending()
                &&& (r matches Err(BufError::End) ==> old(self).pending().len() <= old(self).buffered().len())
            },
    ;
}

/// `BufRead` that can fill its buffer until it holds a required number of bytes.
pub trait BufReadRequire: BufRead {
    /// Error that occurs in buffer itself. Most often if buffer is out of memory.
    type BufReadError;

    /// Fill the buffer until at least `amount` bytes are available.
    fn require_bytes(&mut self, amount: usize) -> (r: Result<&[u8], BufError<Self::BufReadError, Self::ReadError>>)
        ensures
            r matches Ok(s) ==> s@ == final(self).buffered() && s@.len() >= amount,
            r matches Ok(s) ==> s@.take(old(self).buffered().len() as int) == old(self).buffered(),
            amount <= old(self).buffered().len() ==> {
                &&& r matches Ok(s) && s@ == old(self).buffered()
                &&& final(self).buffered() == old(self).buffered()
            },
            Self::obeys_read_model() ==> {
                &&& final(self).pending() == old(self).pending()
                &&& (r matches Err(BufError::End) ==> old(self).pending().len() < amount)
            },
    ;
}

impl<'a> BufReadRequire for &'a [u8] {
    type BufReadError = core::convert::Infallible;

    fn require_bytes(&mut self, amount: usize) -> (r: Result<&[u8], BufError<Self::BufReadError, Self::ReadError>>)
        ensures
            (r is Ok) == (amount <= old(self)@.len()),
            r is Err ==> r->Err_0 is End,
    {
        if amount <= self.len() {
            Ok(*self)
        } else {
            Err(BufError::End)
        }
    }
}

/// When writing, it might be better to serialize directly into a buffer. This trait allows such
/// situation: the writer hands out its free space, and is told afterwards how much of it was
/// filled.
pub trait BufWrite: Write {
    /// The free space the writer hands out.
    spec fn spare(&self) -> Seq<u8>;

    /// Requests buffer for writing.
    ///
    /// The returned slice is never empty; if the writer cannot provide space, it fails. A writer
    /// that already has spare space hands it out without failing. Bytes stored in the slice
    /// become the writer's spare space.
    fn request_buffer(&mut self) -> (r: Result<&mut [u8], Self::WriteError>)
        ensures
            r is Ok ==> r->Ok_0@.len() > 0 && final(self).spare() == final(r->Ok_0)@,
            old(self).spare().len() > 0 ==> r is Ok,
    ;

    /// Tells the buf writer that `size` bytes were written into the buffer.
    ///
    /// `size` must not exceed the spare space.
    fn submit_buffer(&mut self, size: usize)
        requires
            size <= old(self).spare().len(),
        ensures
            Self::obeys_write_model() ==> final(self).output() == old(self).output() + old(self).spare().take(size as int),
    ;

    /// Writes single byte. Since this is buffered, the operation will be efficient.
    fn write_byte(&mut self, byte: u8) -> (r: Result<(), Self::WriteError>)
        ensures
            Self::write_infallible() ==> r is Ok,
            Self::obeys_write_model() && r is Ok ==> final(self).output() == old(self).output() + seq![byte],
    {
        let one = vec![byte];
        match self.write(one.as_slice()) {
            Ok(_) => {
                assert(one@.take(1) =~= seq![byte]);
                Ok(())
            },
            Err(e) => Err(e),
        }
    }
}

/// This trait allows requiring buffer of specified size.
pub trait BufWriteRequire: BufWrite {
    /// Indicates error in buffer. Most often caused by size being too large but it might be also
    /// a write error, if buf writer tried to flush buffer.
    type BufWriteError;

    /// Requires a buffer of at least `size` bytes.
    fn require_buffer(&mut self, size: usize) -> (r: Result<&mut [u8], Self::BufWriteError>)
        ensures
            r is Ok ==> r->Ok_0@.len() >= size && final(self).spare() == final(r->Ok_0)@,
    ;
}

impl<'a, W: BufWrite> BufWrite for &'a mut W {
    open spec fn spare(&self) -> Seq<u8> {
        (**self).spare()
    }

    fn request_buffer(&mut self) -> (r: Result<&mut [u8], Self::WriteError>) {
        (**self).request_buffer()
    }

    fn submit_buffer(&mut self, size: usize) {
        (**self).submit_buffer(size)
    }
}

impl<'a> BufWrite for &'a mut [u8] {
    open spec fn spare(&self) -> Seq<u8> {
        self@
    }

    fn request_buffer(&mut self) -> (r: Result<&mut [u8], Self::WriteError>)
        ensures
            (r is Err) == (old(self)@.len() == 0),
    {
        if self.len() == 0 {
            Err(BufferOverflow)
        } else {
            Ok(&mut **self)
        }
    }

    fn submit_buffer(&mut self, size: usize)
        ensures
            final(self)@ == old(self)@.skip(size as int),
            final(*old(self))@ == old(self)@.take(size as int) + final(*final(self))@,
    {
        let mut whole: &'a mut [u8] = &mut [];
        core::mem::swap(&mut whole, self);
        let (_, rest) = whole.split_at_mut(size);
        *self = rest;
    }
}

/// Wrapper that provides buffering for a writer.
pub struct BufWriter<W> {
    writer: W,
    buffer: Buffer<Uninit>,
    write_pos: usize,
}

impl<W> BufWriter<W> {
    /// The wrapped writer.
    pub closed spec fn inner(&self) -> W {
        self.writer
    }

    /// The bytes written into the buffer but not yet passed to the wrapped writer.
    pub closed spec fn unflushed(&self) -> Seq<u8> {
        if self.buffer.wf() && self.write_pos <= self.buffer.out_view().pos() {
            self.buffer.written_view().skip(self.write_pos as int)
        } else {
            Seq::empty()
        }
    }

    /// The space after the written part of the buffer.
    pub closed spec fn free_space(&self) -> Seq<u8> {
        if self.buffer.out_view().pos() <= self.buffer.out_view().cap() {
            self.buffer.out_view().storage().skip(self.buffer.out_view().pos() as int)
        } else {
            Seq::empty()
        }
    }

    /// The number of bytes the buffer can hold.
    pub closed spec fn buffer_capacity(&self) -> nat {
        self.buffer.out_view().cap()
    }

    /// Well-formedness: a well-formed, non-empty buffer whose flushed part lies within its
    /// written part.
    pub closed spec fn wf(&self) -> bool {
        &&& self.buffer.wf()
        &&& self.buffer.out_view().cap() > 0
        &&& self.write_pos <= self.buffer.out_view().pos()
    }
}

impl<W: Write> BufWriter<W> {
    /// Creates buffered writer using `storage` as the buffer, which must not be empty.
    pub fn new(writer: W, storage: Vec<u8>) -> (r: Self)
        requires
            storage@.len() > 0,
        ensures
            r.wf(),
            r.inner() == writer,
            r.unflushed().len() == 0,
            r.buffer_capacity() == storage@.len(),
            r.all_output() == writer.output(),
    {
        let buffer = Buffer::new(storage);
        let r = BufWriter { writer, buffer, write_pos: 0 };
        assert(r.unflushed() =~= Seq::<u8>::empty());
        assert(r.all_output() =~= writer.output());
        r
    }

    /// What the writer holds in all: the output of the wrapped writer and the unflushed bytes.
    pub open spec fn all_output(&self) -> Seq<u8> {
        self.inner().output() + self.unflushed()
    }

    /// Brings the fields into their well-formed ranges; on a well-formed writer it does nothing.
    fn normalize(&mut self)
        ensures
            final(self).wf(),
            final(self).inner() == old(self).inner(),
            final(self).unflushed() == old(self).unflushed(),
            old(self).wf() ==> *final(self) == *old(self),
            old(self).free_space().len() > 0 ==> final(self).buffer.out_view().room() > 0,
    {
        if !self.buffer.is_wf() || self.buffer.capacity() == 0 {
            let size = if self.buffer.capacity() == 0 { 1 } else { self.buffer.capacity() };
            self.buffer = Buffer::new(vec![0u8; size]);
            self.write_pos = 0;
            assert(self.unflushed() =~= Seq::<u8>::empty());
        } else if self.write_pos > self.buffer.position() {
            self.write_pos = self.buffer.position();
            assert(self.unflushed() =~= Seq::<u8>::empty());
        }
    }

    /// Passes all unflushed bytes to the wrapped writer.
    fn flush_buffer(&mut self) -> (r: Result<(), W::WriteError>)
        ensures
            final(self).wf(),
            final(self).buffer_capacity() == old(self).buffer_capacity() || !old(self).wf(),
            r is Ok ==> final(self).unflushed().len() == 0 && final(self).buffer.out_view().pos() == 0,
            W::write_infallible() || old(self).unflushed().len() == 0 ==> r is Ok,
            W::obeys_write_model() ==> final(self).all_output() == old(self).all_output(),
    {
        self.normalize();
        let ghost nothing_to_flush = self.unflushed().len() == 0;
        while self.write_pos < self.buffer.position()
            invariant
                self.wf(),
                nothing_to_flush == (old(self).unflushed().len() == 0),
                nothing_to_flush ==> self.unflushed().len() == 0,
                self.buffer_capacity() == old(self).buffer_capacity() || !old(self).wf(),
                W::obeys_write_model() ==> self.all_output() == old(self).all_output(),
            decreases self.buffer.out_view().pos() - self.write_pos,
        {
            let ghost before = *self;
            assert(self.unflushed().len() == self.buffer.out_view().pos() - self.write_pos);
            let to_flush = vstd::slice::slice_subrange(self.buffer.written(), self.write_pos, self.buffer.position());
            match self.writer.write(to_flush) {
                Ok(n) => {
                    self.write_pos = self.write_pos + n;
                    proof {
                        if W::obeys_write_model() {
                            assert(before.unflushed() =~= to_flush@);
                            assert(self.unflushed() =~= to_flush@.skip(n as int));
                            assert(self.all_output() =~= before.all_output());
                        }
                    }
                },
                Err(e) => {
                    return Err(e);
                },
            }
        }
        self.write_pos = 0;
        self.buffer.reset();
        assert(self.unflushed() =~= Seq::<u8>::empty());
        Ok(())
    }

    /// Flushes the buffer if it has no room left.
    fn flush_if_full(&mut self) -> (r: Result<(), W::WriteError>)
        ensures
            final(self).wf(),
            final(self).buffer_capacity() == old(self).buffer_capacity() || !old(self).wf(),
            r is Ok ==> final(self).buffer.out_view().room() > 0,
            W::write_infallible() || old(self).free_space().len() > 0 ==> r is Ok,
            W::obeys_write_model() ==> final(self).all_output() == old(self).all_output(),
    {
        self.normalize();
        if self.buffer.as_out().is_full() {
            self.flush_buffer()
        } else {
            Ok(())
        }
    }
}

impl<W: Write> Write for BufWriter<W> {
    type WriteError = W::WriteError;
    type FlushError = BufFlushError<W::WriteError, W::FlushError>;

    open spec fn obeys_write_model() -> bool {
        W::obeys_write_model()
    }

    open spec fn output(&self) -> Seq<u8> {
        self.all_output()
    }

    open spec fn write_infallible() -> bool {
        W::write_infallible()
    }

    open spec fn flush_infallible() -> bool {
        W::write_infallible() && W::flush_infallible()
    }

    open spec fn size_hint_effect(&self, after: &Self, min_bytes: usize, max_bytes: Option<usize>) -> bool {
        let hint = raised_hint(min_bytes, max_bytes, self.unflushed().len() as usize);
        &&& W::size_hint_effect(&self.inner(), &after.inner(), hint.0, hint.1)
        &&& after.unflushed() == self.unflushed()
    }

    fn write(&mut self, data: &[u8]) -> (r: Result<usize, Self::WriteError>)
        ensures
            old(self).wf() && old(self).free_space().len() > 0 ==> (r matches Ok(n) && n == (
            if data@.len() <= old(self).free_space().len() {
                data@.len() as int
            } else {
                old(self).free_space().len() as int
            })),
    {
        assert(Self::write_infallible() == W::write_infallible());
        self.normalize();
        if self.buffer.as_out().is_full() {
            match self.flush_buffer() {
                Ok(()) => {},
                Err(e) => {
                    return Err(e);
                },
            }
            if data.len() >= self.buffer.capacity() {
                let ghost before = *self;
                let r = self.writer.write(data);
                proof {
                    if W::obeys_write_model() {
                        if r is Ok {
                            assert(self.all_output() =~= before.all_output() + data@.take(r->Ok_0 as int));
                        }
                    }
                }
                return r;
            }
        }
        let ghost before = *self;
        let n = self.buffer.as_out().write_slice_min(data);
        proof {
            assert(self.unflushed() =~= before.unflushed() + data@.take(n as int));
        }
        Ok(n)
    }

    /// Passes all buffered bytes on to the wrapped writer, and then flushes it.
    fn flush(&mut self) -> (r: Result<(), Self::FlushError>)
        ensures
            !(r matches Err(BufFlushError::Write(_))) ==> final(self).unflushed().len() == 0,
            old(self).unflushed().len() == 0 ==> !(r matches Err(BufFlushError::Write(_))),
            W::flush_infallible() ==> !(r matches Err(BufFlushError::Flush(_))),
            W::obeys_write_model() && !(r matches Err(BufFlushError::Write(_))) ==> final(self).inner().output()
                == old(self).all_output(),
    {
        assert(Self::flush_infallible() == (W::write_infallible() && W::flush_infallible()));
        match self.flush_buffer() {
            Ok(()) => {},
            Err(e) => {
                return Err(BufFlushError::Write(e));
            },
        }
        proof {
            assert(self.inner().output() + self.unflushed() =~= self.inner().output());
        }
        match self.writer.flush() {
            Ok(()) => Ok(()),
            Err(e) => Err(BufFlushError::Flush(e)),
        }
    }

    fn size_hint(&mut self, min_bytes: usize, max_bytes: Option<usize>) {
        self.normalize();
        let pending = self.buffer.position() - self.write_pos;
        let min = min_bytes.saturating_add(pending);
        let max = match max_bytes {
            Some(max) => Some(max.saturating_add(pending)),
            None => None,
        };
        assert(pending == old(self).unflushed().len());
        assert((min, max) == raised_hint(min_bytes, max_bytes, pending));
        self.writer.size_hint(min, max);
        assert(Self::size_hint_effect(&*old(self), &*self, min_bytes, max_bytes));
    }

    fn uses_size_hint(&self) -> (r: bool) {
        self.writer.uses_size_hint()
    }
}

impl<W: Write> BufWrite for BufWriter<W> {
    open spec fn spare(&self) -> Seq<u8> {
        self.free_space()
    }

    fn request_buffer(&mut self) -> (r: Result<&mut [u8], Self::WriteError>)
        ensures
            W::write_infallible() ==> r is Ok,
    {
        match self.flush_if_full() {
            Ok(()) => {},
            Err(e) => {
                return Err(e);
            },
        }
        Ok(self.buffer.out_bytes())
    }

    fn submit_buffer(&mut self, size: usize) {
        if self.buffer.is_wf() {
            if self.write_pos > self.buffer.position() {
                self.write_pos = self.buffer.position();
                assert(self.unflushed() =~= Seq::<u8>::empty());
            }
            let ghost before = *self;
            self.buffer.as_out().advance_unchecked(size);
            proof {
                assert(self.unflushed() =~= before.unflushed() + before.free_space().take(size as int));
                assert(self.all_output() =~= old(self).all_output() + old(self).free_space().take(size as int));
            }
        } else {
            let _ = self.buffer.capacity();
            assert(old(self).free_space().take(0) =~= Seq::<u8>::empty());
            assert(self.all_output() + old(self).free_space().take(size as int) =~= self.all_output());
        }
    }
}

} // verus!
