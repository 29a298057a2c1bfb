//! Implementations for `Vec<u8>` and the buffered reader that owns a growable buffer.
use vstd::prelude::*;

use crate::buffer;
use crate::buffer::vec_capacity;
use crate::buffer::init::Uninit;
use crate::bufio::{BufRead, BufReadProgress, BufReadRequire, clamp};
use crate::error::{BufError, ExtendError};
use crate::{ExtendFromReader, OutBuf, Read, Write, read_effect};

verus! {

/// Error returned when memory for a buffer could not be reserved.
///
/// A reservation that fails is skipped (the buffer then grows when bytes are appended), so no
/// value of this error is ever made.
#[derive(Debug)]
pub struct AllocError(core::convert::Infallible);

/// `Vec::try_reserve_exact`: tries to reserve room for exactly `additional` more bytes. When the
/// capacity would overflow or the allocator fails it returns an error instead of panicking; the
/// contents stay the same either way.
#[verifier::external_body]
fn vec_try_reserve_exact(vec: &mut Vec<u8>, additional: usize) -> (r: Result<(), std::collections::TryReserveError>)
    ensures
        final(vec)@ == old(vec)@,
{
    vec.try_reserve_exact(additional)
}

/// Reserves room for `required` more bytes where that can be done; a failed reservation is
/// skipped.
fn try_reserve(vec: &mut Vec<u8>, required: usize) -> (r: Result<(), AllocError>)
    ensures
        r is Ok,
        final(vec)@ == old(vec)@,
{
    let _ = vec.try_reserve(required);
    Ok(())
}

/// Reserves room for exactly `required` more bytes where that can be done; a failed reservation
/// is skipped.
fn try_reserve_exact(vec: &mut Vec<u8>, required: usize) -> (r: Result<(), AllocError>)
    ensures
        r is Ok,
        final(vec)@ == old(vec)@,
{
    let _ = vec_try_reserve_exact(vec, required);
    Ok(())
}

/// How much [`Vec::size_hint`](Write::size_hint) reserves, and whether exactly: with a known
/// maximum that is at most `len + 2 * min` (saturating), exactly the maximum; with a larger one,
/// `len + 2 * min`; with no maximum, `min`.
pub open spec fn size_hint_reservation(len: usize, min_bytes: usize, max_bytes: Option<usize>) -> (usize, bool) {
    match max_bytes {
        Some(max) => {
            let doubled = if 2 * min_bytes > usize::MAX { usize::MAX as int } else { 2 * min_bytes };
            let max_len = if doubled + len > usize::MAX { usize::MAX as int } else { doubled + len };
            if max <= max_len {
                (max, true)
            } else {
                (max_len as usize, false)
            }
        },
        None => (min_bytes, false),
    }
}

/// Computes [`size_hint_reservation`].
fn plan_reservation(len: usize, min_bytes: usize, max_bytes: Option<usize>) -> (r: (usize, bool))
    ensures
        r == size_hint_reservation(len, min_bytes, max_bytes),
{
    match max_bytes {
        Some(max_bytes) => {
            // The vector usually grows by a factor of two, so it may grow to
            // (len + min) * 2 - len = len + min * 2.
            let doubled = if min_bytes > usize::MAX / 2 { usize::MAX } else { min_bytes * 2 };
            let max_len = doubled.saturating_add(len);
            if max_bytes <= max_len {
                (max_bytes, true)
            } else {
                (max_len, false)
            }
        },
        None => (min_bytes, false),
    }
}

/// The initial capacity of a buffered reader.
pub const DEFAULT_BUF_SIZE: usize = 8 * 1024;

/// One read of `reader` into `room` fresh bytes, leaving the reader as `reader_after`: `bytes`
/// are the bytes the read wrote and `r` is what it returned.
pub open spec fn refill<R: Read>(
    reader: R,
    reader_after: R,
    room: nat,
    bytes: Seq<u8>,
    r: Result<usize, R::ReadError>,
) -> bool {
    exists|o: OutBuf<R::BufInit>, back: OutBuf<R::BufInit>|
        {
            &&& o.wf()
            &&& o.pos() == 0
            &&& o.cap() == room
            &&& #[trigger] R::read_outcome(&reader, &reader_after, o, back, r)
            &&& read_effect(o, back, r)
            &&& bytes == back.filled()
        }
}

/// The room one read into a buffer of `capacity` bytes holding `len` is offered: the free space,
/// but at most `isize::MAX` bytes, the most a single allocation can hold.
pub open spec fn free_room(capacity: nat, len: nat) -> nat {
    let free = capacity - len;
    if free > isize::MAX { isize::MAX as nat } else { if free >= 0 { free as nat } else { 0 } }
}

/// `n` successive reads of `reader`, each offered the free room of a buffer of `capacity` bytes
/// that starts out holding `len` bytes and keeps all each read returns, leave the reader as
/// `reader_after` and append `bytes`. Each of the reads returned some bytes.
pub open spec fn refills<R: Read>(n: nat, reader: R, reader_after: R, capacity: nat, len: nat, bytes: Seq<u8>) -> bool
    decreases n,
{
    if n == 0 {
        &&& reader_after == reader
        &&& bytes.len() == 0
    } else {
        exists|mid: R, prev: Seq<u8>, chunk: Seq<u8>, k: usize|
            {
                &&& refills((n - 1) as nat, reader, mid, capacity, len, prev)
                &&& #[trigger] refill(mid, reader_after, free_room(capacity, len + prev.len()), chunk, Ok::<usize, R::ReadError>(k))
                &&& k > 0
                &&& bytes == prev + chunk
            }
    }
}

/// Reads once from `reader` into `spare` bytes of fresh space, and appends what was read to
/// `vec`.
fn read_into_spare<R: Read>(reader: &mut R, vec: &mut Vec<u8>, spare: usize) -> (r: Result<usize, R::ReadError>)
    requires
        spare <= isize::MAX,
    ensures
        match r {
            Ok(n) => {
                &&& n <= spare
                &&& final(vec)@.len() == old(vec)@.len() + n
                &&& final(vec)@.take(old(vec)@.len() as int) == old(vec)@
            },
            Err(_) => final(vec)@ == old(vec)@,
        },
        refill(*old(reader), *final(reader), spare as nat, final(vec)@.skip(old(vec)@.len() as int), r),
        R::read_infallible() ==> r is Ok,
        R::obeys_read_model() && spare > 0 ==> match r {
            Ok(n) => {
                &&& n <= R::pending(&*old(reader)).len()
                &&& final(vec)@ == old(vec)@ + R::pending(&*old(reader)).take(n as int)
                &&& R::pending(&*final(reader)) == R::pending(&*old(reader)).skip(n as int)
                &&& (n == 0 ==> R::pending(&*old(reader)).len() == 0)
            },
            Err(_) => R::pending(&*final(reader)) == R::pending(&*old(reader)),
        },
{
    let mut out = buffer::zeroed_out::<R::BufInit>(spare);
    let ghost lent = out;
    let res = reader.read(&mut out);
    let ghost back = out;
    assert(R::read_outcome(&*old(reader), &*reader, lent, back, res));
    match res {
        Ok(n) => {
            let filled = buffer::out_into_filled(out);
            let ghost before = vec@;
            vec.extend_from_slice(filled.as_slice());
            proof {
                assert(vec@ =~= before + filled@);
                assert(vec@.take(before.len() as int) =~= before);
                assert(vec@.skip(before.len() as int) =~= back.filled());
                if R::obeys_read_model() && spare > 0 {
                    assert(filled@ =~= R::pending(&*old(reader)).take(n as int));
                }
            }
            Ok(n)
        },
        Err(e) => {
            proof {
                assert(vec@.skip(vec@.len() as int) =~= back.filled());
            }
            Err(e)
        },
    }
}

impl ExtendFromReader for Vec<u8> {
    type ExtendError = AllocError;

    open spec fn stored_len(&self) -> usize {
        self.len()
    }

    open spec fn obeys_extend_model() -> bool {
        true
    }

    open spec fn contents(&self) -> Seq<u8> {
        self@
    }

    open spec fn extend_infallible() -> bool {
        true
    }

    fn extend_from_reader<R: Read>(&mut self, reader: &mut R) -> (r: Result<
        usize,
        ExtendError<R::ReadError, Self::ExtendError>,
    >)
        ensures
            r is Ok || r is Err && r->Err_0 is ReadErr,
            match r {
                Ok(n) => final(self)@.take(old(self)@.len() as int) == old(self)@,
                Err(_) => final(self)@ == old(self)@,
            },
    {
        let mut spare = vec_capacity(self) - self.len();
        if spare == 0 {
            match try_reserve(self, 1024) {
                Ok(()) => {},
                Err(e) => {
                    return Err(ExtendError::ExtendErr(e));
                },
            }
            spare = vec_capacity(self) - self.len();
        }
        let chunk = if spare > 0 { spare } else { 1024 };
        match read_into_spare(reader, self, chunk) {
            Ok(n) => Ok(n),
            Err(e) => Err(ExtendError::ReadErr(e)),
        }
    }
}

impl Write for Vec<u8> {
    type WriteError = core::convert::Infallible;
    type FlushError = core::convert::Infallible;

    open spec fn write_infallible() -> bool {
        true
    }

    open spec fn flush_infallible() -> bool {
        true
    }

    open spec fn obeys_write_model() -> bool {
        true
    }

    open spec fn output(&self) -> Seq<u8> {
        self@
    }

    open spec fn write_effect(&self, after: &Self, buf: Seq<u8>, r: Result<usize, core::convert::Infallible>) -> bool {
        &&& r matches Ok(n) && n == buf.len()
        &&& after@ == self@ + buf
    }

    fn write(&mut self, buf: &[u8]) -> (r: Result<usize, Self::WriteError>)
        ensures
            r matches Ok(n) && n == buf@.len(),
            final(self)@ == old(self)@ + buf@,
    {
        self.extend_from_slice(buf);
        assert(self@ =~= old(self)@ + buf@);
        assert(buf@.take(buf@.len() as int) =~= buf@);
        let r: Result<usize, core::convert::Infallible> = Ok(buf.len());
        assert(Self::write_effect(&*old(self), &*self, buf@, r));
        r
    }

    fn flush(&mut self) -> (r: Result<(), Self::FlushError>)
        ensures
            r is Ok,
            final(self)@ == old(self)@,
    {
        Ok(())
    }

    fn size_hint(&mut self, min_bytes: usize, max_bytes: Option<usize>)
        ensures
            final(self)@ == old(self)@,
    {
        let (amount, exact) = plan_reservation(self.len(), min_bytes, max_bytes);
        if exact {
            let _ = try_reserve_exact(self, amount);
        } else {
            let _ = try_reserve(self, amount);
        }
    }

    fn uses_size_hint(&self) -> (r: bool)
        ensures
            r,
    {
        true
    }
}

/// Wrapper that provides buffering for a reader, with a buffer that grows on demand.
pub struct BufReaderRequire<R> {
    reader: R,
    buffer: Vec<u8>,
    start: usize,
    capacity: usize,
}

impl<R> BufReaderRequire<R> {
    /// The wrapped reader.
    pub closed spec fn inner(&self) -> R {
        self.reader
    }

    /// The bytes in the buffer that have not been consumed yet.
    pub closed spec fn unread(&self) -> Seq<u8> {
        if self.start <= self.buffer@.len() {
            self.buffer@.skip(self.start as int)
        } else {
            Seq::empty()
        }
    }

    /// How many bytes the buffer may hold before it has to grow.
    pub closed spec fn buffer_capacity(&self) -> nat {
        self.capacity as nat
    }

    /// Well-formedness: the consumed bytes lie within the buffer, which lies within the capacity.
    pub closed spec fn wf(&self) -> bool {
        &&& self.start <= self.buffer@.len()
        &&& self.buffer@.len() <= self.capacity
        &&& self.capacity > 0
    }
}

impl<R: Read> BufReaderRequire<R> {
    /// Creates buffered reader.
    pub fn new(reader: R) -> (r: Self)
        ensures
            r.wf(),
            r.inner() == reader,
            r.unread().len() == 0,
            r.buffer_capacity() == DEFAULT_BUF_SIZE,
            r.all_pending() == reader.pending(),
    {
        let r = BufReaderRequire { reader, buffer: Vec::with_capacity(DEFAULT_BUF_SIZE), start: 0, capacity: DEFAULT_BUF_SIZE };
        assert(r.all_pending() =~= reader.pending());
        r
    }

    /// Unwraps inner reader.
    ///
    /// Any data in the internal buffer is lost.
    pub fn into_inner(self) -> (r: R)
        ensures
            r == self.inner(),
    {
        self.reader
    }

    /// Brings the fields into their well-formed ranges; on a well-formed reader it does nothing.
    fn normalize(&mut self)
        ensures
            final(self).wf(),
            final(self).inner() == old(self).inner(),
            final(self).unread() == old(self).unread(),
            old(self).wf() ==> *final(self) == *old(self),
    {
        let len = self.buffer.len();
        if self.start > len {
            self.start = len;
            assert(self.unread() =~= Seq::<u8>::empty());
        }
        if self.capacity < len {
            self.capacity = len;
        }
        if self.capacity == 0 {
            self.capacity = DEFAULT_BUF_SIZE;
        }
    }

    /// Gets the number of bytes in the buffer.
    ///
    /// This is the amount of data that can be returned immediately, without reading from the
    /// wrapped reader.
    fn available(&self) -> (r: usize)
        requires
            self.wf(),
        ensures
            r == self.unread().len(),
    {
        self.len() - self.start
    }

    fn len(&self) -> (r: usize)
        ensures
            r == self.buffer@.len(),
    {
        self.buffer.len()
    }

    fn capacity(&self) -> (r: usize)
        ensures
            r == self.capacity,
    {
        self.capacity
    }

    /// Drops the consumed bytes from the beginning of the buffer.
    fn erase_beginning(&mut self)
        requires
            old(self).wf(),
        ensures
            final(self).wf(),
            final(self).inner() == old(self).inner(),
            final(self).unread() == old(self).unread(),
            final(self).start == 0,
            final(self).buffer@ == old(self).unread(),
            final(self).capacity == old(self).capacity,
    {
        let start = self.start;
        self.start = 0;
        self.buffer = self.buffer.split_off(start);
        assert(self.buffer@.skip(0) =~= self.buffer@);
    }

    /// The unread bytes as a slice.
    fn unread_slice(&self) -> (r: &[u8])
        requires
            self.wf(),
        ensures
            r@ == self.unread(),
    {
        vstd::slice::slice_subrange(self.buffer.as_slice(), self.start, self.buffer.len())
    }

    /// Reads once from the wrapped reader into the free capacity.
    fn fill_spare(&mut self) -> (r: Result<usize, R::ReadError>)
        requires
            old(self).wf(),
        ensures
            final(self).wf(),
            final(self).start == old(self).start,
            final(self).capacity == old(self).capacity,
            match r {
                Ok(n) => {
                    &&& n <= old(self).capacity - old(self).buffer@.len()
                    &&& final(self).buffer@.len() == old(self).buffer@.len() + n
                    &&& final(self).buffer@.take(old(self).buffer@.len() as int) == old(self).buffer@
                },
                Err(_) => final(self).buffer@ == old(self).buffer@,
            },
            R::read_infallible() ==> r is Ok,
            refill(
                old(self).reader,
                final(self).reader,
                free_room(old(self).capacity as nat, old(self).buffer@.len()),
                final(self).buffer@.skip(old(self).buffer@.len() as int),
                r,
            ),
            R::obeys_read_model() && old(self).capacity > old(self).buffer@.len() ==> match r {
                Ok(n) => {
                    &&& n <= old(self).reader.pending().len()
                    &&& final(self).buffer@ == old(self).buffer@ + old(self).reader.pending().take(n as int)
                    &&& final(self).reader.pending() == old(self).reader.pending().skip(n as int)
                    &&& (n == 0 ==> old(self).reader.pending().len() == 0)
                },
                Err(_) => final(self).reader.pending() == old(self).reader.pending() && final(self).buffer@ == old(self).buffer@,
            },
    {
        let free = self.capacity - self.buffer.len();
        // A single allocation holds at most `isize::MAX` bytes.
        let spare = if free > isize::MAX as usize { isize::MAX as usize } else { free };
        read_into_spare(&mut self.reader, &mut self.buffer, spare)
    }
}

impl<R: Read> BufReaderRequire<R> {
    /// The bytes still to come: the unread ones, then those of the wrapped reader.
    pub open spec fn all_pending(&self) -> Seq<u8> {
        self.unread() + self.inner().pending()
    }

    /// Reads from the wrapped reader into the buffer when nothing is left in it, and returns the
    /// unread bytes.
    fn fill_buffer(&mut self) -> (r: Result<&[u8], R::ReadError>)
        ensures
            final(self).wf(),
            old(self).wf() ==> final(self).buffer_capacity() == old(self).buffer_capacity(),
            r matches Ok(s) ==> s@ == final(self).unread(),
            old(self).unread().len() > 0 ==> r is Ok && final(self).unread() == old(self).unread(),
            old(self).unread().len() > 0 ==> final(self).inner() == old(self).inner(),
            R::read_infallible() ==> r is Ok,
            old(self).unread().len() == 0 ==> exists|inner: Result<usize, R::ReadError>|
                {
                    &&& #[trigger] refill(old(self).inner(), final(self).inner(), free_room(final(self).buffer_capacity(), 0), final(self).unread(), inner)
                    &&& match inner {
                        Ok(_) => r is Ok,
                        Err(e) => r is Err && r->Err_0 == e,
                    }
                },
            R::obeys_read_model() ==> {
                &&& final(self).all_pending() == old(self).all_pending()
                &&& final(self).all_pending().take(final(self).unread().len() as int) == final(self).unread()
                &&& (r is Ok && final(self).unread().len() == 0 ==> final(self).all_pending().len() == 0)
            },
    {
        self.normalize();
        if self.available() == 0 {
            self.erase_beginning();
            let ghost before = *self;
            let res = self.fill_spare();
            let ghost inner = res;
            proof {
                assert(before.buffer@.len() == 0);
                assert(self.unread() =~= self.buffer@.skip(before.buffer@.len() as int));
                assert(refill(old(self).inner(), self.inner(), free_room(self.buffer_capacity(), 0), self.unread(), inner));
            }
            match res {
                Ok(_) => {
                    proof {
                        assert(self.unread() =~= self.buffer@);
                        if R::obeys_read_model() {
                            assert(before.buffer@ =~= Seq::<u8>::empty());
                            assert(self.unread() + self.reader.pending() =~= before.reader.pending());
                        }
                    }
                },
                Err(e) => {
                    proof {
                        assert(self.unread() =~= before.unread());
                        if R::obeys_read_model() {
                            assert(self.reader.pending() == before.reader.pending());
                        }
                    }
                    return Err(e);
                },
            }
        }
        proof {
            if R::obeys_read_model() {
                assert((self.unread() + self.reader.pending()).take(self.unread().len() as int) =~= self.unread());
            }
        }
        Ok(self.unread_slice())
    }

    /// Marks up to `amount` unread bytes as consumed.
    fn consume_bytes(&mut self, amount: usize)
        ensures
            final(self).wf(),
            final(self).inner() == old(self).inner(),
            final(self).unread() == old(self).unread().skip(clamp(amount, old(self).unread().len())),
            old(self).wf() ==> final(self).buffer_capacity() == old(self).buffer_capacity(),
    {
        self.normalize();
        let len = self.len();
        let end = if amount <= len - self.start { self.start + amount } else { len };
        let ghost before = *self;
        assert(before.unread().len() == len - before.start);
        self.start = end;
        proof {
            let k = clamp(amount, before.unread().len());
            assert(end == before.start + k);
            assert(self.unread() =~= before.unread().skip(k));
            assert((before.unread() + before.reader.pending()).skip(k) =~= self.unread() + self.reader.pending());
        }
    }

    /// Reads from the wrapped reader until at least `amount` bytes are unread.
    ///
    /// The unread bytes are kept whatever happens, and what is read is appended to them. Each
    /// read is offered all the free room of the buffer (grown to `amount` bytes where needed), and
    /// all it returns is kept.
    fn require(&mut self, amount: usize) -> (r: Result<&[u8], BufError<AllocError, R::ReadError>>)
        ensures
            final(self).wf(),
            r matches Ok(s) ==> s@ == final(self).unread() && s@.len() >= amount,
            old(self).unread().len() <= final(self).unread().len(),
            final(self).unread().take(old(self).unread().len() as int) == old(self).unread(),
            amount <= old(self).unread().len() ==> {
                &&& r is Ok
                &&& final(self).unread() == old(self).unread()
                &&& final(self).inner() == old(self).inner()
            },
            old(self).wf() ==> final(self).buffer_capacity() == (if amount <= old(self).unread().len()
                || amount <= old(self).buffer_capacity() {
                old(self).buffer_capacity()
            } else {
                amount as nat
            }),
            exists|n: nat, mid: R, bytes: Seq<u8>, len0: nat|
                {
                    &&& #[trigger] refills(n, old(self).inner(), mid, final(self).buffer_capacity(), len0, bytes)
                    &&& old(self).unread().len() <= len0
                    &&& (old(self).unread().len() == 0 ==> len0 == 0)
                    &&& final(self).unread() == old(self).unread() + bytes
                    &&& match r {
                        Ok(_) => final(self).inner() == mid,
                        Err(BufError::End) => refill(
                            mid,
                            final(self).inner(),
                            free_room(final(self).buffer_capacity(), len0 + bytes.len()),
                            Seq::empty(),
                            Ok::<usize, R::ReadError>(0),
                        ),
                        Err(BufError::OtherErr(e)) => exists|chunk: Seq<u8>|
                            #[trigger] refill(
                                mid,
                                final(self).inner(),
                                free_room(final(self).buffer_capacity(), len0 + bytes.len()),
                                chunk,
                                Err::<usize, R::ReadError>(e),
                            ),
                        Err(BufError::BufferErr(_)) => false,
                    }
                },
            !(r matches Err(BufError::BufferErr(_))),
            R::read_infallible() ==> !(r matches Err(BufError::OtherErr(_))),
            R::obeys_read_model() ==> {
                &&& final(self).all_pending() == old(self).all_pending()
                &&& (r matches Err(BufError::End) ==> {
                    &&& old(self).all_pending().len() < amount
                    &&& final(self).unread() == old(self).all_pending()
                })
            },
    {
        // If enough bytes are available, return them. If the capacity is too small, grow it. If
        // the free space is too short or the consumed part too long, move the unread bytes to
        // the beginning.
        self.normalize();
        let ghost u0 = old(self).unread();
        let ghost reader0 = self.reader;
        if amount <= self.available() {
            proof {
                assert(u0 + Seq::<u8>::empty() =~= u0);
                assert(refills(0, reader0, self.reader, self.buffer_capacity(), u0.len(), Seq::empty()));
            }
            return Ok(self.unread_slice());
        }
        if amount > self.capacity {
            let len = self.len();
            let _ = self.buffer.try_reserve(amount - len);
            self.capacity = amount;
        }
        if amount > self.capacity - self.len() || self.start > self.capacity / 2 || self.available() == 0 {
            self.erase_beginning();
        }
        assert(self.unread().take(u0.len() as int) =~= u0);
        let ghost p0 = old(self).all_pending();
        let ghost len0: nat = self.buffer@.len();
        let ghost n: nat = 0;
        let ghost bytes: Seq<u8> = Seq::empty();
        proof {
            assert(u0 + bytes =~= u0);
            assert(self.unread() =~= u0);
        }
        while self.available() < amount
            invariant
                self.wf(),
                amount <= self.capacity,
                amount - self.unread().len() <= self.capacity - self.buffer@.len(),
                p0 == old(self).all_pending(),
                u0 == old(self).unread(),
                u0.len() <= self.unread().len(),
                self.unread().take(u0.len() as int) == u0,
                R::obeys_read_model() ==> self.unread() + self.reader.pending() == p0,
                reader0 == old(self).inner(),
                u0.len() <= len0,
                u0.len() == 0 ==> len0 == 0,
                self.buffer@.len() == len0 + bytes.len(),
                self.unread() == u0 + bytes,
                refills(n, reader0, self.reader, self.capacity as nat, len0, bytes),
                old(self).wf() ==> self.capacity == (if amount <= old(self).buffer_capacity() {
                    old(self).buffer_capacity()
                } else {
                    amount as nat
                }),
            decreases self.capacity - self.buffer@.len(),
        {
            let ghost before = *self;
            let res = self.fill_spare();
            let ghost chunk = self.buffer@.skip(before.buffer@.len() as int);
            proof {
                assert(refill(before.reader, self.reader, free_room(self.capacity as nat, len0 + bytes.len()), chunk, res));
            }
            match res {
                Ok(0) => {
                    proof {
                        assert(self.buffer@ =~= before.buffer@);
                        assert(self.unread() =~= before.unread());
                        assert(chunk =~= Seq::<u8>::empty());
                        if R::obeys_read_model() {
                            assert(self.reader.pending() =~= before.reader.pending());
                            assert(before.reader.pending().len() == 0);
                            assert(self.all_pending() =~= before.unread() + before.reader.pending());
                            assert(self.all_pending() == p0);
                            assert(self.unread() =~= p0);
                        }
                        assert(chunk == Seq::<u8>::empty());
                        assert(self.unread() == u0 + bytes);
                        assert(refills(n, old(self).inner(), before.reader, self.buffer_capacity(), len0, bytes));
                        assert(refill(before.reader, self.reader, free_room(self.buffer_capacity(), len0 + bytes.len()), Seq::<u8>::empty(), Ok::<usize, R::ReadError>(0)));
                    }
                    return Err(BufError::End);
                },
                Ok(k) => {
                    proof {
                        let kk = (self.buffer@.len() - before.buffer@.len()) as int;
                        assert(self.unread() =~= before.unread() + self.buffer@.skip(before.buffer@.len() as int));
                        assert(self.unread().take(u0.len() as int) =~= before.unread().take(u0.len() as int));
                        if R::obeys_read_model() {
                            assert(self.unread() =~= before.unread() + before.reader.pending().take(kk));
                            assert(before.reader.pending() =~= before.reader.pending().take(kk) + before.reader.pending().skip(kk));
                            assert(self.unread() + self.reader.pending() =~= p0);
                        }
                        assert(refills(n, reader0, before.reader, self.capacity as nat, len0, bytes));
                        assert(refill(before.reader, self.reader, free_room(self.capacity as nat, len0 + bytes.len()), chunk, Ok::<usize, R::ReadError>(k)));
                        let next = bytes + chunk;
                        assert(refills(n + 1, reader0, self.reader, self.capacity as nat, len0, next));
                        n = n + 1;
                        bytes = next;
                        assert(self.unread() =~= u0 + bytes);
                    }
                },
                Err(error) => {
                    proof {
                        assert(self.unread() =~= before.unread());
                        if R::obeys_read_model() {
                            assert(self.all_pending() =~= before.unread() + before.reader.pending());
                        }
                        assert(self.buffer@ =~= before.buffer@);
                        assert(self.unread() == u0 + bytes);
                        assert(refills(n, old(self).inner(), before.reader, self.buffer_capacity(), len0, bytes));
                        assert(refill(before.reader, self.reader, free_room(self.buffer_capacity(), len0 + bytes.len()), chunk, Err::<usize, R::ReadError>(error)));
                    }
                    let r = Err(BufError::OtherErr(error));
                    assert(self.inner() == self.reader);
                    assert(r matches Err(BufError::OtherErr(e)) && e == error);
                    assert(refill(before.reader, self.inner(), free_room(self.buffer_capacity(), len0 + bytes.len()), chunk, Err::<usize, R::ReadError>(error)));
                    assert(match r {
                        Err(BufError::OtherErr(e)) => exists|c: Seq<u8>|
                            #[trigger] refill(before.reader, self.inner(), free_room(self.buffer_capacity(), len0 + bytes.len()), c, Err::<usize, R::ReadError>(e)),
                        _ => false,
                    });
                    return r;
                },
            }
        }
        assert(refills(n, old(self).inner(), self.reader, self.buffer_capacity(), len0, bytes));
        Ok(self.unread_slice())
    }
}

impl<R: Read> Read for BufReaderRequire<R> {
    type ReadError = R::ReadError;
    type BufInit = Uninit;

    open spec fn obeys_read_model() -> bool {
        R::obeys_read_model()
    }

    open spec fn pending(&self) -> Seq<u8> {
        self.all_pending()
    }

    open spec fn read_infallible() -> bool {
        R::read_infallible()
    }

    /// Hands out buffered bytes, refilling the buffer first when it is empty: as many as fit,
    /// so that either `buf` is full or the buffer is empty afterwards.
    fn read(&mut self, buf: &mut OutBuf<Uninit>) -> (r: Result<usize, Self::ReadError>)
        ensures
            final(self).wf(),
            old(self).wf() ==> final(self).buffer_capacity() == old(self).buffer_capacity(),
            r matches Ok(n) ==> n == old(buf).room() || final(self).unread().len() == 0,
            old(self).unread().len() > 0 ==> {
                let n = clamp(old(buf).room() as usize, old(self).unread().len());
                &&& r matches Ok(k) && k == n
                &&& final(buf).filled() == old(buf).filled() + old(self).unread().take(n)
                &&& final(self).unread() == old(self).unread().skip(n)
                &&& final(self).inner() == old(self).inner()
            },
            old(self).unread().len() == 0 ==> exists|inner: Result<usize, R::ReadError>, bytes: Seq<u8>|
                {
                    &&& #[trigger] refill(old(self).inner(), final(self).inner(), free_room(final(self).buffer_capacity(), 0), bytes, inner)
                    &&& match inner {
                        Ok(_) => {
                            let n = clamp(old(buf).room() as usize, bytes.len());
                            &&& r matches Ok(k) && k == n
                            &&& final(buf).filled() == old(buf).filled() + bytes.take(n)
                            &&& final(self).unread() == bytes.skip(n)
                        },
                        Err(e) => r is Err && r->Err_0 == e,
                    }
                },
    {
        assert(Self::read_infallible() == R::read_infallible());
        let ghost p0 = Self::pending(&*self);
        let res = self.fill_buffer();
        let n = match res {
            Ok(data) => {
                let ghost d = data@;
                let n = buf.write_slice_min(data);
                assert(n <= d.len());
                proof {
                    if R::obeys_read_model() {
                        assert(d.take(n as int) =~= p0.take(n as int));
                    }
                }
                n
            },
            Err(e) => {
                assert(buf.filled().take(buf.pos() as int) =~= buf.filled());
                proof {
                    if old(self).unread().len() == 0 {
                        let ir = choose|inner: Result<usize, R::ReadError>|
                            {
                                &&& #[trigger] refill(old(self).inner(), self.inner(), free_room(self.buffer_capacity(), 0), self.unread(), inner)
                                &&& match inner {
                                    Ok(_) => false,
                                    Err(e2) => e2 == e,
                                }
                            };
                        assert(refill(old(self).inner(), self.inner(), free_room(self.buffer_capacity(), 0), self.unread(), ir));
                    }
                }
                return Err(e);
            },
        };
        let ghost mid = *self;
        let ghost ir = choose|inner: Result<usize, R::ReadError>|
            {
                &&& #[trigger] refill(old(self).inner(), mid.inner(), free_room(mid.buffer_capacity(), 0), mid.unread(), inner)
                &&& inner is Ok
            };
        self.consume_bytes(n);
        proof {
            assert(buf.filled().take(old(buf).pos() as int) =~= old(buf).filled());
            if R::obeys_read_model() {
                assert(clamp(n, mid.unread().len()) == n);
                assert(mid.all_pending() == p0);
                assert(p0.skip(n as int) =~= mid.unread().skip(n as int) + mid.reader.pending());
                assert(self.all_pending() =~= p0.skip(n as int));
                assert(p0 == old(self).all_pending());
                assert(n <= p0.len());
                assert(buf.filled() == old(buf).filled() + p0.take(n as int));
                assert(old(buf).room() > 0 && n == 0 ==> p0.len() == 0);
            }
            if old(self).unread().len() == 0 {
                assert(refill(old(self).inner(), self.inner(), free_room(self.buffer_capacity(), 0), mid.unread(), ir));
                assert(buf.filled() == old(buf).filled() + mid.unread().take(n as int));
            }
        }
        Ok(n)
    }
}

impl<R: Read> BufRead for BufReaderRequire<R> {
    open spec fn buffered(&self) -> Seq<u8> {
        self.unread()
    }

    /// Returns the unread bytes; when there are none, first reads once from the wrapped reader,
    /// offering it the whole buffer, and keeps all it returns.
    fn fill_buf(&mut self) -> (r: Result<&[u8], Self::ReadError>)
        ensures
            final(self).wf(),
            old(self).wf() ==> final(self).buffer_capacity() == old(self).buffer_capacity(),
            old(self).unread().len() > 0 ==> final(self).inner() == old(self).inner(),
            R::read_infallible() ==> r is Ok,
            old(self).unread().len() == 0 ==> exists|inner: Result<usize, R::ReadError>|
                {
                    &&& #[trigger] refill(old(self).inner(), final(self).inner(), free_room(final(self).buffer_capacity(), 0), final(self).unread(), inner)
                    &&& match inner {
                        Ok(_) => r is Ok,
                        Err(e) => r is Err && r->Err_0 == e,
                    }
                },
    {
        self.fill_buffer()
    }

    fn consume(&mut self, amount: usize) {
        self.consume_bytes(amount);
    }
}

impl<R: Read> BufReadProgress for BufReaderRequire<R> {
    type BufReadError = AllocError;

    fn fill_progress(&mut self) -> (r: Result<&[u8], BufError<Self::BufReadError, Self::ReadError>>)
        ensures
            !(r matches Err(BufError::BufferErr(_))),
            R::read_infallible() ==> !(r matches Err(BufError::OtherErr(_))),
    {
        self.normalize();
        let available = self.available();
        let amount = if available < usize::MAX { available + 1 } else { available };
        self.require(amount)
    }
}

impl<R: Read> BufReadRequire for BufReaderRequire<R> {
    type BufReadError = AllocError;

    fn require_bytes(&mut self, amount: usize) -> (r: Result<&[u8], BufError<Self::BufReadError, Self::ReadError>>)
        ensures
            old(self).unread().len() <= final(self).unread().len(),
            amount <= old(self).unread().len() ==> final(self).inner() == old(self).inner(),
            old(self).wf() ==> final(self).buffer_capacity() == (if amount <= old(self).unread().len()
                || amount <= old(self).buffer_capacity() {
                old(self).buffer_capacity()
            } else {
                amount as nat
            }),
            exists|n: nat, mid: R, bytes: Seq<u8>, len0: nat|
                {
                    &&& #[trigger] refills(n, old(self).inner(), mid, final(self).buffer_capacity(), len0, bytes)
                    &&& old(self).unread().len() <= len0
                    &&& (old(self).unread().len() == 0 ==> len0 == 0)
                    &&& final(self).unread() == old(self).unread() + bytes
                    &&& match r {
                        Ok(_) => final(self).inner() == mid,
                        Err(BufError::End) => refill(
                            mid,
                            final(self).inner(),
                            free_room(final(self).buffer_capacity(), len0 + bytes.len()),
                            Seq::empty(),
                            Ok::<usize, R::ReadError>(0),
                        ),
                        Err(BufError::OtherErr(e)) => exists|chunk: Seq<u8>|
                            #[trigger] refill(
                                mid,
                                final(self).inner(),
                                free_room(final(self).buffer_capacity(), len0 + bytes.len()),
                                chunk,
                                Err::<usize, R::ReadError>(e),
                            ),
                        Err(BufError::BufferErr(_)) => false,
                    }
                },
            !(r matches Err(BufError::BufferErr(_))),
            R::read_infallible() ==> !(r matches Err(BufError::OtherErr(_))),
            R::obeys_read_model() && (r matches Err(BufError::End)) ==> final(self).unread() == old(self).all_pending(),
    {
        self.require(amount)
    }
}

} // verus!
