//! Generic alternatives to `std::io` traits and types.
//!
//! `std::io` uses a single error type everywhere. Here [`Read`], [`Write`] and the other traits let
//! each implementation define its own errors, so that infallible operations (such as in-memory
//! ones) say so in their types. Readers fill [`OutBuf`]s, write-only views of byte buffers that
//! keep track of how much has been written.
use vstd::prelude::*;

pub mod alloc_impls;
pub mod buffer;
pub mod bufio;
pub mod byte_order;
pub mod error;
pub mod ext;
pub mod std_impls;
pub mod util;

pub use crate::buffer::{Buffer, OutBuf, BufInit};
pub use crate::buffer::init;
pub use crate::ext::ReadExt;
use crate::buffer::init::Uninit;
use crate::byte_order::{ByteOrder, byte_range, twos_complement};
use crate::error::{ExtendError, ReadExactError, WriteAllError, BufferOverflow};
use void::Void;

verus! {

/// What a single call of [`Read::read`] may do to the buffer it fills, whatever the reader:
/// keep its capacity and written part, and on `Ok(n)` append exactly `n` bytes (on `Err`, none).
pub open spec fn read_effect<I: BufInit, E>(
    before: OutBuf<I>,
    after: OutBuf<I>,
    r: Result<usize, E>,
) -> bool {
    &&& after.wf()
    &&& after.cap() == before.cap()
    &&& after.filled().take(before.pos() as int) == before.filled()
    &&& match r {
        Ok(n) => n <= before.room() && after.pos() == before.pos() + n,
        Err(_) => after.pos() == before.pos(),
    }
}

/// What a reader that follows the pending-bytes model does in one call of [`Read::read`] into a
/// buffer with room: the appended bytes are the first pending ones, and they stop being pending;
/// nothing is appended only at the end of the pending bytes; a failing read consumes nothing.
pub open spec fn read_model_step<I: BufInit, E>(
    pending_before: Seq<u8>,
    pending_after: Seq<u8>,
    before: OutBuf<I>,
    after: OutBuf<I>,
    r: Result<usize, E>,
) -> bool {
    before.room() > 0 ==> match r {
        Ok(n) => {
            &&& n <= pending_before.len()
            &&& after.filled() == before.filled() + pending_before.take(n as int)
            &&& pending_after == pending_before.skip(n as int)
            &&& (n == 0 ==> pending_before.len() == 0)
        },
        Err(_) => pending_after == pending_before,
    }
}

/// What reading a `k`-byte number from a reader that follows the pending-bytes model gives: on
/// success the number decoded from the first `k` pending bytes, which stop being pending; the end
/// is reported only when fewer than `k` bytes were pending.
pub open spec fn read_number<T, E>(
    before: Seq<u8>,
    after: Seq<u8>,
    k: nat,
    r: Result<T, ReadExactError<E>>,
    decode: spec_fn(Seq<u8>) -> T,
) -> bool {
    match r {
        Ok(v) => k <= before.len() && v == decode(before.take(k as int)) && after == before.skip(k as int),
        Err(ReadExactError::UnexpectedEnd) => before.len() < k,
        Err(ReadExactError::Other(_)) => true,
    }
}

/// `after` is `before` followed by `k` bytes that encode `value`.
pub open spec fn number_appended<BO: ByteOrder>(before: Seq<u8>, after: Seq<u8>, k: nat, value: nat) -> bool {
    &&& after.len() == before.len() + k
    &&& after.take(before.len() as int) == before
    &&& BO::value(after.skip(before.len() as int)) == value
}

/// The Read trait allows for reading bytes from a source.
///
/// Implementors of the Read trait are sometimes called 'readers'.
///
/// Readers are defined by one required method, `read()` and a required type `ReadError`. Each call
/// to read will attempt to pull bytes from this source into a provided buffer. A number of other
/// methods are implemented in terms of read().
///
/// A reader may also follow the pending-bytes model (`obeys_read_model`): it then holds a
/// sequence of `pending` bytes that reads hand out in order, see [`read_model_step`].
pub trait Read {
    /// Value of this type is returned when `read()` fails.
    type ReadError;

    /// Marker for buffers this reader accepts.
    type BufInit: BufInit;

    /// Whether this reader follows the pending-bytes model.
    open spec fn obeys_read_model() -> bool {
        false
    }

    /// The bytes this reader will produce, in order, when it follows the pending-bytes model.
    open spec fn pending(&self) -> Seq<u8> {
        Seq::empty()
    }

    /// Whether `read` never fails.
    open spec fn read_infallible() -> bool {
        false
    }

    /// What a call of `read` may do: from this reader and the buffer `buf` to the reader `after`
    /// and the buffer `buf_after`, returning `r`.
    open spec fn read_outcome(
        &self,
        after: &Self,
        buf: OutBuf<Self::BufInit>,
        buf_after: OutBuf<Self::BufInit>,
        r: Result<usize, Self::ReadError>,
    ) -> bool {
        true
    }

    /// Pull some bytes from this source into the specified buffer, returning how many bytes were
    /// read.
    ///
    /// If the return value is `Ok(n)`, then `n` bytes were appended to `buf`, and `n` is at most
    /// the room left in `buf`. If `n` is 0, either this reader has reached its "end of file" or
    /// the buffer had no room. If an error is returned then no bytes were read.
    fn read(&mut self, buf: &mut OutBuf<Self::BufInit>) -> (r: Result<usize, Self::ReadError>)
        requires
            old(buf).wf(),
        ensures
            read_effect(*old(buf), *final(buf), r),
            Self::read_infallible() ==> r is Ok,
            Self::read_outcome(&*old(self), &*final(self), *old(buf), *final(buf), r),
            Self::obeys_read_model() ==> read_model_step(
                Self::pending(&*old(self)),
                Self::pending(&*final(self)),
                *old(buf),
                *final(buf),
                r,
            ),
    ;

    /// Read the exact number of bytes required to fill `buf`.
    ///
    /// On `Ok(())` the buffer is full. `UnexpectedEnd` is returned when the reader hints that not
    /// enough bytes are available, or when it reaches its end before the buffer is full.
    fn read_exact(&mut self, buf: &mut OutBuf<Self::BufInit>) -> (r: Result<
        (),
        ReadExactError<Self::ReadError>,
    >)
        requires
            old(buf).wf(),
        ensures
            final(buf).wf(),
            final(buf).cap() == old(buf).cap(),
            final(buf).filled().take(old(buf).pos() as int) == old(buf).filled(),
            r is Ok ==> final(buf).room() == 0,
            Self::read_infallible() ==> !(r matches Err(ReadExactError::Other(_))),
            Self::obeys_read_model() ==> {
                let wanted = old(buf).room();
                let have = Self::pending(&*old(self));
                match r {
                    Ok(_) => {
                        &&& wanted <= have.len()
                        &&& final(buf).filled() == old(buf).filled() + have.take(wanted)
                        &&& Self::pending(&*final(self)) == have.skip(wanted)
                    },
                    Err(ReadExactError::UnexpectedEnd) => have.len() < wanted,
                    Err(ReadExactError::Other(_)) => true,
                }
            },
    {
        let wanted = buf.remaining();
        if self.available_bytes(wanted) {
            let ghost start_buf = *buf;
            let ghost start_pending = Self::pending(&*self);
            while !buf.is_full()
                invariant
                    start_buf == *old(buf),
                    start_pending == Self::pending(&*old(self)),
                    buf.wf(),
                    buf.cap() == start_buf.cap(),
                    start_buf.pos() <= buf.pos(),
                    buf.filled().take(start_buf.pos() as int) == start_buf.filled(),
                    wanted == start_buf.room(),
                    Self::obeys_read_model() ==> {
                        let got = (buf.pos() - start_buf.pos()) as int;
                        &&& got <= start_pending.len()
                        &&& buf.filled() == start_buf.filled() + start_pending.take(got)
                        &&& Self::pending(&*self) == start_pending.skip(got)
                    },
                decreases buf.room(),
            {
                let ghost before = *buf;
                let ghost pending_before = Self::pending(&*self);
                let read_bytes = match self.read(buf) {
                    Ok(n) => n,
                    Err(e) => {
                        assert(buf.filled() =~= before.filled());
                        return Err(ReadExactError::Other(e));
                    },
                };
                proof {
                    if Self::obeys_read_model() {
                        let got = (before.pos() - start_buf.pos()) as int;
                        assert(start_pending.take(got) + pending_before.take(read_bytes as int)
                            =~= start_pending.take(got + read_bytes));
                        assert(pending_before.skip(read_bytes as int) =~= start_pending.skip(got + read_bytes));
                        assert(buf.filled().take(start_buf.pos() as int) =~= start_buf.filled());
                    }
                    assert(buf.filled().take(start_buf.pos() as int) =~= before.filled().take(start_buf.pos() as int));
                }
                if read_bytes == 0 {
                    return Err(ReadExactError::UnexpectedEnd);
                }
            }
            Ok(())
        } else {
            Err(ReadExactError::UnexpectedEnd)
        }
    }

    /// Hints whether there are at least `at_least` bytes available.
    ///
    /// This function should return true if it can't determine the exact amount; that is also
    /// the default. It is an error to return false when there are more bytes available.
    fn available_bytes(&self, at_least: usize) -> (b: bool)
        ensures
            Self::obeys_read_model() && !b ==> Self::pending(&*self).len() < at_least,
        default_ensures
            b,
    {
        true
    }

    /// An expensive way to get the number of available bytes.
    ///
    /// Returns `Some(num_available_bytes)` if it succeeded in finding out how many bytes are
    /// available, `None` otherwise.
    fn retrieve_available_bytes(&self) -> (r: Option<usize>)
        ensures
            Self::obeys_read_model() ==> (r matches Some(k) ==> k == Self::pending(&*self).len()),
        default_ensures
            r is None,
    {
        None
    }

    /// Reads an unsigned 16 bit integer from the underlying reader.
    fn read_u16<BO: ByteOrder>(&mut self) -> (r: Result<u16, ReadExactError<Self::ReadError>>)
        where
            Self: Sized,
        ensures
            Self::read_infallible() ==> !(r matches Err(ReadExactError::Other(_))),
            Self::obeys_read_model() ==> read_number(Self::pending(&*old(self)), Self::pending(&*final(self)), 2, r, |b: Seq<u8>| BO::value(b) as u16),
    {
        let mut buf = crate::buffer::new_maybe_init::<2, Self::BufInit>();
        let ghost start = Self::pending(&*self);
        match self.read_exact(buf.as_out()) {
            Ok(()) => {
                let v = BO::read_u16(buf.written());
                proof {
                    if Self::obeys_read_model() {
                        assert(buf.written_view() =~= start.take(2));
                        assert(buf.written_view().take(2) =~= start.take(2));
                    }
                }
                Ok(v)
            },
            Err(e) => Err(e),
        }
    }

    /// Reads an unsigned 32 bit integer from the underlying reader.
    fn read_u32<BO: ByteOrder>(&mut self) -> (r: Result<u32, ReadExactError<Self::ReadError>>)
        where
            Self: Sized,
        ensures
            Self::read_infallible() ==> !(r matches Err(ReadExactError::Other(_))),
            Self::obeys_read_model() ==> read_number(Self::pending(&*old(self)), Self::pending(&*final(self)), 4, r, |b: Seq<u8>| BO::value(b) as u32),
    {
        let mut buf = crate::buffer::new_maybe_init::<4, Self::BufInit>();
        let ghost start = Self::pending(&*self);
        match self.read_exact(buf.as_out()) {
            Ok(()) => {
                let v = BO::read_u32(buf.written());
                proof {
                    if Self::obeys_read_model() {
                        assert(buf.written_view() =~= start.take(4));
                        assert(buf.written_view().take(4) =~= start.take(4));
                    }
                }
                Ok(v)
            },
            Err(e) => Err(e),
        }
    }

    /// Reads an unsigned 64 bit integer from the underlying reader.
    fn read_u64<BO: ByteOrder>(&mut self) -> (r: Result<u64, ReadExactError<Self::ReadError>>)
        where
            Self: Sized,
        ensures
            Self::read_infallible() ==> !(r matches Err(ReadExactError::Other(_))),
            Self::obeys_read_model() ==> read_number(Self::pending(&*old(self)), Self::pending(&*final(self)), 8, r, |b: Seq<u8>| BO::value(b) as u64),
    {
        let mut buf = crate::buffer::new_maybe_init::<8, Self::BufInit>();
        let ghost start = Self::pending(&*self);
        match self.read_exact(buf.as_out()) {
            Ok(()) => {
                let v = BO::read_u64(buf.written());
                proof {
                    if Self::obeys_read_model() {
                        assert(buf.written_view() =~= start.take(8));
                        assert(buf.written_view().take(8) =~= start.take(8));
                    }
                }
                Ok(v)
            },
            Err(e) => Err(e),
        }
    }

    /// Reads a signed 16 bit integer from the underlying reader.
    fn read_i16<BO: ByteOrder>(&mut self) -> (r: Result<i16, ReadExactError<Self::ReadError>>)
        where
            Self: Sized,
        ensures
            Self::read_infallible() ==> !(r matches Err(ReadExactError::Other(_))),
            Self::obeys_read_model() ==> read_number(Self::pending(&*old(self)), Self::pending(&*final(self)), 2, r, |b: Seq<u8>| (BO::value(b) as u16) as i16),
    {
        let mut buf = crate::buffer::new_maybe_init::<2, Self::BufInit>();
        let ghost start = Self::pending(&*self);
        match self.read_exact(buf.as_out()) {
            Ok(()) => {
                let v = BO::read_i16(buf.written());
                proof {
                    if Self::obeys_read_model() {
                        assert(buf.written_view() =~= start.take(2));
                        assert(buf.written_view().take(2) =~= start.take(2));
                    }
                }
                Ok(v)
            },
            Err(e) => Err(e),
        }
    }

    /// Reads a signed 32 bit integer from the underlying reader.
    fn read_i32<BO: ByteOrder>(&mut self) -> (r: Result<i32, ReadExactError<Self::ReadError>>)
        where
            Self: Sized,
        ensures
            Self::read_infallible() ==> !(r matches Err(ReadExactError::Other(_))),
            Self::obeys_read_model() ==> read_number(Self::pending(&*old(self)), Self::pending(&*final(self)), 4, r, |b: Seq<u8>| (BO::value(b) as u32) as i32),
    {
        let mut buf = crate::buffer::new_maybe_init::<4, Self::BufInit>();
        let ghost start = Self::pending(&*self);
        match self.read_exact(buf.as_out()) {
            Ok(()) => {
                let v = BO::read_i32(buf.written());
                proof {
                    if Self::obeys_read_model() {
                        assert(buf.written_view() =~= start.take(4));
                        assert(buf.written_view().take(4) =~= start.take(4));
                    }
                }
                Ok(v)
            },
            Err(e) => Err(e),
        }
    }

    /// Reads a signed 64 bit integer from the underlying reader.
    fn read_i64<BO: ByteOrder>(&mut self) -> (r: Result<i64, ReadExactError<Self::ReadError>>)
        where
            Self: Sized,
        ensures
            Self::read_infallible() ==> !(r matches Err(ReadExactError::Other(_))),
            Self::obeys_read_model() ==> read_number(Self::pending(&*old(self)), Self::pending(&*final(self)), 8, r, |b: Seq<u8>| (BO::value(b) as u64) as i64),
    {
        let mut buf = crate::buffer::new_maybe_init::<8, Self::BufInit>();
        let ghost start = Self::pending(&*self);
        match self.read_exact(buf.as_out()) {
            Ok(()) => {
                let v = BO::read_i64(buf.written());
                proof {
                    if Self::obeys_read_model() {
                        assert(buf.written_view() =~= start.take(8));
                        assert(buf.written_view().take(8) =~= start.take(8));
                    }
                }
                Ok(v)
            },
            Err(e) => Err(e),
        }
    }

    /// Creates a "by reference" adaptor for this instance of `Read`.
    fn by_ref(&mut self) -> (r: &mut Self)
        where
            Self: Sized,
        ensures
            *r == *old(self),
            *final(self) == *final(r),
    {
        self
    }
}

/// The Write trait: objects which are byte-oriented sinks.
///
/// `write()` attempts to write some data into the object, returning how many bytes were
/// successfully written; `flush()` pushes buffered data out to the 'true sink'.
///
/// A writer may also follow the output model (`obeys_write_model`): it then holds the sequence
/// of `output` bytes it has accepted, and each write appends to it the bytes it reports as
/// written.
pub trait Write {
    /// Value of this type is returned when `write()` fails.
    type WriteError;

    /// Value of this type is returned when `flush()` fails.
    type FlushError;

    /// Whether this writer follows the output model.
    open spec fn obeys_write_model() -> bool {
        false
    }

    /// The bytes this writer has accepted, when it follows the output model.
    open spec fn output(&self) -> Seq<u8> {
        Seq::empty()
    }

    /// Whether `write` never fails.
    open spec fn write_infallible() -> bool {
        false
    }

    /// Whether `flush` never fails.
    open spec fn flush_infallible() -> bool {
        false
    }

    /// What a call of `write` with the bytes `buf` may do: `after` is the writer after the call
    /// and `r` what the call returned.
    open spec fn write_effect(&self, after: &Self, buf: Seq<u8>, r: Result<usize, Self::WriteError>) -> bool {
        true
    }

    /// What a call of `size_hint` with these bounds may do to the writer, besides keeping its
    /// output: `after` is the writer after the call.
    open spec fn size_hint_effect(&self, after: &Self, min_bytes: usize, max_bytes: Option<usize>) -> bool {
        true
    }

    /// Write a buffer into this object, returning how many bytes were written.
    ///
    /// If the return value is `Ok(n)` then `n` is at most `buf.len()`, and not 0 unless `buf` is
    /// empty: a writer that cannot take any more bytes reports that with an error. Writing only
    /// part of `buf` is not an error. If an error is returned then no bytes in the buffer were
    /// written.
    fn write(&mut self, buf: &[u8]) -> (r: Result<usize, Self::WriteError>)
        ensures
            r matches Ok(n) ==> n <= buf@.len() && (buf@.len() > 0 ==> n > 0),
            Self::write_infallible() ==> r is Ok,
            Self::write_effect(&*old(self), &*final(self), buf@, r),
            Self::obeys_write_model() ==> match r {
                Ok(n) => final(self).output() == old(self).output() + buf@.take(n as int),
                Err(_) => final(self).output() == old(self).output(),
            },
    ;

    /// Flush this output stream, ensuring that all intermediately buffered contents reach their
    /// destination. Flushing never changes what the writer has accepted.
    fn flush(&mut self) -> (r: Result<(), Self::FlushError>)
        ensures
            Self::flush_infallible() ==> r is Ok,
            Self::obeys_write_model() ==> final(self).output() == old(self).output(),
    ;

    /// Attempts to write an entire buffer into this `Write`.
    ///
    /// On error it reports how many bytes were written and how many were not.
    fn write_all(&mut self, buf: &[u8]) -> (r: Result<(), WriteAllError<Self::WriteError>>)
        ensures
            r matches Err(e) ==> e.bytes_written + e.bytes_missing <= buf@.len() && e.bytes_missing > 0,
            Self::write_infallible() ==> r is Ok,
            Self::obeys_write_model() ==> match r {
                Ok(_) => final(self).output() == old(self).output() + buf@,
                Err(e) => final(self).output() == old(self).output() + buf@.take(e.bytes_written as int),
            },
        default_ensures
            r matches Err(e) ==> e.bytes_written + e.bytes_missing == buf@.len() && e.bytes_missing > 0,
            Self::obeys_write_model() ==> match r {
                Ok(_) => final(self).output() == old(self).output() + buf@,
                Err(e) => final(self).output() == old(self).output() + buf@.take(e.bytes_written as int),
            },
    {
        let total_len = buf.len();
        let mut rest = buf;
        while rest.len() > 0
            invariant
                rest@.len() <= buf@.len(),
                total_len == buf@.len(),
                rest@ == buf@.skip(buf@.len() - rest@.len()),
                Self::obeys_write_model() ==> self.output() == old(self).output() + buf@.take(
                    buf@.len() - rest@.len(),
                ),
            decreases rest@.len(),
        {
            let ghost done = buf@.len() - rest@.len();
            match self.write(rest) {
                Ok(len) => {
                    proof {
                        assert(buf@.take(done) + rest@.take(len as int) =~= buf@.take(done + len));
                    }
                    rest = vstd::slice::slice_subrange(rest, len, rest.len());
                    assert(rest@ =~= buf@.skip(buf@.len() - rest@.len()));
                },
                Err(error) => {
                    return Err(
                        WriteAllError {
                            bytes_written: total_len - rest.len(),
                            bytes_missing: rest.len(),
                            error,
                        },
                    );
                },
            }
        }
        assert(buf@.take(buf@.len() as int) =~= buf@);
        Ok(())
    }

    /// Hints the writer how many bytes will be written after call to this function.
    ///
    /// Implementors must not rely on this call to provide correct values; it never changes what
    /// the writer has accepted.
    fn size_hint(&mut self, min_bytes: usize, max_bytes: Option<usize>)
        ensures
            Self::size_hint_effect(&*old(self), &*final(self), min_bytes, max_bytes),
            Self::obeys_write_model() ==> final(self).output() == old(self).output(),
    ;

    /// Reports to the caller whether size hint is actually used.
    fn uses_size_hint(&self) -> (r: bool)
        default_ensures
            !r,
    {
        false
    }

    /// Writes an unsigned 16 bit integer to the underlying writer.
    fn write_u16<BO: ByteOrder>(&mut self, val: u16) -> (r: Result<(), Self::WriteError>)
        where
            Self: Sized,
        ensures
            Self::write_infallible() ==> r is Ok,
            Self::obeys_write_model() && r is Ok ==> number_appended::<BO>(Self::output(&*old(self)), Self::output(&*final(self)), 2, val as nat),
    {
        let mut buf = vec![0u8; 2];
        BO::write_u16(buf.as_mut_slice(), val);
        match Self::write_all(self, buf.as_slice()) {
            Ok(()) => {
                proof {
                    let before = Self::output(&*old(self));
                    assert(buf@.take(2) =~= buf@);
                    if Self::obeys_write_model() {
                        assert(Self::output(&*self).skip(before.len() as int) =~= buf@);
                        assert(Self::output(&*self).take(before.len() as int) =~= before);
                    }
                }
                Ok(())
            },
            Err(e) => Err(e.into_inner()),
        }
    }

    /// Writes a signed 16 bit integer to the underlying writer.
    fn write_i16<BO: ByteOrder>(&mut self, val: i16) -> (r: Result<(), Self::WriteError>)
        where
            Self: Sized,
        ensures
            Self::write_infallible() ==> r is Ok,
            Self::obeys_write_model() && r is Ok ==> number_appended::<BO>(Self::output(&*old(self)), Self::output(&*final(self)), 2, twos_complement(val as int, 2)),
    {
        let mut buf = vec![0u8; 2];
        BO::write_i16(buf.as_mut_slice(), val);
        match Self::write_all(self, buf.as_slice()) {
            Ok(()) => {
                proof {
                    let before = Self::output(&*old(self));
                    assert(buf@.take(2) =~= buf@);
                    if Self::obeys_write_model() {
                        assert(Self::output(&*self).skip(before.len() as int) =~= buf@);
                        assert(Self::output(&*self).take(before.len() as int) =~= before);
                    }
                }
                Ok(())
            },
            Err(e) => Err(e.into_inner()),
        }
    }

    /// Writes an unsigned 32 bit integer to the underlying writer.
    fn write_u32<BO: ByteOrder>(&mut self, val: u32) -> (r: Result<(), Self::WriteError>)
        where
            Self: Sized,
        ensures
            Self::write_infallible() ==> r is Ok,
            Self::obeys_write_model() && r is Ok ==> number_appended::<BO>(Self::output(&*old(self)), Self::output(&*final(self)), 4, val as nat),
    {
        let mut buf = vec![0u8; 4];
        BO::write_u32(buf.as_mut_slice(), val);
        match Self::write_all(self, buf.as_slice()) {
            Ok(()) => {
                proof {
                    let before = Self::output(&*old(self));
                    assert(buf@.take(4) =~= buf@);
                    if Self::obeys_write_model() {
                        assert(Self::output(&*self).skip(before.len() as int) =~= buf@);
                        assert(Self::output(&*self).take(before.len() as int) =~= before);
                    }
                }
                Ok(())
            },
            Err(e) => Err(e.into_inner()),
        }
    }

    /// Writes a signed 32 bit integer to the underlying writer.
    fn write_i32<BO: ByteOrder>(&mut self, val: i32) -> (r: Result<(), Self::WriteError>)
        where
            Self: Sized,
        ensures
            Self::write_infallible() ==> r is Ok,
            Self::obeys_write_model() && r is Ok ==> number_appended::<BO>(Self::output(&*old(self)), Self::output(&*final(self)), 4, twos_complement(val as int, 4)),
    {
        let mut buf = vec![0u8; 4];
        BO::write_i32(buf.as_mut_slice(), val);
        match Self::write_all(self, buf.as_slice()) {
            Ok(()) => {
                proof {
                    let before = Self::output(&*old(self));
                    assert(buf@.take(4) =~= buf@);
                    if Self::obeys_write_model() {
                        assert(Self::output(&*self).skip(before.len() as int) =~= buf@);
                        assert(Self::output(&*self).take(before.len() as int) =~= before);
                    }
                }
                Ok(())
            },
            Err(e) => Err(e.into_inner()),
        }
    }

    /// Writes an unsigned 64 bit integer to the underlying writer.
    fn write_u64<BO: ByteOrder>(&mut self, val: u64) -> (r: Result<(), Self::WriteError>)
        where
            Self: Sized,
        ensures
            Self::write_infallible() ==> r is Ok,
            Self::obeys_write_model() && r is Ok ==> number_appended::<BO>(Self::output(&*old(self)), Self::output(&*final(self)), 8, val as nat),
    {
        let mut buf = vec![0u8; 8];
        BO::write_u64(buf.as_mut_slice(), val);
        match Self::write_all(self, buf.as_slice()) {
            Ok(()) => {
                proof {
                    let before = Self::output(&*old(self));
                    assert(buf@.take(8) =~= buf@);
                    if Self::obeys_write_model() {
                        assert(Self::output(&*self).skip(before.len() as int) =~= buf@);
                        assert(Self::output(&*self).take(before.len() as int) =~= before);
                    }
                }
                Ok(())
            },
            Err(e) => Err(e.into_inner()),
        }
    }

    /// Writes a signed 64 bit integer to the underlying writer.
    fn write_i64<BO: ByteOrder>(&mut self, val: i64) -> (r: Result<(), Self::WriteError>)
        where
            Self: Sized,
        ensures
            Self::write_infallible() ==> r is Ok,
            Self::obeys_write_model() && r is Ok ==> number_appended::<BO>(Self::output(&*old(self)), Self::output(&*final(self)), 8, twos_complement(val as int, 8)),
    {
        let mut buf = vec![0u8; 8];
        BO::write_i64(buf.as_mut_slice(), val);
        match Self::write_all(self, buf.as_slice()) {
            Ok(()) => {
                proof {
                    let before = Self::output(&*old(self));
                    assert(buf@.take(8) =~= buf@);
                    if Self::obeys_write_model() {
                        assert(Self::output(&*self).skip(before.len() as int) =~= buf@);
                        assert(Self::output(&*self).take(before.len() as int) =~= before);
                    }
                }
                Ok(())
            },
            Err(e) => Err(e.into_inner()),
        }
    }

    /// Writes an unsigned `bytes`-byte integer to the underlying writer.
    ///
    /// The integer must be representable in the given number of bytes, and `bytes` must be
    /// between 1 and 8.
    fn write_uint<BO: ByteOrder>(&mut self, val: u64, bytes: usize) -> (r: Result<(), Self::WriteError>)
        where
            Self: Sized,
        requires
            1 <= bytes <= 8,
            val < byte_range(bytes as nat),
        ensures
            Self::write_infallible() ==> r is Ok,
            Self::obeys_write_model() && r is Ok ==> number_appended::<BO>(Self::output(&*old(self)), Self::output(&*final(self)), bytes as nat, val as nat),
    {
        let mut buf = vec![0u8; 8];
        BO::write_uint(buf.as_mut_slice(), val, bytes);
        let part = vstd::slice::slice_subrange(buf.as_slice(), 0, bytes);
        match Self::write_all(self, part) {
            Ok(()) => {
                proof {
                    let before = Self::output(&*old(self));
                    if Self::obeys_write_model() {
                        assert(Self::output(&*self).skip(before.len() as int) =~= part@);
                        assert(Self::output(&*self).take(before.len() as int) =~= before);
                    }
                }
                Ok(())
            },
            Err(e) => Err(e.into_inner()),
        }
    }

    /// Writes a signed `bytes`-byte integer to the underlying writer.
    ///
    /// The integer must be representable in the given number of bytes, and `bytes` must be
    /// between 1 and 8.
    fn write_int<BO: ByteOrder>(&mut self, val: i64, bytes: usize) -> (r: Result<(), Self::WriteError>)
        where
            Self: Sized,
        requires
            1 <= bytes <= 8,
            -(byte_range(bytes as nat) / 2) <= val < byte_range(bytes as nat) / 2,
        ensures
            Self::write_infallible() ==> r is Ok,
            Self::obeys_write_model() && r is Ok ==> number_appended::<BO>(Self::output(&*old(self)), Self::output(&*final(self)), bytes as nat, twos_complement(val as int, bytes as nat)),
    {
        let mut buf = vec![0u8; 8];
        BO::write_int(buf.as_mut_slice(), val, bytes);
        let part = vstd::slice::slice_subrange(buf.as_slice(), 0, bytes);
        match Self::write_all(self, part) {
            Ok(()) => {
                proof {
                    let before = Self::output(&*old(self));
                    if Self::obeys_write_model() {
                        assert(Self::output(&*self).skip(before.len() as int) =~= part@);
                        assert(Self::output(&*self).take(before.len() as int) =~= before);
                    }
                }
                Ok(())
            },
            Err(e) => Err(e.into_inner()),
        }
    }
}

impl<'a> Read for &'a [u8] {
    type ReadError = core::convert::Infallible;
    type BufInit = Uninit;

    open spec fn obeys_read_model() -> bool {
        true
    }

    open spec fn pending(&self) -> Seq<u8> {
        self@
    }

    open spec fn read_infallible() -> bool {
        true
    }

    open spec fn read_outcome(
        &self,
        after: &Self,
        buf: OutBuf<Uninit>,
        buf_after: OutBuf<Uninit>,
        r: Result<usize, Self::ReadError>,
    ) -> bool {
        let n = if self@.len() <= buf.room() { self@.len() as int } else { buf.room() };
        &&& r matches Ok(k) && k == n
        &&& after@ == self@.skip(n)
        &&& buf_after.filled() == buf.filled() + self@.take(n)
    }

    fn read(&mut self, buf: &mut OutBuf<Uninit>) -> (r: Result<usize, Self::ReadError>)
        ensures
            r matches Ok(n) && n == (if old(self)@.len() <= old(buf).room() {
                old(self)@.len() as int
            } else {
                old(buf).room()
            }),
    {
        if self.len() == 0 {
            assert(buf.filled().take(buf.pos() as int) =~= buf.filled());
            assert(buf.filled() + self@.take(0) =~= buf.filled());
            assert(self@.skip(0) =~= self@);
            let r: Result<usize, Self::ReadError> = Ok(0);
            assert(Self::read_outcome(&*old(self), &*self, *old(buf), *buf, r));
            return r;
        }
        let amt = buf.write_slice_min(*self);
        *self = vstd::slice::slice_subrange(*self, amt, self.len());
        proof {
            assert(buf.filled() =~= old(buf).filled() + old(self)@.take(amt as int));
            assert(buf.filled().take(old(buf).pos() as int) =~= old(buf).filled());
        }
        let r: Result<usize, Self::ReadError> = Ok(amt);
        assert(Self::read_outcome(&*old(self), &*self, *old(buf), *buf, r));
        r
    }

    fn available_bytes(&self, at_least: usize) -> (b: bool)
        ensures
            b == (self@.len() >= at_least),
    {
        self.len() >= at_least
    }
}

/// Writing into a byte slice fills the storage it points to from the front, in order.
///
/// `Write::write` on a `&mut [u8]` that takes `n` bytes of `buf` leaves the storage the slice
/// pointed to as `buf[..n]` followed by the storage of the slice it moves on to. So when one write
/// takes `n1` bytes of `first` and the next takes `n2` bytes of `second`, the storage holds the
/// taken bytes of `first` at its front, then those of `second`, then what the slice still points
/// to: no byte is skipped, repeated or moved.
pub proof fn slice_writes_fill_in_order(
    storage: Seq<u8>,
    middle: Seq<u8>,
    rest: Seq<u8>,
    first: Seq<u8>,
    second: Seq<u8>,
    n1: nat,
    n2: nat,
)
    requires
        n1 <= first.len(),
        n2 <= second.len(),
        storage == first.take(n1 as int) + middle,
        middle == second.take(n2 as int) + rest,
    ensures
        storage.len() == n1 + n2 + rest.len(),
        forall|i: int| 0 <= i < n1 ==> #[trigger] storage[i] == first[i],
        forall|i: int| 0 <= i < n2 ==> #[trigger] storage[n1 + i] == second[i],
        storage.skip((n1 + n2) as int) == rest,
{
    assert forall|i: int| 0 <= i < n2 implies #[trigger] storage[n1 + i] == second[i] by {
        assert(storage[n1 + i] == middle[i]);
    }
    assert(storage.skip((n1 + n2) as int) =~= rest);
}

impl<'a> Write for &'a mut [u8] {
    type WriteError = BufferOverflow;
    type FlushError = core::convert::Infallible;

    open spec fn flush_infallible() -> bool {
        true
    }

    open spec fn write_effect(&self, after: &Self, buf: Seq<u8>, r: Result<usize, BufferOverflow>) -> bool {
        if buf.len() > 0 && self@.len() == 0 {
            r is Err && after@ == self@
        } else {
            let n = if buf.len() <= self@.len() { buf.len() } else { self@.len() };
            &&& r matches Ok(k) && k == n
            &&& after@ == self@.skip(n as int)
        }
    }

    /// Writes as many bytes of `buf` as fit into the slice and moves the slice past them. A slice
    /// with no room left refuses a non-empty buffer with `BufferOverflow`.
    fn write(&mut self, buf: &[u8]) -> (r: Result<usize, Self::WriteError>)
        ensures
            buf@.len() > 0 && old(self)@.len() == 0 ==> r is Err && final(self)@ == old(self)@,
            !(buf@.len() > 0 && old(self)@.len() == 0) ==> {
                let n = if buf@.len() <= old(self)@.len() { buf@.len() } else { old(self)@.len() };
                &&& r matches Ok(k) && k == n
                &&& final(self)@ == old(self)@.skip(n as int)
            },
            r matches Ok(n) ==> final(*old(self))@ == buf@.take(n as int) + final(*final(self))@,
            r matches Ok(n) ==> forall|i: int| 0 <= i < n ==> #[trigger] final(*old(self))@[i] == buf@[i],
            r is Err ==> *final(self) == *old(self),
    {
        if buf.len() > 0 && self.len() == 0 {
            return Err(BufferOverflow);
        }
        let n = if buf.len() <= self.len() { buf.len() } else { self.len() };
        let mut whole: &'a mut [u8] = &mut [];
        core::mem::swap(&mut whole, self);
        let (first, second) = whole.split_at_mut(n);
        let mut i: usize = 0;
        while i < n
            invariant
                i <= n,
                n <= buf@.len(),
                first@.len() == n,
                forall|j: int| 0 <= j < i ==> first@[j] == buf@[j],
            decreases n - i,
        {
            first[i] = buf[i];
            i += 1;
        }
        *self = second;
        Ok(n)
    }

    fn flush(&mut self) -> (r: Result<(), Self::FlushError>)
        ensures
            r is Ok && final(self)@ == old(self)@,
    {
        Ok(())
    }

    fn size_hint(&mut self, _min_bytes: usize, _max_bytes: Option<usize>)
        ensures
            final(self)@ == old(self)@,
    {
    }
}

} // verus!

verus! {

/// Some types can be extended by reading from reader. The most well-known is probably `Vec`.
///
/// A container may follow the contents model (`obeys_extend_model`): it then holds a sequence
/// of `contents` bytes, and extending it appends the bytes read.
pub trait ExtendFromReader {
    /// This type is returned when extending fails. For example, if not enough memory could be
    /// allocated. All other errors are passed directly from reader.
    type ExtendError;

    /// The number of bytes the container holds.
    spec fn stored_len(&self) -> usize;

    /// Whether this container follows the contents model.
    open spec fn obeys_extend_model() -> bool {
        false
    }

    /// The bytes the container holds, when it follows the contents model.
    open spec fn contents(&self) -> Seq<u8> {
        Seq::empty()
    }

    /// Whether the container itself never fails to be extended: only the reader's errors can
    /// then be returned.
    open spec fn extend_infallible() -> bool {
        false
    }

    /// Extends `self` from the reader, calling `read()` just once, and returns the number of
    /// bytes read.
    fn extend_from_reader<R: Read>(&mut self, reader: &mut R) -> (r: Result<
        usize,
        ExtendError<R::ReadError, Self::ExtendError>,
    >)
        ensures
            r matches Ok(n) ==> final(self).stored_len() == old(self).stored_len() + n,
            R::read_infallible() ==> !(r matches Err(ExtendError::ReadErr(_))),
            Self::extend_infallible() ==> !(r matches Err(ExtendError::ExtendErr(_))),
            Self::obeys_extend_model() && R::obeys_read_model() ==> match r {
                Ok(n) => {
                    &&& n <= R::pending(&*old(reader)).len()
                    &&& final(self).contents() == old(self).contents() + R::pending(&*old(reader)).take(n as int)
                    &&& R::pending(&*final(reader)) == R::pending(&*old(reader)).skip(n as int)
                    &&& (n == 0 ==> R::pending(&*old(reader)).len() == 0)
                },
                Err(_) => {
                    &&& final(self).contents() == old(self).contents()
                    &&& R::pending(&*final(reader)) == R::pending(&*old(reader))
                },
            },
    ;

    /// Extends `self` with the contents of whole reader.
    ///
    /// This calls `extend_from_reader` until it returns 0, and returns the number of bytes read
    /// (`usize::MAX` if the amount is larger).
    fn extend_from_reader_to_end<R: Read>(&mut self, reader: &mut R) -> (r: Result<
        usize,
        ExtendError<R::ReadError, Self::ExtendError>,
    >)
        ensures
            r matches Ok(n) ==> final(self).stored_len() == old(self).stored_len() + n,
            R::read_infallible() ==> !(r matches Err(ExtendError::ReadErr(_))),
            Self::extend_infallible() ==> !(r matches Err(ExtendError::ExtendErr(_))),
            Self::obeys_extend_model() && R::obeys_read_model() ==> match r {
                Ok(_) => {
                    &&& final(self).contents() == old(self).contents() + R::pending(&*old(reader))
                    &&& R::pending(&*final(reader)).len() == 0
                },
                Err(_) => final(self).contents() + R::pending(&*final(reader)) == old(self).contents()
                    + R::pending(&*old(reader)),
            },
    {
        let mut total_bytes: usize = 0;
        let ghost start_len = self.stored_len();
        loop
            invariant
                self.stored_len() == start_len + total_bytes,
                start_len == old(self).stored_len(),
                Self::obeys_extend_model() && R::obeys_read_model() ==> self.contents()
                    + R::pending(&*reader) == old(self).contents() + R::pending(&*old(reader)),
            decreases usize::MAX - self.stored_len(),
        {
            let ghost before_contents = self.contents();
            let ghost before_pending = R::pending(&*reader);
            let bytes = match self.extend_from_reader(reader) {
                Ok(n) => n,
                Err(e) => {
                    return Err(e);
                },
            };
            proof {
                if Self::obeys_extend_model() && R::obeys_read_model() {
                    assert(before_pending =~= before_pending.take(bytes as int) + before_pending.skip(bytes as int));
                    assert(self.contents() + R::pending(&*reader) =~= before_contents + before_pending);
                    if bytes == 0 {
                        assert(self.contents() =~= before_contents);
                    }
                }
            }
            if bytes == 0 {
                return Ok(total_bytes);
            }
            total_bytes = total_bytes.saturating_add(bytes);
        }
    }
}

/// An error-mapping function that accepts every error.
#[verifier::reject_recursive_types(A)]
#[verifier::reject_recursive_types(E)]
pub struct ErrMap<A, E, F: Fn(A) -> E> {
    f: F,
    _marker: core::marker::PhantomData<(A, E)>,
}

impl<A, E, F: Fn(A) -> E> ErrMap<A, E, F> {
    #[verifier::type_invariant]
    spec fn total(self) -> bool {
        forall|a: A| call_requires(self.f, (a,))
    }

    /// The function.
    pub closed spec fn func(&self) -> F {
        self.f
    }

    /// Wraps a function that accepts every error.
    pub fn new(f: F) -> (r: Self)
        requires
            forall|a: A| call_requires(f, (a,)),
        ensures
            r.func() == f,
    {
        ErrMap { f, _marker: core::marker::PhantomData }
    }

    /// Applies the function.
    pub fn apply(&self, a: A) -> (r: E)
        ensures
            call_ensures(self.func(), (a,), r),
    {
        proof {
            use_type_invariant(self);
        }
        (self.f)(a)
    }
}

/// `e` is what `f` gives for some error.
pub open spec fn mapped_error<A, E, F: Fn(A) -> E>(f: F, e: E) -> bool {
    exists|a: A| call_ensures(f, (a,), e)
}

/// Reader that maps all its errors using the provided function.
///
/// This is returned from [`Read::map_read_err`] method.
#[verifier::reject_recursive_types(E)]
pub struct MapReadErr<R: Read, F: Fn(R::ReadError) -> E, E> {
    reader: R,
    map_fn: ErrMap<R::ReadError, E, F>,
}

impl<R: Read, F: Fn(R::ReadError) -> E, E> MapReadErr<R, F, E> {
    /// The wrapped reader.
    pub closed spec fn reader(&self) -> R {
        self.reader
    }

    /// The error-mapping function.
    pub closed spec fn map_fn(&self) -> F {
        self.map_fn.func()
    }
}

impl<R: Read, F: Fn(R::ReadError) -> E, E> Read for MapReadErr<R, F, E> {
    type ReadError = E;
    type BufInit = R::BufInit;

    open spec fn obeys_read_model() -> bool {
        R::obeys_read_model()
    }

    open spec fn pending(&self) -> Seq<u8> {
        self.reader().pending()
    }

    open spec fn read_infallible() -> bool {
        R::read_infallible()
    }

    /// One read of the wrapped reader, whose error, if any, is mapped by the function.
    open spec fn read_outcome(
        &self,
        after: &Self,
        buf: OutBuf<R::BufInit>,
        buf_after: OutBuf<R::BufInit>,
        r: Result<usize, E>,
    ) -> bool {
        &&& after.map_fn() == self.map_fn()
        &&& exists|inner: Result<usize, R::ReadError>|
            {
                &&& #[trigger] R::read_outcome(&self.reader(), &after.reader(), buf, buf_after, inner)
                &&& match inner {
                    Ok(n) => r == Ok::<usize, E>(n),
                    Err(e) => r is Err && call_ensures(self.map_fn(), (e,), r->Err_0),
                }
            }
    }

    fn read(&mut self, buf: &mut OutBuf<R::BufInit>) -> (r: Result<usize, E>)
        ensures
            final(self).map_fn() == old(self).map_fn(),
            r matches Err(e) ==> mapped_error::<R::ReadError, E, F>(old(self).map_fn(), e),
    {
        assert(Self::read_infallible() == R::read_infallible());
        let ghost b0 = *buf;
        let res = self.reader.read(buf);
        let ghost inner = res;
        let r = match res {
            Ok(n) => Ok(n),
            Err(e) => {
                let mapped = self.map_fn.apply(e);
                assert(call_ensures(old(self).map_fn(), (e,), mapped));
                assert(mapped_error::<R::ReadError, E, F>(old(self).map_fn(), mapped));
                Err(mapped)
            },
        };
        assert(R::read_outcome(&old(self).reader(), &self.reader(), b0, *buf, inner));
        assert(Self::read_outcome(&*old(self), &*self, b0, *buf, r));
        r
    }
}

impl<'a, R: Read> Read for &'a mut R {
    type ReadError = R::ReadError;
    type BufInit = R::BufInit;

    open spec fn obeys_read_model() -> bool {
        R::obeys_read_model()
    }

    open spec fn pending(&self) -> Seq<u8> {
        (**self).pending()
    }

    open spec fn read_infallible() -> bool {
        R::read_infallible()
    }

    open spec fn read_outcome(
        &self,
        after: &Self,
        buf: OutBuf<R::BufInit>,
        buf_after: OutBuf<R::BufInit>,
        r: Result<usize, R::ReadError>,
    ) -> bool {
        R::read_outcome(&**self, &**after, buf, buf_after, r)
    }

    fn read(&mut self, buf: &mut OutBuf<Self::BufInit>) -> (r: Result<usize, Self::ReadError>) {
        assert(Self::read_infallible() == R::read_infallible());
        let ghost b0 = *buf;
        let r = (**self).read(buf);
        assert(Self::read_outcome(&*old(self), &*self, b0, *buf, r));
        r
    }

    fn available_bytes(&self, at_least: usize) -> (b: bool) {
        (**self).available_bytes(at_least)
    }

    fn retrieve_available_bytes(&self) -> (r: Option<usize>) {
        (**self).retrieve_available_bytes()
    }
}

impl<'a, W: Write> Write for &'a mut W {
    type WriteError = W::WriteError;
    type FlushError = W::FlushError;

    open spec fn obeys_write_model() -> bool {
        W::obeys_write_model()
    }

    open spec fn output(&self) -> Seq<u8> {
        (**self).output()
    }

    open spec fn write_infallible() -> bool {
        W::write_infallible()
    }

    open spec fn flush_infallible() -> bool {
        W::flush_infallible()
    }

    open spec fn size_hint_effect(&self, after: &Self, min_bytes: usize, max_bytes: Option<usize>) -> bool {
        W::size_hint_effect(&**self, &**after, min_bytes, max_bytes)
    }

    open spec fn write_effect(&self, after: &Self, buf: Seq<u8>, r: Result<usize, W::WriteError>) -> bool {
        W::write_effect(&**self, &**after, buf, r)
    }

    fn write(&mut self, buf: &[u8]) -> (r: Result<usize, Self::WriteError>) {
        assert(Self::write_infallible() == W::write_infallible());
        let r = (**self).write(buf);
        assert(Self::write_effect(&*old(self), &*self, buf@, r));
        r
    }

    fn flush(&mut self) -> (r: Result<(), Self::FlushError>) {
        assert(Self::flush_infallible() == W::flush_infallible());
        (**self).flush()
    }

    fn size_hint(&mut self, min_bytes: usize, max_bytes: Option<usize>) {
        (**self).size_hint(min_bytes, max_bytes);
        assert(Self::size_hint_effect(&*old(self), &*self, min_bytes, max_bytes)
            == W::size_hint_effect(&**old(self), &**self, min_bytes, max_bytes));
    }

    fn uses_size_hint(&self) -> (r: bool) {
        (**self).uses_size_hint()
    }
}

impl<'a> Read for &'a mut [u8] {
    type ReadError = Void;
    type BufInit = Uninit;

    open spec fn obeys_read_model() -> bool {
        true
    }

    open spec fn pending(&self) -> Seq<u8> {
        self@
    }

    open spec fn read_infallible() -> bool {
        true
    }

    open spec fn read_outcome(
        &self,
        after: &Self,
        buf: OutBuf<Uninit>,
        buf_after: OutBuf<Uninit>,
        r: Result<usize, Self::ReadError>,
    ) -> bool {
        let n = if self@.len() <= buf.room() { self@.len() as int } else { buf.room() };
        &&& r matches Ok(k) && k == n
        &&& after@ == self@.skip(n)
        &&& buf_after.filled() == buf.filled() + self@.take(n)
    }

    fn read(&mut self, buf: &mut OutBuf<Uninit>) -> (r: Result<usize, Self::ReadError>)
        ensures
            r matches Ok(n) && n == (if old(self)@.len() <= old(buf).room() {
                old(self)@.len() as int
            } else {
                old(buf).room()
            }),
            r matches Ok(n) ==> final(*old(self))@ == old(self)@.take(n as int) + final(*final(self))@,
    {
        let amt = buf.write_slice_min(&**self);
        let mut whole: &'a mut [u8] = &mut [];
        core::mem::swap(&mut whole, self);
        let (_, rest) = whole.split_at_mut(amt);
        *self = rest;
        proof {
            assert(buf.filled().take(old(buf).pos() as int) =~= old(buf).filled());
            assert(buf.filled() =~= old(buf).filled() + old(self)@.take(amt as int));
            assert(self@ =~= old(self)@.skip(amt as int));
        }
        let r: Result<usize, Self::ReadError> = Ok(amt);
        assert(Self::read_outcome(&*old(self), &*self, *old(buf), *buf, r));
        r
    }

    fn available_bytes(&self, at_least: usize) -> (b: bool)
        ensures
            b == (Self::pending(&*self).len() >= at_least),
    {
        self.len() >= at_least
    }
}

} // verus!
