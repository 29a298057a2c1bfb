//! Extension traits: a friendlier result for reads, and reader combinators.
use vstd::prelude::*;

use crate::error::{ExtendError, ReadExactError};
use crate::util::Chain;
use crate::{Buffer, ErrMap, ExtendFromReader, MapReadErr, Read, read_effect};

verus! {

/// Result of successful read operation.
pub enum ReadResult<'a> {
    /// Some bytes were read.
    /// The slice will always contain at least one byte.
    Bytes(&'a [u8]),
    /// No bytes available (End reached).
    End,
}

impl<'a> ReadResult<'a> {
    /// Helps mapping `ReadResult` to `ReadExactError`: the bytes, or `UnexpectedEnd`.
    pub fn require_bytes<T>(self) -> (r: Result<&'a [u8], ReadExactError<T>>)
        ensures
            match self {
                ReadResult::Bytes(b) => r matches Ok(c) && c == b,
                ReadResult::End => r matches Err(ReadExactError::UnexpectedEnd),
            },
    {
        match self {
            ReadResult::Bytes(b) => Ok(b),
            ReadResult::End => Err(ReadExactError::UnexpectedEnd),
        }
    }
}

/// Extra reading operations for every reader.
///
/// `read_ext` reads into a buffer and hands back the bytes just read, or `End`, so that reading
/// in a loop until the end can be written as
///
/// ```no_compile
/// while let Bytes(bytes) = reader.read_ext(&mut buf)? {
///     // Process bytes here.
/// }
/// ```
pub trait ReadExt: Read {
    /// Reads from the reader into `buf` and returns the bytes that were read.
    fn read_ext<'b>(&mut self, buf: &'b mut Buffer<Self::BufInit>) -> (r: Result<ReadResult<'b>, Self::ReadError>)
        requires
            old(buf).wf(),
        ensures
            final(buf).wf(),
            read_effect(old(buf).out_view(), final(buf).out_view(), match r {
                Ok(ReadResult::Bytes(b)) => Ok::<usize, Self::ReadError>(b@.len() as usize),
                Ok(ReadResult::End) => Ok(0),
                Err(e) => Err(e),
            }),
            r matches Ok(ReadResult::Bytes(b)) ==> b@.len() > 0 && b@ == final(buf).written_view().skip(
                old(buf).out_view().pos() as int,
            ),
            Self::read_infallible() ==> r is Ok,
            Self::obeys_read_model() && old(buf).out_view().room() > 0 ==> match r {
                Ok(ReadResult::Bytes(b)) => {
                    &&& b@.len() <= Self::pending(&*old(self)).len()
                    &&& b@ == Self::pending(&*old(self)).take(b@.len() as int)
                    &&& Self::pending(&*final(self)) == Self::pending(&*old(self)).skip(b@.len() as int)
                },
                Ok(ReadResult::End) => Self::pending(&*old(self)).len() == 0 && Self::pending(&*final(self)) == Self::pending(&*old(self)),
                Err(_) => Self::pending(&*final(self)) == Self::pending(&*old(self)),
            },
    ;

    /// Reads all bytes into any type that can be extended by a reader, returning their number.
    ///
    /// It extends the container until the reader has nothing more to give.
    fn read_to_end<T: ExtendFromReader>(&mut self, container: &mut T) -> (r: Result<
        usize,
        ExtendError<Self::ReadError, T::ExtendError>,
    >)
        where
            Self: Sized,
        ensures
            r matches Ok(n) ==> final(container).stored_len() == old(container).stored_len() + n,
            Self::read_infallible() ==> !(r matches Err(ExtendError::ReadErr(_))),
            T::extend_infallible() ==> !(r matches Err(ExtendError::ExtendErr(_))),
            T::obeys_extend_model() && Self::obeys_read_model() ==> match r {
                Ok(_) => {
                    &&& final(container).contents() == old(container).contents() + Self::pending(&*old(self))
                    &&& Self::pending(&*final(self)).len() == 0
                },
                Err(_) => final(container).contents() + Self::pending(&*final(self)) == old(container).contents()
                    + Self::pending(&*old(self)),
            },
    {
        let mut total_bytes: usize = 0;
        let ghost start_len = container.stored_len();
        loop
            invariant
                container.stored_len() == start_len + total_bytes,
                start_len == old(container).stored_len(),
                T::obeys_extend_model() && Self::obeys_read_model() ==> container.contents()
                    + Self::pending(&*self) == old(container).contents() + Self::pending(&*old(self)),
            decreases usize::MAX - container.stored_len(),
        {
            let ghost before_contents = container.contents();
            let ghost before_pending = Self::pending(&*self);
            let bytes = match container.extend_from_reader(self) {
                Ok(n) => n,
                Err(e) => {
                    return Err(e);
                },
            };
            proof {
                if T::obeys_extend_model() && Self::obeys_read_model() {
                    assert(before_pending =~= before_pending.take(bytes as int) + before_pending.skip(bytes as int));
                    assert(container.contents() + Self::pending(&*self) =~= before_contents + before_pending);
                    if bytes == 0 {
                        assert(container.contents() =~= before_contents);
                    }
                }
            }
            if bytes == 0 {
                return Ok(total_bytes);
            }
            total_bytes = total_bytes + bytes;
        }
    }

    /// Chains another reader after `self`. When self ends (returns Ok(0)), the other reader will
    /// provide bytes to read.
    fn chain<R: Read>(self, other: R) -> (r: Chain<Self, R>)
        where
            Self: Sized,
        ensures
            r.parts() == (self, other, false),
    {
        Chain::new(self, other)
    }

    /// Creates a reader that converts all its errors with `f`.
    ///
    /// This is useful mainly to unify the error types of several readers. `f` must accept every
    /// error.
    fn map_read_err<E, F: Fn(Self::ReadError) -> E>(self, f: F) -> (r: MapReadErr<Self, F, E>)
        where
            Self: Sized,
        requires
            forall|e: Self::ReadError| call_requires(f, (e,)),
        ensures
            r.reader() == self,
            r.map_fn() == f,
    {
        MapReadErr { reader: self, map_fn: ErrMap::new(f) }
    }

}

impl<R: Read> ReadExt for R {
    fn read_ext<'b>(&mut self, buf: &'b mut Buffer<Self::BufInit>) -> (r: Result<ReadResult<'b>, Self::ReadError>) {
        let start = buf.written().len();
        let ghost before = *buf;
        let len = match self.read(buf.as_out()) {
            Ok(n) => n,
            Err(e) => {
                return Err(e);
            },
        };
        if len > 0 {
            let written = buf.written();
            let bytes = vstd::slice::slice_subrange(written, start, written.len());
            Ok(ReadResult::Bytes(bytes))
        } else {
            Ok(ReadResult::End)
        }
    }
}

} // verus!
