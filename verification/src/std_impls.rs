//! Glue between this crate's traits and `std::io`.
//!
//! The wrappers here carry a reader or writer from one side to the other; the `std::io` side of
//! the conversion is implemented by the application layer.
use vstd::prelude::*;

use crate::buffer::init::Uninit;
use crate::{OutBuf, Read, Write};

verus! {

/// The `std::io` writer that drops everything.
#[verifier::external_type_specification]
#[verifier::external_body]
pub struct ExIoSink(std::io::Sink);

/// The `std::io` reader with nothing to read.
#[verifier::external_type_specification]
#[verifier::external_body]
pub struct ExIoEmpty(std::io::Empty);

// Same as the crate's own `Sink`.
impl Write for std::io::Sink {
    type WriteError = core::convert::Infallible;
    type FlushError = core::convert::Infallible;

    open spec fn write_infallible() -> bool {
        true
    }

    open spec fn flush_infallible() -> bool {
        true
    }

    open spec fn write_effect(&self, after: &Self, buf: Seq<u8>, r: Result<usize, core::convert::Infallible>) -> bool {
        r matches Ok(n) && n == buf.len()
    }

    fn write(&mut self, buf: &[u8]) -> (r: Result<usize, Self::WriteError>)
        ensures
            r matches Ok(n) && n == buf@.len(),
    {
        let r: Result<usize, core::convert::Infallible> = Ok(buf.len());
        assert(Self::write_effect(&*old(self), &*self, buf@, r));
        r
    }

    fn flush(&mut self) -> (r: Result<(), Self::FlushError>)
        ensures
            r is Ok,
    {
        Ok(())
    }

    fn size_hint(&mut self, _min_bytes: usize, _max_bytes: Option<usize>) {
    }
}

// Same as the crate's own `Empty`.
impl Read for std::io::Empty {
    type ReadError = core::convert::Infallible;
    type BufInit = Uninit;

    open spec fn read_infallible() -> bool {
        true
    }

    open spec fn read_outcome(
        &self,
        after: &Self,
        buf: OutBuf<Uninit>,
        buf_after: OutBuf<Uninit>,
        r: Result<usize, Self::ReadError>,
    ) -> bool {
        &&& r matches Ok(n) && n == 0
        &&& buf_after == buf
    }

    fn read(&mut self, buf: &mut OutBuf<Uninit>) -> (r: Result<usize, Self::ReadError>)
        ensures
            r matches Ok(n) && n == 0,
            *final(buf) == *old(buf),
    {
        assert(buf.filled().take(buf.pos() as int) =~= buf.filled());
        let r: Result<usize, Self::ReadError> = Ok(0);
        assert(Self::read_outcome(&*old(self), &*self, *old(buf), *buf, r));
        r
    }
}

/// Wrapper providing `std::io::Read` trait for readers of this crate.
pub struct StdRead<R>(R);

impl<R> StdRead<R> {
    /// The wrapped reader.
    pub closed spec fn inner(&self) -> R {
        self.0
    }
}

impl<R: Read> StdRead<R> {
    /// Wraps a reader of this crate into a `std` reader.
    pub fn new(reader: R) -> (r: Self)
        ensures
            r.inner() == reader,
    {
        StdRead(reader)
    }

    /// Unwraps inner reader.
    pub fn into_inner(self) -> (r: R)
        ensures
            r == self.inner(),
    {
        self.0
    }
}

/// Wrapper providing `std::io::Write` trait for writers of this crate.
pub struct StdWrite<W>(W);

impl<W> StdWrite<W> {
    /// The wrapped writer.
    pub closed spec fn inner(&self) -> W {
        self.0
    }
}

impl<W: Write> StdWrite<W> {
    /// Wraps a writer of this crate into a `std` writer.
    pub fn new(writer: W) -> (r: Self)
        ensures
            r.inner() == writer,
    {
        StdWrite(writer)
    }

    /// Unwraps inner writer.
    pub fn into_inner(self) -> (r: W)
        ensures
            r == self.inner(),
    {
        self.0
    }
}

/// Wrapper providing `std::io::Read + std::io::Write` traits for readers and writers of this
/// crate.
pub struct StdIo<T>(T);

impl<T> StdIo<T> {
    /// The wrapped reader and writer.
    pub closed spec fn inner(&self) -> T {
        self.0
    }
}

impl<T: Read + Write> StdIo<T> {
    /// Wraps a reader and writer of this crate into a `std` reader and writer.
    pub fn new(io: T) -> (r: Self)
        ensures
            r.inner() == io,
    {
        StdIo(io)
    }

    /// Unwraps inner io.
    pub fn into_inner(self) -> (r: T)
        ensures
            r == self.inner(),
    {
        self.0
    }
}

/// Wrapper providing this crate's `Read` trait for `std::io::Read` types.
pub struct GenioRead<R>(R);

impl<R> GenioRead<R> {
    /// The wrapped `std` reader.
    pub closed spec fn inner(&self) -> R {
        self.0
    }

    /// Wraps a `std` reader.
    pub fn new(reader: R) -> (r: Self)
        ensures
            r.inner() == reader,
    {
        GenioRead(reader)
    }

    /// Unwraps the `std` reader.
    pub fn into_inner(self) -> (r: R)
        ensures
            r == self.inner(),
    {
        self.0
    }
}

/// Wrapper providing this crate's `Write` trait for `std::io::Write` types.
pub struct GenioWrite<W>(W);

impl<W> GenioWrite<W> {
    /// The wrapped `std` writer.
    pub closed spec fn inner(&self) -> W {
        self.0
    }

    /// Wraps a `std` writer.
    pub fn new(writer: W) -> (r: Self)
        ensures
            r.inner() == writer,
    {
        GenioWrite(writer)
    }

    /// Unwraps the `std` writer.
    pub fn into_inner(self) -> (r: W)
        ensures
            r == self.inner(),
    {
        self.0
    }
}

/// Wrapper providing this crate's `Read + Write` traits for `std::io::Read + std::io::Write`
/// types.
pub struct GenioIo<T>(T);

impl<T> GenioIo<T> {
    /// The wrapped `std` reader and writer.
    pub closed spec fn inner(&self) -> T {
        self.0
    }

    /// Wraps a `std` reader and writer.
    pub fn new(io: T) -> (r: Self)
        ensures
            r.inner() == io,
    {
        GenioIo(io)
    }

    /// Unwraps the `std` reader and writer.
    pub fn into_inner(self) -> (r: T)
        ensures
            r == self.inner(),
    {
        self.0
    }
}

} // verus!
